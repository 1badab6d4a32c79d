//! The frontmatter block: a bounded key-value header with tolerant date
//! parsing, extracted from a document's leading lines.
use crate::datetime::{
    format_ymd_hm, match_possible_dates, spec_format_ymd_hm, spec_match_dates, spec_timestamp,
    timestamp, DateTime,
};
use crate::site::Site;
use crate::strutil::{
    spec_rfind_char, spec_split_char, spec_split_once, spec_trim, split_char, split_once_char,
    rfind_char, trim_str,
};
use vstd::prelude::*;
use vstd::string::*;

verus! {

/// A document's parsed frontmatter.
#[derive(Debug, Clone)]
pub struct Frontmatter {
    pub title: String,
    pub filepath: String,
    pub summary: Option<String>,
    pub tags: Vec<String>,
    pub publish: bool,
    pub date_created: DateTime,
    pub date_created_timestamp: i64,
    pub date_updated: DateTime,
    pub date_updated_timestamp: i64,
    pub template: String,
    pub in_sitemap: bool,
}

/// The mathematical value of a `Frontmatter`.
#[verifier::ext_equal]
pub struct FrontmatterView {
    pub title: Seq<char>,
    pub filepath: Seq<char>,
    pub summary: Option<Seq<char>>,
    pub tags: Seq<Seq<char>>,
    pub publish: bool,
    pub date_created: DateTime,
    pub date_created_timestamp: int,
    pub date_updated: DateTime,
    pub date_updated_timestamp: int,
    pub template: Seq<char>,
    pub in_sitemap: bool,
}

impl View for Frontmatter {
    type V = FrontmatterView;

    open spec fn view(&self) -> FrontmatterView {
        FrontmatterView {
            title: self.title@,
            filepath: self.filepath@,
            summary: match self.summary {
                Some(s) => Some(s@),
                None => None,
            },
            tags: self.tags@.map_values(|t: String| t@),
            publish: self.publish,
            date_created: self.date_created,
            date_created_timestamp: self.date_created_timestamp as int,
            date_updated: self.date_updated,
            date_updated_timestamp: self.date_updated_timestamp as int,
            template: self.template@,
            in_sitemap: self.in_sitemap,
        }
    }
}

/// Valid dates, and each timestamp derived from its datetime.
pub open spec fn fm_wf(fm: FrontmatterView) -> bool {
    &&& fm.date_created.wf()
    &&& fm.date_updated.wf()
    &&& fm.date_created_timestamp == spec_timestamp(fm.date_created)
    &&& fm.date_updated_timestamp == spec_timestamp(fm.date_updated)
}

/// The name part of a path: everything after the last separator.
pub open spec fn spec_file_name(p: Seq<char>) -> Seq<char> {
    match spec_rfind_char(p, '/') {
        Some(i) => p.subrange(i + 1, p.len() as int),
        None => p,
    }
}

/// The file name without its last extension; a name whose only dot leads it
/// is kept whole.
pub open spec fn spec_file_stem(p: Seq<char>) -> Seq<char> {
    let name = spec_file_name(p);
    match spec_rfind_char(name, '.') {
        Some(i) => if i > 0 {
            name.subrange(0, i)
        } else {
            name
        },
        None => name,
    }
}

/// Computes the file stem of a path.
pub fn file_stem(p: &str) -> (r: String)
    ensures
        r@ == spec_file_stem(p@),
{
    let name = match rfind_char(p, '/') {
        Some(i) => {
            let len = p.unicode_len();
            crate::strutil::substring(p, i + 1, len)
        },
        None => p.to_owned(),
    };
    match rfind_char(name.as_str(), '.') {
        Some(i) => {
            if i > 0 {
                crate::strutil::substring(name.as_str(), 0, i)
            } else {
                name
            }
        },
        None => name,
    }
}

/// The tag list a `tags` value yields: comma-split, each token trimmed,
/// empty tokens dropped, order and duplicates kept.
pub open spec fn spec_parse_tags(rhs: Seq<char>) -> Seq<Seq<char>> {
    spec_split_char(rhs, ',').map_values(|t: Seq<char>| spec_trim(t)).filter(
        |t: Seq<char>| t.len() > 0,
    )
}

/// Splits a `tags` value into its tag list.
pub fn parse_tags(rhs: &str) -> (r: Vec<String>)
    ensures
        r@.map_values(|t: String| t@) == spec_parse_tags(rhs@),
{
    let parts = split_char(rhs, ',');
    let ghost pviews = parts@.map_values(|p: String| p@).map_values(|t: Seq<char>| spec_trim(t));
    let ghost ne = |t: Seq<char>| t.len() > 0;
    let mut out: Vec<String> = Vec::new();
    let mut i: usize = 0;
    proof {
        reveal(Seq::filter);
        assert(pviews.take(0) =~= Seq::<Seq<char>>::empty());
        assert(out@.map_values(|t: String| t@) =~= pviews.take(0).filter(ne));
    }
    while i < parts.len()
        invariant
            0 <= i <= parts@.len(),
            pviews == parts@.map_values(|p: String| p@).map_values(|t: Seq<char>| spec_trim(t)),
            ne == (|t: Seq<char>| t.len() > 0),
            out@.map_values(|t: String| t@) =~= pviews.take(i as int).filter(ne),
        decreases parts@.len() - i,
    {
        let ghost prev = out@.map_values(|t: String| t@);
        let t = trim_str(parts[i].as_str());
        proof {
            reveal(Seq::filter);
            assert(pviews[i as int] == t@);
            assert(pviews.take(i + 1) =~= pviews.take(i as int).push(t@));
            assert(pviews.take(i + 1).drop_last() =~= pviews.take(i as int));
        }
        if t.as_str().unicode_len() > 0 {
            out.push(t);
            proof {
                assert(out@.map_values(|q: String| q@) =~= prev.push(out@.last()@));
            }
        }
        i = i + 1;
    }
    proof {
        assert(pviews.take(parts@.len() as int) =~= pviews);
    }
    out
}

/// What one `key: value` line does to a frontmatter: the recognized keys
/// replace their field, a date that fails to parse changes nothing,
/// unrecognized keys and lines without a colon change nothing.
pub open spec fn spec_apply_line(fm: FrontmatterView, line: Seq<char>) -> FrontmatterView {
    match spec_split_once(line, ':') {
        None => fm,
        Some((k, v)) => {
            let key = spec_trim(k);
            let val = spec_trim(v);
            if key == "title"@ {
                FrontmatterView { title: val, ..fm }
            } else if key == "date_created"@ {
                match spec_match_dates(val) {
                    Some(d) => FrontmatterView {
                        date_created: d,
                        date_created_timestamp: spec_timestamp(d),
                        ..fm
                    },
                    None => fm,
                }
            } else if key == "date_updated"@ {
                match spec_match_dates(val) {
                    Some(d) => FrontmatterView {
                        date_updated: d,
                        date_updated_timestamp: spec_timestamp(d),
                        ..fm
                    },
                    None => fm,
                }
            } else if key == "summary"@ {
                FrontmatterView { summary: Some(val), ..fm }
            } else if key == "template"@ {
                FrontmatterView { template: val, ..fm }
            } else if key == "publish"@ {
                FrontmatterView { publish: val != "false"@, ..fm }
            } else if key == "tag"@ || key == "tags"@ {
                FrontmatterView { tags: spec_parse_tags(val), ..fm }
            } else {
                fm
            }
        },
    }
}

/// Whether a line is a `date_created` entry whose value no format accepts.
pub open spec fn spec_line_bad_created(line: Seq<char>) -> bool {
    match spec_split_once(line, ':') {
        None => false,
        Some((k, v)) => spec_trim(k) == "date_created"@ && spec_match_dates(spec_trim(v)) is None,
    }
}

/// Whether a line is a `date_updated` entry whose value no format accepts.
pub open spec fn spec_line_bad_updated(line: Seq<char>) -> bool {
    match spec_split_once(line, ':') {
        None => false,
        Some((k, v)) => spec_trim(k) == "date_updated"@ && spec_match_dates(spec_trim(v)) is None,
    }
}

/// The recorded `date_created` error paths of a site, as sequences.
pub open spec fn errs_created_v(site: Site) -> Seq<Seq<char>> {
    site.errors.invalid_date_created@.map_values(|s: String| s@)
}

/// The recorded `date_updated` error paths of a site, as sequences.
pub open spec fn errs_updated_v(site: Site) -> Seq<Seq<char>> {
    site.errors.invalid_date_updated@.map_values(|s: String| s@)
}

/// The frontmatter fields applied line by line, left to right.
pub open spec fn spec_apply_lines(fm: FrontmatterView, ls: Seq<Seq<char>>) -> FrontmatterView
    decreases ls.len(),
{
    if ls.len() == 0 {
        fm
    } else {
        spec_apply_lines(spec_apply_line(fm, ls[0]), ls.drop_first())
    }
}

proof fn lemma_apply_lines_push(fm: FrontmatterView, ls: Seq<Seq<char>>, x: Seq<char>)
    ensures
        spec_apply_lines(fm, ls.push(x)) == spec_apply_line(spec_apply_lines(fm, ls), x),
    decreases ls.len(),
{
    let p = ls.push(x);
    if ls.len() == 0 {
        assert(p.drop_first() =~= Seq::<Seq<char>>::empty());
        assert(p[0] == x);
        assert(spec_apply_lines(fm, p) == spec_apply_lines(
            spec_apply_line(fm, x),
            p.drop_first(),
        ));
        assert(spec_apply_lines(spec_apply_line(fm, x), p.drop_first()) == spec_apply_line(
            fm,
            x,
        ));
        assert(spec_apply_lines(fm, ls) == fm);
    } else {
        lemma_apply_lines_push(spec_apply_line(fm, ls[0]), ls.drop_first(), x);
        assert(p.drop_first() =~= ls.drop_first().push(x));
        assert(p[0] == ls[0]);
        assert(spec_apply_lines(fm, p) == spec_apply_lines(
            spec_apply_line(fm, ls[0]),
            p.drop_first(),
        ));
    }
}

/// How many of the lines are date entries whose value no format accepts.
pub open spec fn spec_count_bad(ls: Seq<Seq<char>>, updated: bool) -> nat
    decreases ls.len(),
{
    if ls.len() == 0 {
        0
    } else {
        (if (updated && spec_line_bad_updated(ls[0])) || (!updated && spec_line_bad_created(
            ls[0],
        )) {
            1nat
        } else {
            0nat
        }) + spec_count_bad(ls.drop_first(), updated)
    }
}

proof fn lemma_count_bad_push(ls: Seq<Seq<char>>, x: Seq<char>, updated: bool)
    ensures
        spec_count_bad(ls.push(x), updated) == spec_count_bad(ls, updated) + (if (updated
            && spec_line_bad_updated(x)) || (!updated && spec_line_bad_created(x)) {
            1nat
        } else {
            0nat
        }),
    decreases ls.len(),
{
    let p = ls.push(x);
    if ls.len() == 0 {
        assert(p.drop_first() =~= Seq::<Seq<char>>::empty());
        assert(p[0] == x);
        assert(spec_count_bad(p.drop_first(), updated) == 0);
    } else {
        lemma_count_bad_push(ls.drop_first(), x, updated);
        assert(p.drop_first() =~= ls.drop_first().push(x));
        assert(p[0] == ls[0]);
        assert(spec_count_bad(p, updated) == (if (updated && spec_line_bad_updated(p[0])) || (
        !updated && spec_line_bad_created(p[0])) {
            1nat
        } else {
            0nat
        }) + spec_count_bad(p.drop_first(), updated));
    }
}

/// The index of the line closing the frontmatter block: the first delimiter
/// line at or after `i`.
pub open spec fn spec_close_from(lv: Seq<Seq<char>>, i: int) -> Option<int>
    decreases lv.len() - i,
{
    if i < 0 || i >= lv.len() {
        None
    } else if lv[i] == "---"@ {
        Some(i)
    } else {
        spec_close_from(lv, i + 1)
    }
}

/// The lines of the frontmatter block proper: a document whose first line is
/// the delimiter and that closes the block with a second delimiter yields the
/// lines between the two; any other document has no frontmatter.
pub open spec fn spec_fm_block(lv: Seq<Seq<char>>) -> Option<Seq<Seq<char>>> {
    if lv.len() == 0 || lv[0] != "---"@ {
        None
    } else {
        match spec_close_from(lv, 1) {
            Some(j) => Some(lv.subrange(1, j)),
            None => None,
        }
    }
}

/// What parsing a document's lines yields, starting from the defaults `fm0`:
/// the block's entries applied in order, or `None` where the document has no
/// valid frontmatter.
pub open spec fn spec_parse_fm(lv: Seq<Seq<char>>, fm0: FrontmatterView) -> Option<
    FrontmatterView,
> {
    match spec_fm_block(lv) {
        Some(block) => Some(spec_apply_lines(fm0, block)),
        None => None,
    }
}

/// The date errors a document's lines record: none where the document has no
/// valid frontmatter, else one per bad date entry in the block.
pub open spec fn spec_doc_bad(lv: Seq<Seq<char>>, updated: bool) -> nat {
    match spec_fm_block(lv) {
        Some(block) => spec_count_bad(block, updated),
        None => 0,
    }
}

/// The frontmatter before any entry is read: title from the file stem, dates
/// from the filesystem defaults, everything else empty or true.
pub open spec fn spec_default_fm(
    filepath: Seq<char>,
    dc: DateTime,
    du: DateTime,
) -> FrontmatterView {
    FrontmatterView {
        title: spec_file_stem(filepath),
        filepath: filepath,
        summary: None,
        tags: Seq::empty(),
        publish: true,
        date_created: dc,
        date_created_timestamp: spec_timestamp(dc),
        date_updated: du,
        date_updated_timestamp: spec_timestamp(du),
        template: Seq::empty(),
        in_sitemap: true,
    }
}

impl Frontmatter {
    /// Parses a document's leading lines into its frontmatter. A document
    /// whose first line is not the delimiter, or whose block never closes,
    /// has no valid frontmatter and yields `None` with nothing recorded;
    /// otherwise every entry of the block is applied to the defaults, and
    /// each unparsable date entry records an error under `filepath`.
    pub fn new(
        site: &mut Site,
        filepath: String,
        lines: &Vec<String>,
        default_created: DateTime,
        default_updated: DateTime,
    ) -> (r: Option<Frontmatter>)
        requires
            default_created.wf(),
            default_updated.wf(),
        ensures
            ({
                let lv = lines@.map_values(|l: String| l@);
                let fm0 = spec_default_fm(filepath@, default_created, default_updated);
                &&& (match r {
                    Some(fm) => spec_parse_fm(lv, fm0) == Some(fm@) && fm_wf(fm@),
                    None => spec_parse_fm(lv, fm0) is None,
                })
                &&& (lv.len() > 0 && lv[0] != "---"@ ==> r is None)
                &&& errs_created_v(*final(site)) == errs_created_v(*old(site)) + Seq::new(
                    spec_doc_bad(lv, false),
                    (|i: int| filepath@),
                )
                &&& errs_updated_v(*final(site)) == errs_updated_v(*old(site)) + Seq::new(
                    spec_doc_bad(lv, true),
                    (|i: int| filepath@),
                )
                &&& final(site).links == old(site).links
                &&& final(site).dir == old(site).dir
                &&& final(site).dir_build == old(site).dir_build
                &&& final(site).base_url == old(site).base_url
            }),
    {
        let ghost lv = lines@.map_values(|l: String| l@);
        let ghost fpath = filepath@;
        let ghost fm0 = spec_default_fm(filepath@, default_created, default_updated);
        let ghost old_created = errs_created_v(*site);
        let ghost old_updated = errs_updated_v(*site);
        let delim = String::from_str("---");
        if lines.len() == 0 {
            proof {
                assert(old_created + Seq::new(0, (|i: int| fpath)) =~= old_created);
                assert(old_updated + Seq::new(0, (|i: int| fpath)) =~= old_updated);
            }
            return None;
        }
        if !(lines[0] == delim) {
            proof {
                assert(lv[0] == lines@[0]@);
                assert(old_created + Seq::new(0, (|i: int| fpath)) =~= old_created);
                assert(old_updated + Seq::new(0, (|i: int| fpath)) =~= old_updated);
            }
            return None;
        }
        let mut j: usize = 1;
        while j < lines.len() && !(lines[j] == delim)
            invariant
                1 <= j <= lines@.len(),
                lv == lines@.map_values(|l: String| l@),
                delim@ == "---"@,
                spec_close_from(lv, 1) == spec_close_from(lv, j as int),
            decreases lines@.len() - j,
        {
            proof {
                assert(lv[j as int] == lines@[j as int]@);
            }
            j = j + 1;
        }
        if j >= lines.len() {
            proof {
                assert(spec_close_from(lv, j as int) is None);
                assert(old_created + Seq::new(0, (|i: int| fpath)) =~= old_created);
                assert(old_updated + Seq::new(0, (|i: int| fpath)) =~= old_updated);
            }
            return None;
        }
        proof {
            assert(lv[j as int] == lines@[j as int]@);
            assert(spec_close_from(lv, j as int) == Some(j as int));
        }
        let ghost block = lv.subrange(1, j as int);
        let stem = file_stem(filepath.as_str());
        let ts_created = crate::datetime::timestamp(&default_created);
        let ts_updated = crate::datetime::timestamp(&default_updated);
        let mut fm = Frontmatter {
            title: stem,
            filepath,
            summary: None,
            tags: Vec::new(),
            publish: true,
            date_created: default_created,
            date_created_timestamp: ts_created,
            date_updated: default_updated,
            date_updated_timestamp: ts_updated,
            template: String::new(),
            in_sitemap: true,
        };
        proof {
            assert(fm@ =~= fm0);
            assert(block.take(0) =~= Seq::<Seq<char>>::empty());
            assert(old_created + Seq::new(0, (|i: int| fpath)) =~= old_created);
            assert(old_updated + Seq::new(0, (|i: int| fpath)) =~= old_updated);
        }
        let mut i: usize = 1;
        while i < j
            invariant
                1 <= i <= j < lines@.len(),
                lv == lines@.map_values(|l: String| l@),
                block == lv.subrange(1, j as int),
                fm@ == spec_apply_lines(fm0, block.take(i - 1)),
                fm@.filepath == fpath,
                fm_wf(fm@),
                errs_created_v(*site) == old_created + Seq::new(
                    spec_count_bad(block.take(i - 1), false),
                    (|q: int| fpath),
                ),
                errs_updated_v(*site) == old_updated + Seq::new(
                    spec_count_bad(block.take(i - 1), true),
                    (|q: int| fpath),
                ),
                site.links == old(site).links,
                site.dir == old(site).dir,
                site.dir_build == old(site).dir_build,
                site.base_url == old(site).base_url,
            decreases j - i,
        {
            let ghost prefix = block.take(i - 1);
            let ghost pre_created = errs_created_v(*site);
            let ghost pre_updated = errs_updated_v(*site);
            proof {
                assert(block[i - 1] == lv[i as int]);
                assert(lv[i as int] == lines@[i as int]@);
            }
            fm.get_key_value_from_line(lines[i].as_str(), site);
            proof {
                assert(block.take(i as int) =~= prefix.push(block[i - 1]));
                lemma_apply_lines_push(fm0, prefix, block[i - 1]);
                lemma_count_bad_push(prefix, block[i - 1], false);
                lemma_count_bad_push(prefix, block[i - 1], true);
                if spec_line_bad_created(block[i - 1]) {
                    assert(errs_created_v(*site) =~= old_created + Seq::new(
                        spec_count_bad(block.take(i as int), false),
                        (|q: int| fpath),
                    ));
                } else {
                    assert(errs_created_v(*site) =~= pre_created);
                    assert(errs_created_v(*site) =~= old_created + Seq::new(
                        spec_count_bad(block.take(i as int), false),
                        (|q: int| fpath),
                    ));
                }
                if spec_line_bad_updated(block[i - 1]) {
                    assert(errs_updated_v(*site) =~= old_updated + Seq::new(
                        spec_count_bad(block.take(i as int), true),
                        (|q: int| fpath),
                    ));
                } else {
                    assert(errs_updated_v(*site) =~= pre_updated);
                    assert(errs_updated_v(*site) =~= old_updated + Seq::new(
                        spec_count_bad(block.take(i as int), true),
                        (|q: int| fpath),
                    ));
                }
            }
            i = i + 1;
        }
        proof {
            assert(block.take(j - 1) =~= block);
        }
        Some(fm)
    }

    /// Reads one `key: value` line into this frontmatter. An unparsable date
    /// value leaves the previous date and records an error under this file's
    /// path; everything else in the site is untouched.
    pub fn get_key_value_from_line(&mut self, line: &str, site: &mut Site)
        requires
            fm_wf(old(self)@),
        ensures
            final(self)@ == spec_apply_line(old(self)@, line@),
            fm_wf(final(self)@),
            errs_created_v(*final(site)) == errs_created_v(*old(site)) + (if spec_line_bad_created(
                line@,
            ) {
                seq![old(self)@.filepath]
            } else {
                Seq::empty()
            }),
            errs_updated_v(*final(site)) == errs_updated_v(*old(site)) + (if spec_line_bad_updated(
                line@,
            ) {
                seq![old(self)@.filepath]
            } else {
                Seq::empty()
            }),
            final(site).links == old(site).links,
            final(site).dir == old(site).dir,
            final(site).dir_build == old(site).dir_build,
            final(site).base_url == old(site).base_url,
    {
        let ghost old_created = errs_created_v(*site);
        let ghost old_updated = errs_updated_v(*site);
        match split_once_char(line, ':') {
            None => {
                proof {
                    assert(errs_created_v(*site) =~= old_created + Seq::<Seq<char>>::empty());
                    assert(errs_updated_v(*site) =~= old_updated + Seq::<Seq<char>>::empty());
                }
            },
            Some(kv) => {
                let (k, v) = kv;
                let key = trim_str(k.as_str());
                let val = trim_str(v.as_str());
                if key == String::from_str("title") {
                    self.title = val;
                } else if key == String::from_str("date_created") {
                    match match_possible_dates(val.as_str()) {
                        Some(d) => {
                            self.date_created = d;
                            self.date_created_timestamp = timestamp(&d);
                        },
                        None => {
                            site.errors.add_invalid_date_created(self.filepath.clone());
                        },
                    }
                } else if key == String::from_str("date_updated") {
                    match match_possible_dates(val.as_str()) {
                        Some(d) => {
                            self.date_updated = d;
                            self.date_updated_timestamp = timestamp(&d);
                        },
                        None => {
                            site.errors.add_invalid_date_updated(self.filepath.clone());
                        },
                    }
                } else if key == String::from_str("summary") {
                    self.summary = Some(val);
                } else if key == String::from_str("template") {
                    self.template = val;
                } else if key == String::from_str("publish") {
                    self.publish = !(val == String::from_str("false"));
                } else if key == String::from_str("tag") || key == String::from_str("tags") {
                    self.tags = parse_tags(val.as_str());
                }
                proof {
                    reveal_strlit("title");
                    reveal_strlit("date_created");
                    reveal_strlit("date_updated");
                    reveal_strlit("summary");
                    reveal_strlit("template");
                    reveal_strlit("publish");
                    reveal_strlit("tag");
                    reveal_strlit("tags");
                    reveal_strlit("false");
                    // The revealed literals decide which spec branch each
                    // exec branch corresponds to; the solver needs their
                    // lengths and one differing index stated.
                    assert("date_created"@[5] == 'c');
                    assert("date_updated"@[5] == 'u');
                    assert("date_created"@ != "date_updated"@);
                    assert("title"@.len() == 5);
                    assert("date_created"@.len() == 12);
                    assert("date_updated"@.len() == 12);
                    assert("summary"@.len() == 7);
                    assert("template"@.len() == 8);
                    assert("publish"@.len() == 7);
                    assert("tag"@.len() == 3);
                    assert("tags"@.len() == 4);
                    if spec_line_bad_created(line@) {
                        assert(errs_created_v(*site) =~= old_created.push(self@.filepath));
                        assert(old_created.push(self@.filepath) =~= old_created + seq![
                            self@.filepath,
                        ]);
                    } else {
                        assert(errs_created_v(*site) =~= old_created + Seq::<Seq<char>>::empty());
                    }
                    if spec_line_bad_updated(line@) {
                        assert(errs_updated_v(*site) =~= old_updated.push(self@.filepath));
                        assert(old_updated.push(self@.filepath) =~= old_updated + seq![
                            self@.filepath,
                        ]);
                    } else {
                        assert(errs_updated_v(*site) =~= old_updated + Seq::<Seq<char>>::empty());
                    }
                }
            },
        }
    }

    /// `date_updated` written as `YYYY-MM-DD HH:MM`.
    pub fn date_modified_str(&self) -> (r: String)
        requires
            fm_wf(self@),
        ensures
            r@ == spec_format_ymd_hm(self@.date_updated),
    {
        format_ymd_hm(&self.date_updated)
    }

    /// The path of the file this frontmatter was read from.
    pub fn get_filepath_as_str(&self) -> (r: String)
        ensures
            r@ == self@.filepath,
    {
        self.filepath.clone()
    }
}

} // verus!
