//! One markdown document: its computed paths and canonical URL, its body,
//! its rendered HTML, its recorded outbound links and resolved backlinks.
use crate::frontmatter::{fm_wf, spec_close_from, Frontmatter, FrontmatterView};
use crate::link::{
    collect_links, links_view, md_events_of, parse_events, render_html, html_of, spec_collect_links,
    Link, LinkView,
};
use crate::site::{spec_with_prefix, Site};
use crate::strutil::{join_lines, spec_join_lines, spec_rfind_char, rfind_char, spec_starts_with};
use vstd::prelude::*;
use vstd::string::*;

verus! {

/// The slug that `slugify::slugify` derives from a name with no stop words,
/// a `-` separator and no length cap.
pub uninterp spec fn slug_of(s: Seq<char>) -> Seq<char>;

/// Relies on slugify::slugify: the slug depends on the input string alone.
#[verifier::external_body]
fn slugify_str(s: &str) -> (r: String)
    ensures
        r@ == slug_of(s@),
{
    slugify::slugify(s, "", "-", None)
}

/// One markdown document of the site.
#[derive(Debug, Clone)]
pub struct MdFile {
    pub raw: String,
    pub html: String,
    pub path: String,
    pub web_path_parents: String,
    pub web_path: String,
    pub out_path: String,
    pub frontmatter: Frontmatter,
    pub full_url: String,
    /// A `_index` document aggregates its directory and renders with the
    /// section context instead of the page context.
    pub is_section: bool,
    pub backlinks: Vec<Link>,
}

/// The mathematical value of an `MdFile`.
#[verifier::ext_equal]
pub struct MdFileView {
    pub raw: Seq<char>,
    pub html: Seq<char>,
    pub path: Seq<char>,
    pub web_path_parents: Seq<char>,
    pub web_path: Seq<char>,
    pub out_path: Seq<char>,
    pub frontmatter: FrontmatterView,
    pub full_url: Seq<char>,
    pub is_section: bool,
    pub backlinks: Seq<LinkView>,
}

impl View for MdFile {
    type V = MdFileView;

    open spec fn view(&self) -> MdFileView {
        MdFileView {
            raw: self.raw@,
            html: self.html@,
            path: self.path@,
            web_path_parents: self.web_path_parents@,
            web_path: self.web_path@,
            out_path: self.out_path@,
            frontmatter: self.frontmatter@,
            full_url: self.full_url@,
            is_section: self.is_section,
            backlinks: links_view(self.backlinks@),
        }
    }
}

/// `p` with leading separator characters removed.
pub open spec fn spec_drop_slashes(p: Seq<char>) -> Seq<char>
    decreases p.len(),
{
    if p.len() > 0 && p[0] == '/' {
        spec_drop_slashes(p.drop_first())
    } else {
        p
    }
}

/// The path relative to `dir`: the prefix and the separators after it gone.
pub open spec fn spec_rel_path(p: Seq<char>, dir: Seq<char>) -> Seq<char> {
    spec_drop_slashes(p.subrange(dir.len() as int, p.len() as int))
}

/// The directory part of a relative path: empty when it has no separator.
pub open spec fn spec_parent_dir(rel: Seq<char>) -> Seq<char> {
    match spec_rfind_char(rel, '/') {
        Some(i) => rel.subrange(0, i),
        None => Seq::empty(),
    }
}

proof fn lemma_drop_slashes_at(p: Seq<char>, i: int)
    requires
        0 <= i <= p.len(),
        forall|k: int| 0 <= k < i ==> p[k] == '/',
        i < p.len() ==> p[i] != '/',
    ensures
        spec_drop_slashes(p) =~= p.subrange(i, p.len() as int),
    decreases i,
{
    if i == 0 {
        if p.len() > 0 && p[0] == '/' {
        } else {
            assert(p.subrange(0, p.len() as int) =~= p);
        }
    } else {
        let t = p.drop_first();
        assert(forall|k: int| 0 <= k < i - 1 ==> t[k] == p[k + 1]);
        lemma_drop_slashes_at(t, i - 1);
    }
}

/// Removes leading separator characters.
fn drop_slashes(p: &str) -> (r: String)
    ensures
        r@ == spec_drop_slashes(p@),
{
    let len = p.unicode_len();
    let mut i: usize = 0;
    while i < len && p.get_char(i) == '/'
        invariant
            0 <= i <= len,
            len == p@.len(),
            forall|k: int| 0 <= k < i ==> p@[k] == '/',
        decreases len - i,
    {
        i = i + 1;
    }
    proof {
        lemma_drop_slashes_at(p@, i as int);
    }
    crate::strutil::substring(p, i, len)
}

/// The document's site-relative output path: its parent directory joined to
/// its slugged name with the `html` extension.
pub open spec fn spec_url_path(parents: Seq<char>, web_path: Seq<char>) -> Seq<char> {
    if parents.len() == 0 {
        web_path
    } else {
        parents + seq!['/'] + web_path
    }
}

impl MdFile {
    /// Builds a document record: the output path, the site-relative path and
    /// the canonical URL all derive from the source path, the site roots and
    /// the slugged file stem; the body is the document's lines with the
    /// frontmatter block stripped; the HTML and the backlinks start empty.
    pub fn new(site: &Site, lines: &Vec<String>, path: String, fm: Frontmatter) -> (r: MdFile)
        requires
            spec_starts_with(path@, site.dir@),
        ensures
            r@.path == path@,
            r@.frontmatter == fm@,
            r@.html =~= Seq::<char>::empty(),
            r@.backlinks =~= Seq::<LinkView>::empty(),
            r@.web_path_parents == spec_parent_dir(spec_rel_path(path@, site.dir@)),
            r@.web_path == slug_of(crate::frontmatter::spec_file_stem(path@)) + ".html"@,
            r@.out_path == spec_with_prefix(
                site.dir_build@,
                spec_url_path(r@.web_path_parents, r@.web_path),
            ),
            r@.full_url == spec_with_prefix(
                site.base_url@,
                spec_url_path(r@.web_path_parents, r@.web_path),
            ),
            r@.is_section == (crate::frontmatter::spec_file_stem(path@) =~= "_index"@),
            r@.raw == spec_join_lines(spec_strip_fm(lines@.map_values(|l: String| l@))),
    {
        let plen = path.as_str().unicode_len();
        let dlen = site.dir.as_str().unicode_len();
        let after = crate::strutil::substring(path.as_str(), dlen, plen);
        let rel = drop_slashes(after.as_str());
        let parents = match rfind_char(rel.as_str(), '/') {
            Some(i) => crate::strutil::substring(rel.as_str(), 0, i),
            None => String::new(),
        };
        let stem = crate::frontmatter::file_stem(path.as_str());
        let slug = slugify_str(stem.as_str());
        let web_path = slug.concat(".html");
        let url_path = if parents.as_str().unicode_len() == 0 {
            web_path.clone()
        } else {
            let mut u = parents.clone();
            proof {
                reveal_strlit("/");
            }
            u.append("/");
            u.append(web_path.as_str());
            proof {
                assert(u@ =~= spec_url_path(parents@, web_path@));
            }
            u
        };
        let out_path = {
            let mut o = site.dir_build.clone();
            proof {
                reveal_strlit("/");
            }
            o.append("/");
            o.append(url_path.as_str());
            o
        };
        let full_url = site.build_with_baseurl(url_path.as_str());
        let is_section = stem == String::from_str("_index");
        let raw = strip_frontmatter(lines);
        proof {
            assert(out_path@ =~= spec_with_prefix(
                site.dir_build@,
                spec_url_path(parents@, web_path@),
            ));
        }
        MdFile {
            raw,
            html: String::new(),
            path,
            web_path_parents: parents,
            web_path,
            out_path,
            frontmatter: fm,
            full_url,
            is_section,
            backlinks: Vec::new(),
        }
    }
}

/// The document's body lines: the leading closed frontmatter block — a
/// first line that is the delimiter, through the next delimiter line — is
/// removed, delimiters included; every later line is kept, delimiter lines
/// among them. A document without a leading closed block keeps all its
/// lines; such a document has no valid frontmatter and is excluded from the
/// build.
pub open spec fn spec_strip_fm(lines: Seq<Seq<char>>) -> Seq<Seq<char>> {
    if lines.len() > 0 && lines[0] == "---"@ {
        match spec_close_from(lines, 1) {
            Some(j) => lines.skip(j + 1),
            None => lines,
        }
    } else {
        lines
    }
}

/// Joins the lines outside the leading frontmatter block into the body.
pub fn strip_frontmatter(lines: &Vec<String>) -> (r: String)
    ensures
        r@ == spec_join_lines(spec_strip_fm(lines@.map_values(|l: String| l@))),
{
    let ghost lv = lines@.map_values(|l: String| l@);
    let delim = String::from_str("---");
    let mut start: usize = 0;
    if lines.len() > 0 && lines[0] == delim {
        let mut j: usize = 1;
        while j < lines.len() && !(lines[j] == delim)
            invariant
                1 <= j <= lines@.len(),
                lv == lines@.map_values(|l: String| l@),
                delim@ == "---"@,
                spec_close_from(lv, 1) == spec_close_from(lv, j as int),
            decreases lines@.len() - j,
        {
            proof {
                assert(lv[j as int] == lines@[j as int]@);
            }
            j = j + 1;
        }
        if j < lines.len() {
            proof {
                assert(lv[j as int] == lines@[j as int]@);
                assert(spec_close_from(lv, j as int) == Some(j as int));
            }
            start = j + 1;
        } else {
            proof {
                assert(spec_close_from(lv, j as int) is None);
            }
        }
    } else {
        proof {
            if lines@.len() > 0 {
                assert(lv[0] == lines@[0]@);
            }
        }
    }
    let mut out: Vec<String> = Vec::new();
    let mut i: usize = start;
    while i < lines.len()
        invariant
            start <= i <= lines@.len(),
            lv == lines@.map_values(|l: String| l@),
            out@.map_values(|l: String| l@) =~= lv.subrange(start as int, i as int),
        decreases lines@.len() - i,
    {
        let ghost prev = out@.map_values(|l: String| l@);
        out.push(lines[i].clone());
        proof {
            assert(out@.map_values(|l: String| l@) =~= prev.push(out@.last()@));
            assert(lv.subrange(start as int, i + 1) =~= lv.subrange(start as int, i as int).push(
                lv[i as int],
            ));
        }
        i = i + 1;
    }
    proof {
        assert(lv.subrange(start as int, lv.len() as int) =~= lv.skip(start as int));
        assert(lv.skip(0) =~= lv);
        assert(out@.map_values(|l: String| l@) =~= spec_strip_fm(lv));
    }
    join_lines(&out)
}

/// The backlinks of the document at `url` in a registry: the links whose
/// destination is `url` and whose origin is another document, first
/// occurrences only, in registry order.
pub open spec fn spec_backlinks(reg: Seq<LinkView>, url: Seq<char>) -> Seq<LinkView>
    decreases reg.len(),
{
    if reg.len() == 0 {
        Seq::empty()
    } else {
        let prefix = spec_backlinks(reg.drop_last(), url);
        let l = reg.last();
        if l.url == url && l.origin_url != url && !prefix.contains(l) {
            prefix.push(l)
        } else {
            prefix
        }
    }
}

impl MdFile {
    /// Transforms the body: the HTML is the serialized, link-rewritten
    /// markdown, and every hyperlink the body records is appended to the
    /// site's registry in discovery order. Nothing else in the site or the
    /// document moves; backlinks are resolved only after every document has
    /// passed through here.
    pub fn collect_metadata(&mut self, site: &mut Site)
        ensures
            final(self)@ == (MdFileView { html: html_of(
                old(self)@.raw,
                old(site).base_url@,
                old(self)@.web_path_parents,
            ), ..old(self)@ }),
            final(site).links_v() == old(site).links_v() + spec_collect_links(
                md_events_of(old(self)@.raw),
                old(self)@.full_url,
                old(self)@.frontmatter.title,
                old(site).base_url@,
                old(self)@.web_path_parents,
            ),
            final(site).dir == old(site).dir,
            final(site).dir_build == old(site).dir_build,
            final(site).base_url == old(site).base_url,
            final(site).errors.invalid_date_created == old(site).errors.invalid_date_created,
            final(site).errors.invalid_date_updated == old(site).errors.invalid_date_updated,
    {
        let html = render_html(
            self.raw.as_str(),
            site.base_url.as_str(),
            self.web_path_parents.as_str(),
        );
        let events = parse_events(self.raw.as_str());
        let found = collect_links(
            &events,
            self.full_url.as_str(),
            self.frontmatter.title.as_str(),
            site.base_url.as_str(),
            self.web_path_parents.as_str(),
        );
        let ghost collected = links_view(found@);
        let ghost pre = site.links_v();
        let mut k: usize = 0;
        while k < found.len()
            invariant
                0 <= k <= found@.len(),
                collected == links_view(found@),
                site.links_v() =~= pre + collected.take(k as int),
                site.dir == old(site).dir,
                site.dir_build == old(site).dir_build,
                site.base_url == old(site).base_url,
                site.errors.invalid_date_created == old(site).errors.invalid_date_created,
                site.errors.invalid_date_updated == old(site).errors.invalid_date_updated,
            decreases found@.len() - k,
        {
            let ghost prev = site.links_v();
            site.add_link(found[k].duplicate());
            proof {
                assert(site.links_v() =~= prev.push(site.links@.last()@));
                assert(collected.take(k + 1) =~= collected.take(k as int).push(
                    collected[k as int],
                ));
            }
            k = k + 1;
        }
        self.html = html;
        proof {
            assert(collected.take(found@.len() as int) =~= collected);
            assert(final(self)@ =~= (MdFileView { html: html_of(
                old(self)@.raw,
                old(site).base_url@,
                old(self)@.web_path_parents,
            ), ..old(self)@ }));
        }
    }

    /// Resolves this document's backlinks from the frozen registry: the
    /// deduplicated links pointing at this document from other documents, in
    /// registry order. Only the backlinks field moves.
    pub fn get_backlinks_for_file(&mut self, site: &Site)
        ensures
            final(self)@ == (MdFileView { backlinks: spec_backlinks(
                site.links_v(),
                old(self)@.full_url,
            ), ..old(self)@ }),
    {
        let ghost reg = site.links_v();
        let mut out: Vec<Link> = Vec::new();
        let mut i: usize = 0;
        proof {
            assert(reg.take(0) =~= Seq::<LinkView>::empty());
        }
        while i < site.links.len()
            invariant
                0 <= i <= site.links@.len(),
                reg == site.links_v(),
                links_view(out@) =~= spec_backlinks(reg.take(i as int), old(self)@.full_url),
                self == old(self),
            decreases site.links@.len() - i,
        {
            let ghost prev = links_view(out@);
            proof {
                assert(reg.take(i + 1).drop_last() =~= reg.take(i as int));
                assert(reg.take(i + 1).last() == reg[i as int]);
            }
            let g = &site.links[i];
            if g.url == self.full_url && !(self.full_url == g.originating_file_url) {
                let mut dup = false;
                let mut j: usize = 0;
                while j < out.len()
                    invariant
                        0 <= j <= out@.len(),
                        prev == links_view(out@),
                        dup == exists|q: int| 0 <= q < j && prev[q] == g@,
                        g == &site.links@[i as int],
                        0 <= i < site.links@.len(),
                    decreases out@.len() - j,
                {
                    if out[j].same_as(g) {
                        proof {
                            assert(prev[j as int] == g@);
                        }
                        dup = true;
                    }
                    j = j + 1;
                }
                if !dup {
                    out.push(g.duplicate());
                    proof {
                        assert(links_view(out@) =~= prev.push(g@));
                        assert(!prev.contains(g@));
                    }
                } else {
                    proof {
                        assert(prev.contains(g@));
                    }
                }
            }
            i = i + 1;
        }
        proof {
            assert(reg.take(site.links@.len() as int) =~= reg);
        }
        self.backlinks = out;
        proof {
            assert(final(self)@ =~= (MdFileView { backlinks: spec_backlinks(
                reg,
                old(self)@.full_url,
            ), ..old(self)@ }));
        }
    }
}

/// A page's serialized summary, the unit handed to the rendering service:
/// title, URL, dates, tags, summary text and backlinks.
#[derive(Debug)]
pub struct PageSummary {
    pub title: String,
    pub url: String,
    pub summary: Option<String>,
    pub tags: Vec<String>,
    pub date_created: crate::datetime::DateTime,
    pub date_updated: crate::datetime::DateTime,
    pub date_created_timestamp: i64,
    pub date_updated_timestamp: i64,
    pub date_updated_str: String,
    pub backlinks: Vec<Link>,
}

/// The mathematical value of a `PageSummary`.
#[verifier::ext_equal]
pub struct PageSummaryView {
    pub title: Seq<char>,
    pub url: Seq<char>,
    pub summary: Option<Seq<char>>,
    pub tags: Seq<Seq<char>>,
    pub date_created: crate::datetime::DateTime,
    pub date_updated: crate::datetime::DateTime,
    pub date_created_timestamp: int,
    pub date_updated_timestamp: int,
    pub date_updated_str: Seq<char>,
    pub backlinks: Seq<LinkView>,
}

impl View for PageSummary {
    type V = PageSummaryView;

    open spec fn view(&self) -> PageSummaryView {
        PageSummaryView {
            title: self.title@,
            url: self.url@,
            summary: match self.summary {
                Some(ref s) => Some(s@),
                None => None,
            },
            tags: self.tags@.map_values(|t: String| t@),
            date_created: self.date_created,
            date_updated: self.date_updated,
            date_created_timestamp: self.date_created_timestamp as int,
            date_updated_timestamp: self.date_updated_timestamp as int,
            date_updated_str: self.date_updated_str@,
            backlinks: links_view(self.backlinks@),
        }
    }
}

/// The summary a document serializes to.
pub open spec fn spec_summary_of(m: MdFileView) -> PageSummaryView {
    PageSummaryView {
        title: m.frontmatter.title,
        url: m.full_url,
        summary: m.frontmatter.summary,
        tags: m.frontmatter.tags,
        date_created: m.frontmatter.date_created,
        date_updated: m.frontmatter.date_updated,
        date_created_timestamp: m.frontmatter.date_created_timestamp,
        date_updated_timestamp: m.frontmatter.date_updated_timestamp,
        date_updated_str: crate::datetime::spec_format_ymd_hm(m.frontmatter.date_updated),
        backlinks: m.backlinks,
    }
}

fn clone_strings(v: &Vec<String>) -> (r: Vec<String>)
    ensures
        r@.map_values(|t: String| t@) == v@.map_values(|t: String| t@),
{
    let mut out: Vec<String> = Vec::new();
    let mut i: usize = 0;
    while i < v.len()
        invariant
            0 <= i <= v@.len(),
            out@.map_values(|t: String| t@) =~= v@.map_values(|t: String| t@).take(i as int),
        decreases v@.len() - i,
    {
        let ghost prev = out@.map_values(|t: String| t@);
        out.push(v[i].clone());
        proof {
            let m = v@.map_values(|t: String| t@);
            assert(out@.map_values(|t: String| t@) =~= prev.push(out@.last()@));
            assert(m.take(i + 1) =~= m.take(i as int).push(m[i as int]));
        }
        i = i + 1;
    }
    proof {
        assert(v@.map_values(|t: String| t@).take(v@.len() as int) =~= v@.map_values(
            |t: String| t@,
        ));
    }
    out
}

fn clone_links(v: &Vec<Link>) -> (r: Vec<Link>)
    ensures
        links_view(r@) == links_view(v@),
{
    let mut out: Vec<Link> = Vec::new();
    let mut i: usize = 0;
    while i < v.len()
        invariant
            0 <= i <= v@.len(),
            links_view(out@) =~= links_view(v@).take(i as int),
        decreases v@.len() - i,
    {
        let ghost prev = links_view(out@);
        out.push(v[i].duplicate());
        proof {
            assert(links_view(out@) =~= prev.push(out@.last()@));
            assert(links_view(v@).take(i + 1) =~= links_view(v@).take(i as int).push(
                links_view(v@)[i as int],
            ));
        }
        i = i + 1;
    }
    proof {
        assert(links_view(v@).take(v@.len() as int) =~= links_view(v@));
    }
    out
}

/// The non-section documents of a group, in group order.
pub open spec fn spec_section_docs(group: Seq<MdFileView>) -> Seq<MdFileView> {
    group.filter(|m: MdFileView| !m.is_section)
}

/// The sibling summaries a section renders: the non-section documents of a
/// group, each serialized, in group order.
pub open spec fn spec_section_pages(group: Seq<MdFileView>) -> Seq<PageSummaryView> {
    spec_section_docs(group).map_values(|m: MdFileView| spec_summary_of(m))
}

/// The name the rendering service is asked for: the frontmatter's template,
/// or the site default where none is set.
pub open spec fn spec_resolve_template(requested: Seq<char>, default_name: Seq<char>) -> Seq<
    char,
> {
    if requested.len() == 0 {
        default_name
    } else {
        requested
    }
}

/// Resolves the template name for a document.
pub fn resolve_template_name(requested: &str, default_name: &str) -> (r: String)
    ensures
        r@ == spec_resolve_template(requested@, default_name@),
{
    if requested.unicode_len() == 0 {
        default_name.to_owned()
    } else {
        requested.to_owned()
    }
}

impl MdFile {
    /// Serializes this document as a summary.
    pub fn page_summary(&self) -> (r: PageSummary)
        requires
            fm_wf(self@.frontmatter),
        ensures
            r@ == spec_summary_of(self@),
    {
        let r = PageSummary {
            title: self.frontmatter.title.clone(),
            url: self.full_url.clone(),
            summary: match &self.frontmatter.summary {
                Some(s) => Some(s.clone()),
                None => None,
            },
            tags: clone_strings(&self.frontmatter.tags),
            date_created: self.frontmatter.date_created,
            date_updated: self.frontmatter.date_updated,
            date_created_timestamp: self.frontmatter.date_created_timestamp,
            date_updated_timestamp: self.frontmatter.date_updated_timestamp,
            date_updated_str: self.frontmatter.date_modified_str(),
            backlinks: clone_links(&self.backlinks),
        };
        proof {
            assert(r@ =~= spec_summary_of(self@));
        }
        r
    }

    /// Gathers the sibling summaries a section document renders: every
    /// non-section document of `group`, serialized, in group order. A
    /// section — this document among them — is never included.
    pub fn section_pages(&self, group: &Vec<MdFile>) -> (r: Vec<PageSummary>)
        requires
            forall|i: int|
                0 <= i < group@.len() ==> fm_wf(#[trigger] group@[i]@.frontmatter),
        ensures
            r@.map_values(|p: PageSummary| p@) == spec_section_pages(
                group@.map_values(|m: MdFile| m@),
            ),
    {
        let ghost gv = group@.map_values(|m: MdFile| m@);
        let ghost pred = |m: MdFileView| !m.is_section;
        let mut out: Vec<PageSummary> = Vec::new();
        let mut i: usize = 0;
        proof {
            reveal(Seq::filter);
            assert(gv.take(0) =~= Seq::<MdFileView>::empty());
            assert(out@.map_values(|p: PageSummary| p@) =~= gv.take(0).filter(pred).map_values(
                |m: MdFileView| spec_summary_of(m),
            ));
        }
        while i < group.len()
            invariant
                0 <= i <= group@.len(),
                gv == group@.map_values(|m: MdFile| m@),
                pred == (|m: MdFileView| !m.is_section),
                forall|q: int|
                    0 <= q < group@.len() ==> fm_wf(#[trigger] group@[q]@.frontmatter),
                out@.map_values(|p: PageSummary| p@) =~= gv.take(i as int).filter(
                    pred,
                ).map_values(|m: MdFileView| spec_summary_of(m)),
            decreases group@.len() - i,
        {
            let ghost prev = out@.map_values(|p: PageSummary| p@);
            proof {
                reveal(Seq::filter);
                assert(gv[i as int] == group@[i as int]@);
                assert(gv.take(i + 1) =~= gv.take(i as int).push(gv[i as int]));
                assert(gv.take(i + 1).drop_last() =~= gv.take(i as int));
            }
            if !group[i].is_section {
                out.push(group[i].page_summary());
                proof {
                    assert(out@.map_values(|p: PageSummary| p@) =~= prev.push(out@.last()@));
                }
            }
            i = i + 1;
        }
        proof {
            assert(gv.take(group@.len() as int) =~= gv);
        }
        out
    }
}

/// Everything the rendering service needs for one document: the resolved
/// template name, the output path, the site base URL, the page summary, and
/// — for a section — the sibling summaries.
#[derive(Debug)]
pub struct RenderPlan {
    pub template_name: String,
    pub out_path: String,
    pub baseurl: String,
    pub page: PageSummary,
    pub pages: Vec<PageSummary>,
    pub is_section: bool,
}

impl MdFile {
    /// Builds the rendering context for this document: a page renders its
    /// own summary; a section additionally carries its sibling summaries.
    /// The template is the frontmatter's, or `default_template` where none
    /// is set.
    pub fn render_plan(&self, site: &Site, group: &Vec<MdFile>, default_template: &str) -> (r:
        RenderPlan)
        requires
            fm_wf(self@.frontmatter),
            forall|i: int|
                0 <= i < group@.len() ==> fm_wf(#[trigger] group@[i]@.frontmatter),
        ensures
            r.template_name@ == spec_resolve_template(
                self@.frontmatter.template,
                default_template@,
            ),
            r.out_path@ == self@.out_path,
            r.baseurl@ == site.base_url@,
            r.page@ == spec_summary_of(self@),
            r.is_section == self@.is_section,
            self@.is_section ==> r.pages@.map_values(|p: PageSummary| p@) == spec_section_pages(
                group@.map_values(|m: MdFile| m@),
            ),
            !self@.is_section ==> r.pages@.len() == 0,
    {
        let pages = if self.is_section {
            self.section_pages(group)
        } else {
            Vec::new()
        };
        RenderPlan {
            template_name: resolve_template_name(
                self.frontmatter.template.as_str(),
                default_template,
            ),
            out_path: self.out_path.clone(),
            baseurl: site.base_url.clone(),
            page: self.page_summary(),
            pages,
            is_section: self.is_section,
        }
    }
}

} // verus!
