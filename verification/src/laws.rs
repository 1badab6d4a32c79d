//! The pipeline's cross-function guarantees, stated and proved once:
//! backlink membership, no self-backlinks, deduplication, stable ordering,
//! rebuild determinism, and the section sibling rules.
use crate::link::{html_of, md_events_of, spec_collect_links, LinkView};
use crate::md_file::{spec_backlinks, spec_section_docs, MdFileView};
use vstd::prelude::*;
use vstd::seq_lib::group_to_multiset_ensures;

verus! {

/// A recorded link to a document from another document is among that
/// document's backlinks.
pub proof fn lemma_backlink_membership(reg: Seq<LinkView>, l: LinkView, url: Seq<char>)
    requires
        reg.contains(l),
        l.url == url,
        l.origin_url != url,
    ensures
        spec_backlinks(reg, url).contains(l),
    decreases reg.len(),
{
    let prefix = spec_backlinks(reg.drop_last(), url);
    if reg.last() == l {
        if prefix.contains(l) {
        } else {
            assert(spec_backlinks(reg, url) == prefix.push(l));
            assert(prefix.push(l)[prefix.len() as int] == l);
        }
    } else {
        let i = choose|i: int| 0 <= i < reg.len() && reg[i] == l;
        assert(reg.drop_last()[i] == l);
        assert(reg.drop_last().contains(l));
        lemma_backlink_membership(reg.drop_last(), l, url);
        let j = choose|j: int| 0 <= j < prefix.len() && prefix[j] == l;
        if spec_backlinks(reg, url) != prefix {
            assert(spec_backlinks(reg, url)[j] == l);
        }
    }
}

/// No document is its own backlink, and every backlink points at the
/// document it is resolved for.
pub proof fn lemma_no_self_backlink(reg: Seq<LinkView>, url: Seq<char>)
    ensures
        forall|i: int|
            0 <= i < spec_backlinks(reg, url).len() ==> (#[trigger] spec_backlinks(reg, url)[i]).url
                == url && spec_backlinks(reg, url)[i].origin_url != url,
    decreases reg.len(),
{
    if reg.len() > 0 {
        lemma_no_self_backlink(reg.drop_last(), url);
    }
}

/// Backlinks are deduplicated: no link appears twice in the resolved list.
pub proof fn lemma_backlinks_distinct(reg: Seq<LinkView>, url: Seq<char>)
    ensures
        forall|i: int, j: int|
            0 <= i < j < spec_backlinks(reg, url).len() ==> #[trigger] spec_backlinks(reg, url)[i]
                != #[trigger] spec_backlinks(reg, url)[j],
    decreases reg.len(),
{
    if reg.len() > 0 {
        lemma_backlinks_distinct(reg.drop_last(), url);
        let prefix = spec_backlinks(reg.drop_last(), url);
        let whole = spec_backlinks(reg, url);
        if whole != prefix {
            assert forall|i: int, j: int| 0 <= i < j < whole.len() implies whole[i]
                != whole[j] by {
                if j == whole.len() - 1 {
                    assert(whole[j] == reg.last());
                    assert(!prefix.contains(reg.last()));
                    assert(whole[i] == prefix[i]);
                }
            }
        }
    }
}

/// Every resolved backlink was recorded in the registry.
pub proof fn lemma_backlinks_subset(reg: Seq<LinkView>, url: Seq<char>)
    ensures
        forall|i: int|
            0 <= i < spec_backlinks(reg, url).len() ==> reg.contains(
                #[trigger] spec_backlinks(reg, url)[i],
            ),
    decreases reg.len(),
{
    if reg.len() > 0 {
        lemma_backlinks_subset(reg.drop_last(), url);
        let prefix = spec_backlinks(reg.drop_last(), url);
        let whole = spec_backlinks(reg, url);
        assert forall|i: int| 0 <= i < whole.len() implies reg.contains(whole[i]) by {
            if i < prefix.len() {
                assert(prefix[i] == whole[i]);
                assert(reg.drop_last().contains(prefix[i]));
                let j = choose|j: int|
                    0 <= j < reg.drop_last().len() && reg.drop_last()[j] == prefix[i];
                assert(reg[j] == whole[i]);
            } else {
                assert(whole[i] == reg.last());
                assert(reg[reg.len() - 1] == reg.last());
            }
        }
    }
}

/// Backlink ordering is stable: appending more links to the registry keeps
/// every already-resolved backlink list as a prefix, in the same order. The
/// list's order is discovery order because `spec_backlinks` folds the
/// registry front to back.
pub proof fn lemma_backlinks_stable(reg: Seq<LinkView>, ext: Seq<LinkView>, url: Seq<char>)
    ensures
        spec_backlinks(reg, url).is_prefix_of(spec_backlinks(reg + ext, url)),
    decreases ext.len(),
{
    if ext.len() == 0 {
        assert(reg + ext =~= reg);
        let b = spec_backlinks(reg, url);
        assert(b =~= b.subrange(0, b.len() as int));
    } else {
        lemma_backlinks_stable(reg, ext.drop_last(), url);
        let shorter = reg + ext.drop_last();
        let longer = reg + ext;
        assert(longer.drop_last() =~= shorter);
        let b = spec_backlinks(reg, url);
        let sb = spec_backlinks(shorter, url);
        let lb = spec_backlinks(longer, url);
        assert(b =~= sb.subrange(0, b.len() as int));
        if lb != sb {
            assert(lb == sb.push(longer.last()));
            assert(b =~= lb.subrange(0, b.len() as int));
        }
    }
}

/// Rebuilding on unchanged input reproduces the build: every stage's output
/// — the serialized HTML, the recorded links, the resolved backlinks — is a
/// function of the document text and the site configuration alone, so equal
/// inputs give byte-identical HTML and an identical backlink set.
pub proof fn lemma_rebuild_identical(
    raw1: Seq<char>,
    raw2: Seq<char>,
    base1: Seq<char>,
    base2: Seq<char>,
    parents1: Seq<char>,
    parents2: Seq<char>,
    url1: Seq<char>,
    url2: Seq<char>,
    title1: Seq<char>,
    title2: Seq<char>,
    reg1: Seq<LinkView>,
    reg2: Seq<LinkView>,
)
    requires
        raw1 == raw2,
        base1 == base2,
        parents1 == parents2,
        url1 == url2,
        title1 == title2,
        reg1 == reg2,
    ensures
        html_of(raw1, base1, parents1) == html_of(raw2, base2, parents2),
        spec_collect_links(md_events_of(raw1), url1, title1, base1, parents1)
            == spec_collect_links(md_events_of(raw2), url2, title2, base2, parents2),
        spec_backlinks(reg1, url1) == spec_backlinks(reg2, url2),
{
}

/// A section document never appears in its own sibling list, and nothing in
/// the sibling list is a section.
pub proof fn lemma_section_excludes_self(group: Seq<MdFileView>, doc: MdFileView)
    requires
        doc.is_section,
    ensures
        !spec_section_docs(group).contains(doc),
        forall|i: int|
            0 <= i < spec_section_docs(group).len() ==> !(#[trigger] spec_section_docs(
                group,
            )[i]).is_section,
{
    let pred = |m: MdFileView| !m.is_section;
    assert forall|i: int| 0 <= i < group.filter(pred).len() implies !(#[trigger] group.filter(
        pred,
    )[i]).is_section by {
        group.lemma_filter_pred(pred, i);
    }
    if group.filter(pred).contains(doc) {
        let i = choose|i: int|
            0 <= i < group.filter(pred).len() && group.filter(pred)[i] == doc;
        group.lemma_filter_pred(pred, i);
    }
}

/// Every non-section sibling appears in the sibling list exactly as often as
/// in the group — once, when the group lists it once — and the list keeps
/// the group's order, since filtering drops elements without reordering.
pub proof fn lemma_section_multiplicity(group: Seq<MdFileView>, m: MdFileView)
    requires
        !m.is_section,
    ensures
        spec_section_docs(group).to_multiset().count(m) == group.to_multiset().count(m),
    decreases group.len(),
{
    broadcast use group_to_multiset_ensures;

    reveal(Seq::filter);
    let pred = |x: MdFileView| !x.is_section;
    if group.len() == 0 {
        assert(group.filter(pred) == group);
    } else {
        let d = group.drop_last();
        let l = group.last();
        lemma_section_multiplicity(d, m);
        assert(group =~= d.push(l));
        assert(group.to_multiset() =~= d.to_multiset().insert(l));
        if pred(l) {
            assert(group.filter(pred) == d.filter(pred).push(l));
            assert(group.filter(pred).to_multiset() =~= d.filter(pred).to_multiset().insert(
                l,
            ));
        } else {
            assert(group.filter(pred) == d.filter(pred));
        }
    }
}

} // verus!
