//! Outbound links: the markdown event stream, destination rewriting to
//! canonical site URLs, and the link-capture state machine.
use crate::strutil::spec_starts_with;
use crate::strutil::starts_with_str;
use pulldown_cmark::{html, Event, Options, Parser, Tag};
use vstd::prelude::*;
use vstd::string::*;

verus! {

/// What a recorded link is: a hyperlink from running text, or an image.
#[derive(Clone, Copy, PartialEq, Eq, Structural, Debug)]
pub enum LinkKind {
    Hyperlink,
    Image,
}

/// One outbound link discovered while transforming a document.
#[derive(Debug, Clone)]
pub struct Link {
    pub kind: LinkKind,
    pub originating_file_url: String,
    pub originating_file_title: String,
    pub url: String,
    pub title: String,
}

/// The mathematical value of a `Link`.
#[verifier::ext_equal]
pub struct LinkView {
    pub kind: LinkKind,
    pub origin_url: Seq<char>,
    pub origin_title: Seq<char>,
    pub url: Seq<char>,
    pub title: Seq<char>,
}

impl View for Link {
    type V = LinkView;

    open spec fn view(&self) -> LinkView {
        LinkView {
            kind: self.kind,
            origin_url: self.originating_file_url@,
            origin_title: self.originating_file_title@,
            url: self.url@,
            title: self.title@,
        }
    }
}

impl Link {
    /// Structural equality, the key used when deduplicating backlinks.
    pub fn same_as(&self, other: &Link) -> (r: bool)
        ensures
            r == (self@ == other@),
    {
        let kind_eq = match (self.kind, other.kind) {
            (LinkKind::Hyperlink, LinkKind::Hyperlink) => true,
            (LinkKind::Image, LinkKind::Image) => true,
            _ => false,
        };
        kind_eq && self.originating_file_url == other.originating_file_url
            && self.originating_file_title == other.originating_file_title && self.url
            == other.url && self.title == other.title
    }

    /// A field-for-field copy.
    pub fn duplicate(&self) -> (r: Link)
        ensures
            r@ == self@,
    {
        Link {
            kind: self.kind,
            originating_file_url: self.originating_file_url.clone(),
            originating_file_title: self.originating_file_title.clone(),
            url: self.url.clone(),
            title: self.title.clone(),
        }
    }
}

/// The views of a sequence of links.
pub open spec fn links_view(links: Seq<Link>) -> Seq<LinkView> {
    links.map_values(|l: Link| l@)
}

/// A destination that already names a site in full is left alone.
pub open spec fn spec_is_external(dest: Seq<char>) -> bool {
    spec_starts_with(dest, "http://"@) || spec_starts_with(dest, "https://"@)
}

/// The canonical form of a link destination: an external destination is kept;
/// a relative one is resolved against the site base URL and the originating
/// document's directory.
pub open spec fn spec_canonical_dest(dest: Seq<char>, base: Seq<char>, parents: Seq<char>) -> Seq<
    char,
> {
    if spec_is_external(dest) {
        dest
    } else if parents.len() == 0 {
        base + seq!['/'] + dest
    } else {
        base + seq!['/'] + parents + seq!['/'] + dest
    }
}

/// Rewrites a destination to its canonical site URL.
pub fn canonicalize_dest(dest: &str, base: &str, parents: &str) -> (r: String)
    ensures
        r@ == spec_canonical_dest(dest@, base@, parents@),
{
    proof {
        reveal_strlit("/");
    }
    if starts_with_str(dest, "http://") || starts_with_str(dest, "https://") {
        dest.to_owned()
    } else if parents.unicode_len() == 0 {
        let mut out = base.to_owned();
        out.append("/");
        out.append(dest);
        proof {
            assert(out@ =~= spec_canonical_dest(dest@, base@, parents@));
        }
        out
    } else {
        let mut out = base.to_owned();
        out.append("/");
        out.append(parents);
        out.append("/");
        out.append(dest);
        proof {
            assert(out@ =~= spec_canonical_dest(dest@, base@, parents@));
        }
        out
    }
}

/// The markdown structural events this pipeline reads: link and image
/// openings with their raw destination, text runs, link closings; everything
/// else is opaque.
pub enum MdEvent {
    LinkStart { dest: String },
    LinkEnd,
    ImageStart { dest: String },
    Text { text: String },
    Other,
}

/// The event sequence that pulldown-cmark's `Parser` (with strikethrough and
/// footnotes enabled) yields for `raw`, each event classified as an `MdEvent`.
pub uninterp spec fn md_events_of(raw: Seq<char>) -> Seq<MdEvent>;

/// Relies on pulldown_cmark's `Parser::new_ext`: the event stream depends on
/// the input text and the enabled extensions alone.
#[verifier::external_body]
pub(crate) fn parse_events(raw: &str) -> (r: Vec<MdEvent>)
    ensures
        r@ == md_events_of(raw@),
{
    let opts = Options::ENABLE_STRIKETHROUGH.union(Options::ENABLE_FOOTNOTES);
    Parser::new_ext(raw, opts).map(|ev| match ev {
        Event::Start(Tag::Link(_, d, _)) => MdEvent::LinkStart { dest: d.to_string() },
        Event::Start(Tag::Image(_, d, _)) => MdEvent::ImageStart { dest: d.to_string() },
        Event::End(Tag::Link(_, _, _)) => MdEvent::LinkEnd,
        Event::Text(t) => MdEvent::Text { text: t.to_string() },
        _ => MdEvent::Other,
    }).collect()
}

/// The HTML that pulldown_cmark's `html::push_html` serializes for `raw`
/// after every link and image destination is rewritten with
/// `canonicalize_dest` against `base` and `parents`.
pub uninterp spec fn html_of(raw: Seq<char>, base: Seq<char>, parents: Seq<char>) -> Seq<char>;

/// Relies on pulldown_cmark's `Parser::new_ext` and `html::push_html`: the
/// serialized HTML depends on the input text, the enabled extensions and the
/// rewritten destinations alone; the rewriting itself is `canonicalize_dest`.
#[verifier::external_body]
pub(crate) fn render_html(raw: &str, base: &str, parents: &str) -> (r: String)
    ensures
        r@ == html_of(raw@, base@, parents@),
{
    let opts = Options::ENABLE_STRIKETHROUGH.union(Options::ENABLE_FOOTNOTES);
    let events = Parser::new_ext(raw, opts).map(|ev| match ev {
        Event::Start(Tag::Link(lt, d, t)) => Event::Start(
            Tag::Link(lt, canonicalize_dest(&d, base, parents).into(), t),
        ),
        Event::Start(Tag::Image(lt, d, t)) => Event::Start(
            Tag::Image(lt, canonicalize_dest(&d, base, parents).into(), t),
        ),
        e => e,
    });
    let mut out = String::new();
    html::push_html(&mut out, events);
    out
}

/// The link-capture state: whether the next text run names the pending link,
/// and the pending link itself.
pub struct LinkState {
    pub capturing: bool,
    pub pending: LinkView,
}

/// The state before any event: not capturing, an empty pending link.
pub open spec fn spec_initial_state(origin_url: Seq<char>, origin_title: Seq<char>) -> LinkState {
    LinkState {
        capturing: false,
        pending: LinkView {
            kind: LinkKind::Hyperlink,
            origin_url: origin_url,
            origin_title: origin_title,
            url: Seq::empty(),
            title: Seq::empty(),
        },
    }
}

/// One step of the link-capture machine: a link opening builds a fresh
/// pending link with the canonical destination and starts capturing; the next
/// text run while capturing becomes the pending link's display title; a link
/// closing records the pending link; images and all other events change
/// nothing.
pub open spec fn spec_step(
    st: LinkState,
    ev: MdEvent,
    origin_url: Seq<char>,
    origin_title: Seq<char>,
    base: Seq<char>,
    parents: Seq<char>,
) -> (LinkState, Option<LinkView>) {
    match ev {
        MdEvent::LinkStart { dest } => (
            LinkState {
                capturing: true,
                pending: LinkView {
                    kind: LinkKind::Hyperlink,
                    origin_url: origin_url,
                    origin_title: origin_title,
                    url: spec_canonical_dest(dest@, base, parents),
                    title: Seq::empty(),
                },
            },
            None,
        ),
        MdEvent::Text { text } => if st.capturing {
            (
                LinkState {
                    capturing: false,
                    pending: LinkView { title: text@, ..st.pending },
                },
                None,
            )
        } else {
            (st, None)
        },
        MdEvent::LinkEnd => (st, Some(st.pending)),
        MdEvent::ImageStart { dest } => (st, None),
        MdEvent::Other => (st, None),
    }
}

/// The links recorded by running the machine from `st` over `events`.
pub open spec fn spec_collect_from(
    events: Seq<MdEvent>,
    st: LinkState,
    origin_url: Seq<char>,
    origin_title: Seq<char>,
    base: Seq<char>,
    parents: Seq<char>,
) -> Seq<LinkView>
    decreases events.len(),
{
    if events.len() == 0 {
        Seq::empty()
    } else {
        let stepped = spec_step(st, events[0], origin_url, origin_title, base, parents);
        let rest = spec_collect_from(
            events.drop_first(),
            stepped.0,
            origin_url,
            origin_title,
            base,
            parents,
        );
        match stepped.1 {
            Some(l) => seq![l] + rest,
            None => rest,
        }
    }
}

/// The links a document's event stream records, in discovery order.
pub open spec fn spec_collect_links(
    events: Seq<MdEvent>,
    origin_url: Seq<char>,
    origin_title: Seq<char>,
    base: Seq<char>,
    parents: Seq<char>,
) -> Seq<LinkView> {
    spec_collect_from(
        events,
        spec_initial_state(origin_url, origin_title),
        origin_url,
        origin_title,
        base,
        parents,
    )
}

/// Runs the link-capture machine over a document's events.
pub fn collect_links(
    events: &Vec<MdEvent>,
    origin_url: &str,
    origin_title: &str,
    base: &str,
    parents: &str,
) -> (r: Vec<Link>)
    ensures
        links_view(r@) == spec_collect_links(events@, origin_url@, origin_title@, base@, parents@),
{
    let ghost ou = origin_url@;
    let ghost ot = origin_title@;
    let ghost bs = base@;
    let ghost ps = parents@;
    let mut out: Vec<Link> = Vec::new();
    let mut capturing: bool = false;
    let mut pending = Link {
        kind: LinkKind::Hyperlink,
        originating_file_url: origin_url.to_owned(),
        originating_file_title: origin_title.to_owned(),
        url: String::new(),
        title: String::new(),
    };
    let ghost st0 = spec_initial_state(ou, ot);
    let mut i: usize = 0;
    let ghost whole = spec_collect_links(events@, ou, ot, bs, ps);
    proof {
        assert(events@.skip(0) =~= events@);
    }
    while i < events.len()
        invariant
            0 <= i <= events@.len(),
            ou == origin_url@ && ot == origin_title@ && bs == base@ && ps == parents@,
            whole == spec_collect_links(events@, ou, ot, bs, ps),
            capturing == spec_state_at(events@, i as int, ou, ot, bs, ps).capturing,
            pending@ == spec_state_at(events@, i as int, ou, ot, bs, ps).pending,
            whole =~= links_view(out@) + spec_collect_from(
                events@.skip(i as int),
                spec_state_at(events@, i as int, ou, ot, bs, ps),
                ou,
                ot,
                bs,
                ps,
            ),
        decreases events@.len() - i,
    {
        let ghost st = spec_state_at(events@, i as int, ou, ot, bs, ps);
        proof {
            assert(events@.skip(i as int).drop_first() =~= events@.skip(i + 1));
            assert(events@.skip(i as int)[0] == events@[i as int]);
        }
        match &events[i] {
            MdEvent::LinkStart { dest } => {
                pending = Link {
                    kind: LinkKind::Hyperlink,
                    originating_file_url: origin_url.to_owned(),
                    originating_file_title: origin_title.to_owned(),
                    url: canonicalize_dest(dest.as_str(), base, parents),
                    title: String::new(),
                };
                capturing = true;
            },
            MdEvent::Text { text } => {
                if capturing {
                    pending = Link { title: text.clone(), ..pending };
                    capturing = false;
                }
            },
            MdEvent::LinkEnd => {
                let ghost prev = links_view(out@);
                out.push(pending.duplicate());
                proof {
                    assert(links_view(out@) =~= prev.push(out@.last()@));
                }
            },
            MdEvent::ImageStart { dest: _ } => {},
            MdEvent::Other => {},
        }
        i = i + 1;
        proof {
            lemma_state_at_step(events@, i as int - 1, ou, ot, bs, ps);
        }
    }
    proof {
        assert(events@.skip(events@.len() as int) =~= Seq::<MdEvent>::empty());
        assert(whole =~= links_view(out@));
    }
    out
}

/// The machine's state after the first `i` events.
pub open spec fn spec_state_at(
    events: Seq<MdEvent>,
    i: int,
    origin_url: Seq<char>,
    origin_title: Seq<char>,
    base: Seq<char>,
    parents: Seq<char>,
) -> LinkState
    decreases i,
{
    if i <= 0 {
        spec_initial_state(origin_url, origin_title)
    } else {
        spec_step(
            spec_state_at(events, i - 1, origin_url, origin_title, base, parents),
            events[i - 1],
            origin_url,
            origin_title,
            base,
            parents,
        ).0
    }
}

proof fn lemma_state_at_step(
    events: Seq<MdEvent>,
    i: int,
    origin_url: Seq<char>,
    origin_title: Seq<char>,
    base: Seq<char>,
    parents: Seq<char>,
)
    requires
        0 <= i,
    ensures
        spec_state_at(events, i + 1, origin_url, origin_title, base, parents) == spec_step(
            spec_state_at(events, i, origin_url, origin_title, base, parents),
            events[i],
            origin_url,
            origin_title,
            base,
            parents,
        ).0,
{
}

} // verus!
