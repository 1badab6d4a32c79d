//! Build-wide state: the base-URL composition, the append-only link
//! registry, and the non-fatal error collector.
use crate::link::{links_view, Link, LinkView};
use vstd::prelude::*;
use vstd::string::*;

verus! {

/// Non-fatal errors collected during a build, keyed by file path.
pub struct Errors {
    pub invalid_date_created: Vec<String>,
    pub invalid_date_updated: Vec<String>,
}

impl Errors {
    /// An empty collector.
    pub fn new() -> (r: Errors)
        ensures
            r.invalid_date_created@.len() == 0,
            r.invalid_date_updated@.len() == 0,
    {
        Errors { invalid_date_created: Vec::new(), invalid_date_updated: Vec::new() }
    }

    /// Records an unparsable `date_created` value at `path`.
    pub fn add_invalid_date_created(&mut self, path: String)
        ensures
            final(self).invalid_date_created@ == old(self).invalid_date_created@.push(path),
            final(self).invalid_date_updated == old(self).invalid_date_updated,
    {
        self.invalid_date_created.push(path);
    }

    /// Records an unparsable `date_updated` value at `path`.
    pub fn add_invalid_date_updated(&mut self, path: String)
        ensures
            final(self).invalid_date_updated@ == old(self).invalid_date_updated@.push(path),
            final(self).invalid_date_created == old(self).invalid_date_created,
    {
        self.invalid_date_updated.push(path);
    }
}

/// A URL or path prefix joined to a path with a single separator.
pub open spec fn spec_with_prefix(prefix: Seq<char>, path: Seq<char>) -> Seq<char> {
    prefix + seq!['/'] + path
}

/// The build-wide collaborator state the pipeline reads and mutates: roots,
/// base URL, the link registry and the error collector.
pub struct Site {
    pub dir: String,
    pub dir_build: String,
    pub base_url: String,
    pub links: Vec<Link>,
    pub errors: Errors,
}

impl Site {
    /// A site with an empty registry and no recorded errors.
    pub fn new(dir: String, dir_build: String, base_url: String) -> (r: Site)
        ensures
            r.dir == dir,
            r.dir_build == dir_build,
            r.base_url == base_url,
            r.links@.len() == 0,
            r.errors.invalid_date_created@.len() == 0,
            r.errors.invalid_date_updated@.len() == 0,
    {
        Site { dir, dir_build, base_url, links: Vec::new(), errors: Errors::new() }
    }

    /// Appends one discovered link to the registry; nothing else moves.
    pub fn add_link(&mut self, link: Link)
        ensures
            final(self).links@ == old(self).links@.push(link),
            final(self).dir == old(self).dir,
            final(self).dir_build == old(self).dir_build,
            final(self).base_url == old(self).base_url,
            final(self).errors.invalid_date_created == old(self).errors.invalid_date_created,
            final(self).errors.invalid_date_updated == old(self).errors.invalid_date_updated,
    {
        self.links.push(link);
    }

    /// The canonical URL for a site-relative path.
    pub fn build_with_baseurl(&self, path: &str) -> (r: String)
        ensures
            r@ == spec_with_prefix(self.base_url@, path@),
    {
        proof {
            reveal_strlit("/");
        }
        let mut out = self.base_url.clone();
        out.append("/");
        out.append(path);
        proof {
            assert(out@ =~= spec_with_prefix(self.base_url@, path@));
        }
        out
    }

    /// The views of the registry's links, in insertion order.
    pub open spec fn links_v(&self) -> Seq<LinkView> {
        links_view(self.links@)
    }
}

} // verus!
