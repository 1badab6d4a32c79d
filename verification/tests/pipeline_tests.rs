use esker::datetime::DateTime;
use esker::frontmatter::Frontmatter;
use esker::link::canonicalize_dest;
use esker::md_file::{resolve_template_name, MdFile};
use esker::site::Site;

fn test_site() -> Site {
    Site::new(
        String::from("/src"),
        String::from("/out"),
        String::from("https://example.org"),
    )
}

fn default_date() -> DateTime {
    DateTime { year: 2020, month: 1, day: 1, hour: 0, minute: 0, second: 0 }
}

fn lines(v: &[&str]) -> Vec<String> {
    v.iter().map(|s| s.to_string()).collect()
}

fn make_doc(site: &mut Site, path: &str, doc: &[&str]) -> MdFile {
    let ls = lines(doc);
    let fm = Frontmatter::new(
        site,
        String::from(path),
        &ls,
        default_date(),
        default_date(),
    )
    .expect("document should carry valid frontmatter");
    MdFile::new(site, &ls, String::from(path), fm)
}

#[test]
fn paths_and_url_derive_from_source_path() {
    let mut site = test_site();
    let doc = make_doc(&mut site, "/src/posts/My Note.md", &["---", "---", "hello"]);
    assert_eq!(doc.web_path_parents, "posts");
    assert_eq!(doc.web_path, "my-note.html");
    assert_eq!(doc.out_path, "/out/posts/my-note.html");
    assert_eq!(doc.full_url, "https://example.org/posts/my-note.html");
    assert!(!doc.is_section);
    assert_eq!(doc.raw, "hello");
}

#[test]
fn root_document_has_empty_parent() {
    let mut site = test_site();
    let doc = make_doc(&mut site, "/src/about.md", &["---", "---", "hi"]);
    assert_eq!(doc.web_path_parents, "");
    assert_eq!(doc.full_url, "https://example.org/about.html");
}

#[test]
fn index_documents_are_sections() {
    let mut site = test_site();
    let doc = make_doc(&mut site, "/src/posts/_index.md", &["---", "---"]);
    assert!(doc.is_section);
}

#[test]
fn body_strips_only_the_frontmatter_block() {
    let mut site = test_site();
    let doc = make_doc(
        &mut site,
        "/src/a.md",
        &["---", "title: A", "---", "first", "", "second"],
    );
    assert_eq!(doc.raw, "first\n\nsecond");
}

#[test]
fn thematic_breaks_in_the_body_are_kept() {
    let mut site = test_site();
    let doc = make_doc(&mut site, "/src/a.md", &["---", "---", "a", "---", "b"]);
    assert_eq!(doc.raw, "a\n---\nb");
}

#[test]
fn markdown_renders_to_html() {
    let mut site = test_site();
    let mut doc = make_doc(&mut site, "/src/a.md", &["---", "---", "# Hi"]);
    doc.collect_metadata(&mut site);
    assert_eq!(doc.html, "<h1>Hi</h1>\n");
}

#[test]
fn relative_link_destinations_are_rewritten() {
    let mut site = test_site();
    let mut doc = make_doc(&mut site, "/src/posts/a.md", &["---", "---", "[B](b.html)"]);
    doc.collect_metadata(&mut site);
    assert!(doc.html.contains("https://example.org/posts/b.html"));
    assert_eq!(site.links.len(), 1);
    assert_eq!(site.links[0].url, "https://example.org/posts/b.html");
    assert_eq!(site.links[0].title, "B");
    assert_eq!(site.links[0].originating_file_url, "https://example.org/posts/a.html");
}

#[test]
fn absolute_link_destinations_are_kept() {
    assert_eq!(
        canonicalize_dest("https://other.net/x", "https://example.org", "posts"),
        "https://other.net/x"
    );
    assert_eq!(
        canonicalize_dest("b.html", "https://example.org", ""),
        "https://example.org/b.html"
    );
    assert_eq!(
        canonicalize_dest("b.html", "https://example.org", "posts"),
        "https://example.org/posts/b.html"
    );
}

#[test]
fn backlinks_come_from_other_documents_only() {
    let mut site = test_site();
    let mut a = make_doc(
        &mut site,
        "/src/a.md",
        &["---", "---", "[to b](https://example.org/b.html) and [me](https://example.org/a.html)"],
    );
    let mut b = make_doc(&mut site, "/src/b.md", &["---", "---", "plain"]);
    a.collect_metadata(&mut site);
    b.collect_metadata(&mut site);
    a.get_backlinks_for_file(&site);
    b.get_backlinks_for_file(&site);
    assert_eq!(b.backlinks.len(), 1);
    assert_eq!(b.backlinks[0].originating_file_url, "https://example.org/a.html");
    assert!(a.backlinks.is_empty());
}

#[test]
fn duplicate_links_resolve_to_one_backlink() {
    let mut site = test_site();
    let mut a = make_doc(
        &mut site,
        "/src/a.md",
        &[
            "---",
            "---",
            "[b](https://example.org/b.html) [b](https://example.org/b.html)",
        ],
    );
    let mut b = make_doc(&mut site, "/src/b.md", &["---", "---", "x"]);
    a.collect_metadata(&mut site);
    b.collect_metadata(&mut site);
    b.get_backlinks_for_file(&site);
    assert_eq!(b.backlinks.len(), 1);
}

#[test]
fn backlink_order_follows_discovery_order() {
    let mut site = test_site();
    let mut a = make_doc(&mut site, "/src/a.md", &["---", "---", "[b](https://example.org/b.html)"]);
    let mut c = make_doc(&mut site, "/src/c.md", &["---", "---", "[b](https://example.org/b.html)"]);
    let mut b = make_doc(&mut site, "/src/b.md", &["---", "---", "x"]);
    a.collect_metadata(&mut site);
    c.collect_metadata(&mut site);
    b.collect_metadata(&mut site);
    b.get_backlinks_for_file(&site);
    assert_eq!(b.backlinks.len(), 2);
    assert_eq!(b.backlinks[0].originating_file_url, "https://example.org/a.html");
    assert_eq!(b.backlinks[1].originating_file_url, "https://example.org/c.html");
}

#[test]
fn rebuilding_unchanged_input_is_byte_identical() {
    let doc_a: &[&str] = &["---", "title: A", "---", "[b](https://example.org/b.html) *text*"];
    let doc_b: &[&str] = &["---", "title: B", "---", "# B"];
    let mut outputs: Vec<(String, String, Vec<String>)> = Vec::new();
    for _ in 0..2 {
        let mut site = test_site();
        let mut a = make_doc(&mut site, "/src/a.md", doc_a);
        let mut b = make_doc(&mut site, "/src/b.md", doc_b);
        a.collect_metadata(&mut site);
        b.collect_metadata(&mut site);
        a.get_backlinks_for_file(&site);
        b.get_backlinks_for_file(&site);
        let backlink_origins =
            b.backlinks.iter().map(|l| l.originating_file_url.clone()).collect();
        outputs.push((a.html.clone(), b.html.clone(), backlink_origins));
    }
    assert_eq!(outputs[0], outputs[1]);
}

#[test]
fn section_pages_exclude_sections_and_keep_order() {
    let mut site = test_site();
    let index = make_doc(&mut site, "/src/posts/_index.md", &["---", "---"]);
    let one = make_doc(&mut site, "/src/posts/one.md", &["---", "title: One", "---"]);
    let two = make_doc(&mut site, "/src/posts/two.md", &["---", "title: Two", "---"]);
    let group = vec![index, one, two];
    let pages = group[0].section_pages(&group);
    assert_eq!(pages.len(), 2);
    assert_eq!(pages[0].title, "One");
    assert_eq!(pages[1].title, "Two");
    assert!(pages.iter().all(|p| p.url != group[0].full_url));
}

#[test]
fn render_plan_branches_on_section_flag() {
    let mut site = test_site();
    let index = make_doc(&mut site, "/src/posts/_index.md", &["---", "---"]);
    let one = make_doc(&mut site, "/src/posts/one.md", &["---", "title: One", "---"]);
    let group = vec![index, one];
    let plan = group[0].render_plan(&site, &group, "default.html");
    assert!(plan.is_section);
    assert_eq!(plan.template_name, "default.html");
    assert_eq!(plan.pages.len(), 1);
    assert_eq!(plan.baseurl, "https://example.org");
    let leaf_plan = group[1].render_plan(&site, &group, "default.html");
    assert!(!leaf_plan.is_section);
    assert!(leaf_plan.pages.is_empty());
    assert_eq!(leaf_plan.out_path, "/out/posts/one.html");
}

#[test]
fn template_name_falls_back_to_default() {
    assert_eq!(resolve_template_name("", "default.html"), "default.html");
    assert_eq!(resolve_template_name("post.html", "default.html"), "post.html");
}

#[test]
fn page_summary_serializes_the_document() {
    let mut site = test_site();
    let doc = make_doc(
        &mut site,
        "/src/a.md",
        &["---", "title: A", "summary: about a", "tags: x,y", "date_updated: 2024-01-05 09:30", "---"],
    );
    let s = doc.page_summary();
    assert_eq!(s.title, "A");
    assert_eq!(s.url, "https://example.org/a.html");
    assert_eq!(s.summary, Some(String::from("about a")));
    assert_eq!(s.tags, vec!["x", "y"]);
    assert_eq!(s.date_updated_str, "2024-01-05 09:30");
}

#[test]
fn image_destinations_are_rewritten() {
    let mut site = test_site();
    let mut doc = make_doc(&mut site, "/src/posts/a.md", &["---", "---", "![pic](img.png)"]);
    doc.collect_metadata(&mut site);
    assert!(doc.html.contains("https://example.org/posts/img.png"));
}

#[test]
fn strikethrough_extension_is_enabled() {
    let mut site = test_site();
    let mut doc = make_doc(&mut site, "/src/a.md", &["---", "---", "~~gone~~"]);
    doc.collect_metadata(&mut site);
    assert!(doc.html.contains("<del>gone</del>"));
}
