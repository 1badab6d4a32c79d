use esker::datetime::{timestamp, DateTime};
use esker::frontmatter::Frontmatter;
use esker::site::Site;

fn test_site() -> Site {
    Site::new(
        String::from("/src"),
        String::from("/out"),
        String::from("https://example.org"),
    )
}

fn default_date() -> DateTime {
    DateTime { year: 2000, month: 6, day: 15, hour: 12, minute: 30, second: 45 }
}

fn lines(v: &[&str]) -> Vec<String> {
    v.iter().map(|s| s.to_string()).collect()
}

fn parse(site: &mut Site, doc: &[&str]) -> Option<Frontmatter> {
    Frontmatter::new(
        site,
        String::from("/src/note.md"),
        &lines(doc),
        default_date(),
        default_date(),
    )
}

#[test]
fn first_line_not_delimiter_is_invalid() {
    let mut site = test_site();
    let fm = parse(&mut site, &["title: Hello", "---"]);
    assert!(fm.is_none());
}

#[test]
fn empty_document_is_invalid() {
    let mut site = test_site();
    let fm = parse(&mut site, &[]);
    assert!(fm.is_none());
}

#[test]
fn unclosed_block_is_invalid() {
    let mut site = test_site();
    let fm = parse(&mut site, &["---", "title: Hello"]);
    assert!(fm.is_none());
}

#[test]
fn basic_fields_are_read() {
    let mut site = test_site();
    let fm = parse(
        &mut site,
        &[
            "---",
            "title:  Hello World ",
            "summary: A page",
            "template: post.html",
            "unknown_key: ignored",
            "---",
            "body text",
        ],
    )
    .unwrap();
    assert_eq!(fm.title, "Hello World");
    assert_eq!(fm.summary, Some(String::from("A page")));
    assert_eq!(fm.template, "post.html");
    assert!(fm.publish);
    assert!(fm.in_sitemap);
    assert!(fm.tags.is_empty());
}

#[test]
fn title_defaults_to_file_stem() {
    let mut site = test_site();
    let fm = parse(&mut site, &["---", "---"]).unwrap();
    assert_eq!(fm.title, "note");
    assert_eq!(fm.get_filepath_as_str(), "/src/note.md");
}

#[test]
fn bare_date_falls_back_to_five_pm() {
    let mut site = test_site();
    let fm = parse(&mut site, &["---", "date_created: 2024-01-05", "---"]).unwrap();
    assert_eq!(
        fm.date_created,
        DateTime { year: 2024, month: 1, day: 5, hour: 17, minute: 0, second: 0 }
    );
    assert!(site.errors.invalid_date_created.is_empty());
}

#[test]
fn minute_precision_date_parses() {
    let mut site = test_site();
    let fm = parse(&mut site, &["---", "date_updated: 2024-01-05 09:30", "---"]).unwrap();
    assert_eq!(
        fm.date_updated,
        DateTime { year: 2024, month: 1, day: 5, hour: 9, minute: 30, second: 0 }
    );
}

#[test]
fn second_precision_date_parses() {
    let mut site = test_site();
    let fm = parse(&mut site, &["---", "date_created: 2024-01-05 09:30:05", "---"]).unwrap();
    assert_eq!(
        fm.date_created,
        DateTime { year: 2024, month: 1, day: 5, hour: 9, minute: 30, second: 5 }
    );
}

#[test]
fn unparsable_date_keeps_default_and_records_one_error() {
    let mut site = test_site();
    let fm = parse(&mut site, &["---", "date_created: not-a-date", "---"]).unwrap();
    assert_eq!(fm.date_created, default_date());
    assert_eq!(site.errors.invalid_date_created, vec![String::from("/src/note.md")]);
    assert!(site.errors.invalid_date_updated.is_empty());
}

#[test]
fn bad_updated_date_recorded_separately() {
    let mut site = test_site();
    let _ = parse(&mut site, &["---", "date_updated: nope", "---"]).unwrap();
    assert!(site.errors.invalid_date_created.is_empty());
    assert_eq!(site.errors.invalid_date_updated, vec![String::from("/src/note.md")]);
}

#[test]
fn tags_are_trimmed_and_empty_tokens_dropped() {
    let mut site = test_site();
    let fm = parse(&mut site, &["---", "tags: a, , b ,b", "---"]).unwrap();
    assert_eq!(fm.tags, vec!["a", "b", "b"]);
}

#[test]
fn tag_key_is_an_alias() {
    let mut site = test_site();
    let fm = parse(&mut site, &["---", "tag: solo", "---"]).unwrap();
    assert_eq!(fm.tags, vec!["solo"]);
}

#[test]
fn publish_false_only_on_exact_literal() {
    let mut site = test_site();
    let fm = parse(&mut site, &["---", "publish: false", "---"]).unwrap();
    assert!(!fm.publish);
    let fm = parse(&mut site, &["---", "publish: FALSE", "---"]).unwrap();
    assert!(fm.publish);
    let fm = parse(&mut site, &["---", "publish:", "---"]).unwrap();
    assert!(fm.publish);
    let fm = parse(&mut site, &["---", "---"]).unwrap();
    assert!(fm.publish);
}

#[test]
fn timestamps_derive_from_dates() {
    let epoch = DateTime { year: 1970, month: 1, day: 1, hour: 0, minute: 0, second: 0 };
    assert_eq!(timestamp(&epoch), 0);
    let d = DateTime { year: 2024, month: 1, day: 5, hour: 17, minute: 0, second: 0 };
    assert_eq!(timestamp(&d), 1_704_474_000);
    let before = DateTime { year: 1969, month: 12, day: 31, hour: 23, minute: 59, second: 59 };
    assert_eq!(timestamp(&before), -1);
    let leap = DateTime { year: 2024, month: 3, day: 1, hour: 0, minute: 0, second: 0 };
    let non_leap = DateTime { year: 2023, month: 3, day: 1, hour: 0, minute: 0, second: 0 };
    assert_eq!(timestamp(&leap) - timestamp(&non_leap), 366 * 86_400);
}

#[test]
fn parsed_date_timestamp_matches() {
    let mut site = test_site();
    let fm = parse(&mut site, &["---", "date_created: 2024-01-05", "---"]).unwrap();
    assert_eq!(fm.date_created_timestamp, 1_704_474_000);
}

#[test]
fn date_modified_str_is_zero_padded() {
    let mut site = test_site();
    let fm = parse(&mut site, &["---", "date_updated: 2024-01-05 09:30", "---"]).unwrap();
    assert_eq!(fm.date_modified_str(), "2024-01-05 09:30");
}

#[test]
fn unicode_whitespace_is_trimmed() {
    let mut site = test_site();
    let fm = parse(&mut site, &["---", "title: \u{00A0}Padded\u{00A0}", "---"]).unwrap();
    assert_eq!(fm.title, "Padded");
    let fm = parse(&mut site, &["---", "tags: a\u{00A0}, \u{2003}b", "---"]).unwrap();
    assert_eq!(fm.tags, vec!["a", "b"]);
}

#[test]
fn five_digit_years_carry_a_sign() {
    let mut site = test_site();
    let fm = parse(&mut site, &["---", "date_updated: +10000-01-05 09:30", "---"]).unwrap();
    assert_eq!(fm.date_updated.year, 10000);
    assert_eq!(fm.date_modified_str(), "+10000-01-05 09:30");
}

#[test]
fn value_may_contain_colons() {
    let mut site = test_site();
    let fm = parse(&mut site, &["---", "title: a: b", "---"]).unwrap();
    assert_eq!(fm.title, "a: b");
}

#[test]
fn valid_but_empty_frontmatter_differs_from_invalid() {
    let mut site = test_site();
    assert!(parse(&mut site, &["---", "---"]).is_some());
    assert!(parse(&mut site, &["x"]).is_none());
}
