//! The page transforms: image substitution, link rewriting, heading
//! anchors, the table of contents, and prelude assembly.

use engine::assemble_page;
use engine::headings::render_toc;
use engine::headings::setup_header_links;
use engine::rewrite::rewrite_images;
use engine::rewrite::rewrite_links;
use engine::rewrite::find_link_targets;
use engine::slugify;
use engine::Scheduler;
use engine::SiteDate;
use engine::SlugTable;
use engine::WorkItem;

use sha2::Digest;

fn chars(s: &str) -> Vec<char> {
    s.chars().collect()
}

fn string_of(v: &[char]) -> String {
    v.iter().collect()
}

fn sha_hex(s: &str) -> String {
    format!("{:x}", sha2::Sha256::digest(s.as_bytes()))
}

fn drain(sched: &mut Scheduler) -> Vec<WorkItem> {
    let mut taken = Vec::new();
    while let Some(item) = sched.take_next() {
        taken.push(item);
    }
    taken
}

#[test]
fn remote_png_reference_is_rewritten_to_hashed_webp() {
    let url = "https://example.com/a.png";
    let html = chars(r#"<p><img src="https://example.com/a.png" alt="x" /></p>"#);
    let mut sched = Scheduler::new();
    let out = rewrite_images(&html, &mut sched);
    let hash = sha_hex(url);
    let expected = format!(r#"<p><img src="/images/{}.webp" alt="x" /></p>"#, hash);
    assert_eq!(string_of(&out), expected);
    let items = drain(&mut sched);
    assert_eq!(items.len(), 1);
    assert_eq!(
        items[0],
        WorkItem::Image { input: String::from(url), output: hash }
    );
}

#[test]
fn image_url_is_hashed_in_normalized_form() {
    // The host is normalized to lowercase before hashing.
    let html = chars(r#"<img src="https://EXAMPLE.com/a.png" />"#);
    let mut sched = Scheduler::new();
    let out = rewrite_images(&html, &mut sched);
    let hash = sha_hex("https://example.com/a.png");
    assert_eq!(string_of(&out), format!(r#"<img src="/images/{}.webp" />"#, hash));
}

#[test]
fn unparseable_image_reference_stays() {
    let html = chars(r#"<img src="./local.png" />"#);
    let mut sched = Scheduler::new();
    let out = rewrite_images(&html, &mut sched);
    assert_eq!(string_of(&out), r#"<img src="./local.png" />"#);
    assert_eq!(drain(&mut sched).len(), 0);
}

#[test]
fn same_image_twice_enqueues_once() {
    let html = chars(
        r#"<img src="https://example.com/a.png" /><img src="https://example.com/a.png" />"#,
    );
    let mut sched = Scheduler::new();
    let _ = rewrite_images(&html, &mut sched);
    assert_eq!(drain(&mut sched).len(), 1);
}

#[test]
fn repeated_heading_gets_numbered_anchor() {
    let html = chars("<h1>Intro</h1><p>x</p><h2>Intro</h2>");
    let mut table = SlugTable::new();
    let mut toc = Vec::new();
    let out = setup_header_links(&html, &mut table, &mut toc);
    assert_eq!(
        string_of(&out),
        r##"<h1 id="intro">Intro</h1><p>x</p><h2 id="intro1">Intro</h2>"##
    );
    assert_eq!(toc.len(), 2);
    assert_eq!(string_of(&toc[0].slug), "intro");
    assert_eq!(string_of(&toc[1].slug), "intro1");
    assert_eq!(toc[0].level, 1);
    assert_eq!(toc[1].level, 2);
}

#[test]
fn slugify_lowercases_and_strips() {
    assert_eq!(string_of(&slugify("Hello World!")), "hello-world");
    assert_eq!(string_of(&slugify("A  B")), "a--b");
    assert_eq!(string_of(&slugify("C++ guide")), "c-guide");
}

#[test]
fn toc_renders_nested_lists() {
    let html = chars("<h1>One</h1><h2>Two</h2><h1>Three</h1>");
    let mut table = SlugTable::new();
    let mut toc = Vec::new();
    let _ = setup_header_links(&html, &mut table, &mut toc);
    let rendered = string_of(&render_toc(&toc));
    assert!(rendered.starts_with("\n<section class=\"toc\">"));
    assert!(rendered.contains(r##"<li><a href="#one">One</a></li>"##));
    assert!(rendered.contains(r##"<li><a href="#two">Two</a></li>"##));
    assert!(rendered.contains(r##"<li><a href="#three">Three</a></li>"##));
    assert!(rendered.ends_with("\n</section>\n"));
    // one list opened for level 1, one nested for level 2, one closed on
    // the way back, and the final close run
    assert_eq!(rendered.matches("<ol>").count(), 2);
    assert_eq!(rendered.matches("</ol>").count(), 2);
}

#[test]
fn empty_toc_renders_nothing() {
    let toc = Vec::new();
    assert_eq!(string_of(&render_toc(&toc)), "");
}

#[test]
fn toc_href_escapes_non_ascii_slugs() {
    let html = chars("<h1>\u{e9}</h1>");
    let mut table = SlugTable::new();
    let mut toc = Vec::new();
    let _ = setup_header_links(&html, &mut table, &mut toc);
    let rendered = string_of(&render_toc(&toc));
    assert!(rendered.contains(r##"<a href="#%C3%A9">"##));
}

#[test]
fn hyperref_link_enqueues_one_page_and_rewrites_href() {
    let html = chars(r#"<p><a href="hyperref:./b.md">next</a></p>"#);
    let page_dir = chars("/site/src/sub");
    let out_root = chars("/site/out");
    let targets = find_link_targets(&html, &page_dir, &out_root);
    assert_eq!(targets.len(), 1);
    assert_eq!(targets[0], "/site/src/sub/./b.md");

    let base = chars("/site/src");
    let resolutions = vec![Some(String::from("/site/src/sub/b.md"))];
    let mut sched = Scheduler::new();
    let out = rewrite_links(&html, &resolutions, &base, &mut sched);
    assert_eq!(
        string_of(&out),
        r#"<p><a href="/sub/b.html">next</a></p>"#
    );
    let items = drain(&mut sched);
    assert_eq!(items.len(), 1);
    assert_eq!(items[0], WorkItem::Page(String::from("/site/src/sub/b.md")));
}

#[test]
fn same_sibling_linked_twice_enqueues_once() {
    let html = chars(
        r#"<a href="hyperref:./b.md">x</a><a href="hyperref:./b.md">y</a>"#,
    );
    let base = chars("/s");
    let resolutions = vec![
        Some(String::from("/s/b.md")),
        Some(String::from("/s/b.md")),
    ];
    let mut sched = Scheduler::new();
    let _ = rewrite_links(&html, &resolutions, &base, &mut sched);
    assert_eq!(drain(&mut sched).len(), 1);
}

#[test]
fn unresolved_link_is_left_unrewritten() {
    let html = chars(r#"<a href="hyperref:./missing.md">x</a>"#);
    let base = chars("/s");
    let resolutions = vec![None];
    let mut sched = Scheduler::new();
    let out = rewrite_links(&html, &resolutions, &base, &mut sched);
    assert_eq!(string_of(&out), r#"<a href="hyperref:./missing.md">x</a>"#);
    assert_eq!(drain(&mut sched).len(), 0);
}

#[test]
fn ordinary_links_stay() {
    let html = chars(r#"<a href="https://example.com/">x</a>"#);
    let base = chars("/s");
    let resolutions: Vec<Option<String>> = Vec::new();
    let mut sched = Scheduler::new();
    let out = rewrite_links(&html, &resolutions, &base, &mut sched);
    assert_eq!(string_of(&out), r#"<a href="https://example.com/">x</a>"#);
}

const PRELUDE: &str = "<html><head><title>@@@SLOT_TITLE@@@</title>@@@SLOT_STYLES@@@</head><body><!-- @@@IF_DATE@@@ --><p class=\"date\">@@@SLOT_DATE@@@</p><!-- @@@ENDIF@@@ --><!-- @@@IF_TIME_TO_READ@@@ --><p>@@@SLOT_TIME_TO_READ@@@</p><!-- @@@ENDIF@@@ -->@@@SLOT_CONTENT@@@</body></html>";

#[test]
fn page_without_date_loses_the_date_region_entirely() {
    let html = assemble_page(PRELUDE, "", "<p>hi</p>", "Foo", None, None);
    assert!(!html.contains("@@@SLOT_DATE@@@"));
    assert!(!html.contains("IF_DATE"));
    assert!(!html.contains("class=\"date\""));
    assert!(html.contains("<title>Foo</title>"));
    assert!(html.contains("<p>hi</p>"));
}

#[test]
fn page_with_date_expands_the_date_region() {
    let date = SiteDate { year: 2023, month: 1, day: 2 };
    let html = assemble_page(PRELUDE, "", "<p>hi</p>", "Foo", Some(&date), None);
    assert!(html.contains(r#"<p class="date">01/02/2023</p>"#));
    assert!(!html.contains("IF_DATE"));
}

#[test]
fn reading_time_region_follows_its_field() {
    let ttr = String::from("5 min");
    let with = assemble_page(PRELUDE, "", "", "T", None, Some(&ttr));
    assert!(with.contains("<p>5 min</p>"));
    let without = assemble_page(PRELUDE, "", "", "T", None, None);
    assert!(!without.contains("TIME_TO_READ"));
}
