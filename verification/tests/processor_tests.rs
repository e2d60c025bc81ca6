//! The processor driving a page end to end: frontmatter, markdown,
//! discovery, highlighting, anchors, styles and assembly.

use engine::minify::minify_html;
use engine::Processor;
use engine::ResolvedConfig;
use engine::ResolvedInputsConfig;
use engine::ResolvedLibConfig;
use engine::ResolvedRootsConfig;
use engine::ResolvedStylesConfig;
use engine::Scheduler;
use engine::WorkItem;
use engine::assemble_page;

fn test_config() -> ResolvedConfig {
    ResolvedConfig {
        roots: ResolvedRootsConfig {
            source: String::from("/site/src"),
            lib: String::from("/site/lib"),
            assets: String::from("/site/assets"),
            output: String::from("/site/out"),
        },
        inputs: ResolvedInputsConfig {
            index: String::from("/site/src/index.md"),
            keep: String::from("/site/src/_keep.md"),
        },
        lib: ResolvedLibConfig {
            prelude_location: String::from("/site/lib/prelude.html"),
            styles: ResolvedStylesConfig {
                chunks_root: String::from("/site/lib/style-chunks"),
                css: Vec::new(),
            },
        },
        theme: String::from("InspiredGitHub"),
    }
}

fn drain(sched: &mut Scheduler) -> Vec<WorkItem> {
    let mut taken = Vec::new();
    while let Some(item) = sched.take_next() {
        taken.push(item);
    }
    taken
}

#[test]
fn seeding_queues_index_and_keep() {
    let mut p = Processor::new(test_config());
    p.seed_toplevel();
    let taken = drain(&mut p.sched);
    assert_eq!(taken.len(), 2);
    assert!(taken.contains(&WorkItem::Index));
    assert!(taken.contains(&WorkItem::Keep));
}

#[test]
fn prepare_page_extracts_everything() {
    let source = "---\ntitle: Hello\ndate: 03/04/2022\n---\n# Intro\n\nSome text with a [link](hyperref:./b.md).\n";
    let mut p = Processor::new(test_config());
    let parts = p.prepare_page(source, "/site/src/index.md");
    let fm = parts.frontmatter.expect("frontmatter parses");
    assert_eq!(fm.title, "Hello");
    assert!(parts.body.contains("<h1>Intro</h1>"));
    assert!(!parts.body.contains("title: Hello"));
    assert_eq!(parts.link_candidates.len(), 1);
    assert_eq!(parts.link_candidates[0], "/site/src/./b.md");
}

#[test]
fn compose_page_highlights_and_anchors() {
    let source = "# Intro\n\nA paragraph.\n\n```rust\nfn main() { let x = 1; }\n```\n";
    let mut p = Processor::new(test_config());
    let parts = p.prepare_page(source, "/site/src/index.md");
    let ss = syntect::parsing::SyntaxSet::load_defaults_newlines();
    let themes = syntect::highlighting::ThemeSet::load_defaults();
    let theme = &themes.themes["InspiredGitHub"];
    let resolutions: Vec<Option<String>> = Vec::new();
    let (html, styles) = p.compose_page(parts.body.as_str(), &resolutions, &ss, theme);
    assert!(html.contains("<h1 id=\"intro\">Intro</h1>"));
    assert!(html.contains("<section class=\"toc\">"));
    assert!(html.contains("<code class=\"language-rust\">"));
    let names = styles.names();
    assert!(names.contains(&String::from("_global")));
    assert!(names.contains(&String::from("paragraph")));
    assert!(names.contains(&String::from("h1")));
    assert!(names.contains(&String::from("code")));
    assert!(names.contains(&String::from("toc")));
    assert!(names.contains(&String::from("link")));
    assert!(!names.contains(&String::from("image")));
}

#[test]
fn style_links_point_under_css_and_enqueue_chunks() {
    let mut p = Processor::new(test_config());
    let existing = vec![String::from("_global"), String::from("code")];
    let block = p.style_links(&existing);
    assert_eq!(block.matches("/css/_global.css").count(), 2);
    assert_eq!(block.matches("/css/code.css").count(), 2);
    assert!(block.contains("rel=\"preload\""));
    assert!(block.contains("rel=\"stylesheet\""));
    let items = drain(&mut p.sched);
    assert_eq!(items.len(), 2);
    assert!(items.contains(&WorkItem::Style(String::from("_global"))));
    assert!(items.contains(&WorkItem::Style(String::from("code"))));
}

#[test]
fn output_paths_follow_the_layout() {
    let p = Processor::new(test_config());
    assert_eq!(
        p.page_output_path("/site/src/notes/a.md").expect("under the root"),
        "/site/out/notes/a.html"
    );
    assert!(p.page_output_path("/elsewhere/a.md").is_err());
    assert_eq!(p.image_output_path("abc123"), "/site/out/images/abc123.webp");
    assert_eq!(p.font_output_path("abc.woff"), "/site/out/fonts/abc.woff");
    let (src, out) = p.style_paths("code");
    assert_eq!(src, "/site/lib/style-chunks/code.css");
    assert_eq!(out, "/site/out/css/code.css");
}

#[test]
fn assembled_page_minifies() {
    let prelude = "<html>\n  <head>\n    <title>@@@SLOT_TITLE@@@</title>@@@SLOT_STYLES@@@</head>\n  <body>@@@SLOT_CONTENT@@@</body>\n</html>\n";
    let html = assemble_page(prelude, "", "<p>hi</p>", "T", None, None);
    let minified = minify_html(html.as_str()).expect("valid page");
    assert!(minified.len() < html.len());
    assert!(minified.contains("<p>hi</p>"));
}
