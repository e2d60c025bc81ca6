//! Frontmatter extraction and parsing, dates, paths, configuration
//! resolution and the dependency graph.

use engine::frontmatter::extract_frontmatter;
use engine::frontmatter::parse_date;
use engine::prelude_html::format_date;
use engine::Config;
use engine::DAGNodeId;
use engine::Dependency;
use engine::DependencyDAG;
use engine::DependencyType;
use engine::Frontmatter;
use engine::InputsConfig;
use engine::LibConfig;
use engine::PathHelper;
use engine::RootsConfig;
use engine::SiteDate;
use engine::StylesConfig;

fn chars(s: &str) -> Vec<char> {
    s.chars().collect()
}

fn string_of(v: &[char]) -> String {
    v.iter().collect()
}

#[test]
fn frontmatter_block_is_extracted_and_removed() {
    let doc = chars("---\ntitle: Foo\ndate: 01/02/2023\n---\n# Heading\nBody text\n");
    let (block, rest) = extract_frontmatter(&doc);
    let block = block.expect("opening and closing markers are there");
    assert_eq!(string_of(&block), "title: Foo\ndate: 01/02/2023");
    assert_eq!(string_of(&rest), "# Heading\nBody text\n");
}

#[test]
fn heading_also_closes_the_block() {
    let doc = chars("---\ntitle: Foo\n# Heading\nBody\n");
    let (block, rest) = extract_frontmatter(&doc);
    assert_eq!(string_of(&block.expect("heading closes")), "title: Foo");
    assert_eq!(string_of(&rest), "# Heading\nBody\n");
}

#[test]
fn document_without_marker_is_unchanged() {
    let doc = chars("# Heading\nBody\n");
    let (block, rest) = extract_frontmatter(&doc);
    assert!(block.is_none());
    assert_eq!(string_of(&rest), "# Heading\nBody\n");
}

#[test]
fn unclosed_block_yields_no_frontmatter() {
    let doc = chars("---\ntitle: Foo\nno closing marker\n");
    let (block, rest) = extract_frontmatter(&doc);
    assert!(block.is_none());
    assert_eq!(string_of(&rest), "---\ntitle: Foo\nno closing marker\n");
}

#[test]
fn frontmatter_fields_parse() {
    let fm = Frontmatter::parse_from_str("title: Foo\ndate: 01/02/2023\ntime_to_read: 5 min")
        .expect("well-formed block");
    assert_eq!(fm.title, "Foo");
    assert_eq!(fm.date, Some(SiteDate { year: 2023, month: 1, day: 2 }));
    assert_eq!(fm.time_to_read, Some(String::from("5 min")));
}

#[test]
fn untitled_default_has_no_date_or_reading_time() {
    let fm = Frontmatter::untitled();
    assert_eq!(fm.title, "Untitled");
    assert!(fm.date.is_none());
    assert!(fm.time_to_read.is_none());
}

#[test]
fn missing_title_fails_the_parse() {
    assert!(Frontmatter::parse_from_str("date: 01/02/2023").is_none());
}

#[test]
fn bad_date_fails_the_parse() {
    assert!(Frontmatter::parse_from_str("title: Foo\ndate: 13/01/2023").is_none());
    assert!(Frontmatter::parse_from_str("title: Foo\ndate: yesterday").is_none());
}

#[test]
fn unknown_keys_are_ignored() {
    let fm = Frontmatter::parse_from_str("title: Foo\nauthor: someone").expect("parses");
    assert_eq!(fm.title, "Foo");
}

#[test]
fn line_without_colon_fails_the_parse() {
    assert!(Frontmatter::parse_from_str("title: Foo\njust words").is_none());
}

#[test]
fn dates_respect_the_calendar() {
    assert_eq!(
        parse_date(&chars("02/29/2020")),
        Some(SiteDate { year: 2020, month: 2, day: 29 })
    );
    assert_eq!(parse_date(&chars("02/29/2021")), None);
    assert_eq!(parse_date(&chars("02/29/1900")), None);
    assert_eq!(
        parse_date(&chars("02/29/2000")),
        Some(SiteDate { year: 2000, month: 2, day: 29 })
    );
    assert_eq!(parse_date(&chars("04/31/2021")), None);
    assert_eq!(parse_date(&chars("00/10/2021")), None);
    assert_eq!(parse_date(&chars("1/2/2023")), Some(SiteDate { year: 2023, month: 1, day: 2 }));
    assert_eq!(parse_date(&chars("01/02/23")), Some(SiteDate { year: 23, month: 1, day: 2 }));
    assert_eq!(parse_date(&chars("01022023")), None);
}

#[test]
fn dates_format_zero_padded() {
    let d = SiteDate { year: 987, month: 1, day: 2 };
    assert_eq!(string_of(&format_date(&d)), "01/02/0987");
    let d2 = SiteDate { year: 2023, month: 12, day: 31 };
    assert_eq!(string_of(&format_date(&d2)), "12/31/2023");
}

#[test]
fn relative_paths_join_and_absolute_paths_stay() {
    let base = String::from("/etc/site");
    assert_eq!(String::from("src").maybe_suffix(&base), "/etc/site/src");
    assert_eq!(String::from("/abs/src").maybe_suffix(&base), "/abs/src");
}

#[test]
fn relative_paths_unprefix() {
    let base = String::from("sub");
    assert_eq!(String::from("sub/a.md").maybe_unprefix(&base), "a.md");
    assert_eq!(String::from("other/a.md").maybe_unprefix(&base), "other/a.md");
    assert_eq!(String::from("/abs/a.md").maybe_unprefix(&base), "/abs/a.md");
}

#[test]
fn config_resolves_with_defaults() {
    let config = Config {
        roots: RootsConfig {
            source: String::from("src"),
            lib: String::from("/lib"),
            assets: String::from("assets"),
            output: String::from("out"),
        },
        inputs: None,
        lib: None,
    };
    let folder = String::from("/etc/site");
    let resolved = config.resolve(&folder, String::from("InspiredGitHub"));
    assert_eq!(resolved.roots.source, "/etc/site/src");
    assert_eq!(resolved.roots.lib, "/lib");
    assert_eq!(resolved.roots.assets, "/etc/site/assets");
    assert_eq!(resolved.roots.output, "/etc/site/out");
    assert_eq!(resolved.inputs.index, "/etc/site/src/index.md");
    assert_eq!(resolved.inputs.keep, "/etc/site/src/_keep.md");
    assert_eq!(resolved.lib.prelude_location, "/lib/prelude.html");
    assert_eq!(resolved.lib.styles.chunks_root, "/lib/style-chunks");
    assert_eq!(resolved.theme, "InspiredGitHub");
}

#[test]
fn config_explicit_entries_win() {
    let config = Config {
        roots: RootsConfig {
            source: String::from("/s"),
            lib: String::from("/l"),
            assets: String::from("/a"),
            output: String::from("/o"),
        },
        inputs: Some(InputsConfig {
            index: Some(String::from("start.md")),
            keep: Some(String::from("/k/_keep.md")),
        }),
        lib: Some(LibConfig {
            prelude_location: Some(String::from("shell.html")),
            styles: StylesConfig {
                chunks_root: Some(String::from("/chunks")),
                css: vec![(String::from("link"), String::from("custom.css"))],
            },
        }),
    };
    let folder = String::from("/etc/site");
    let resolved = config.resolve(&folder, String::from("theme"));
    assert_eq!(resolved.inputs.index, "/etc/site/start.md");
    assert_eq!(resolved.inputs.keep, "/k/_keep.md");
    assert_eq!(resolved.lib.prelude_location, "/etc/site/shell.html");
    assert_eq!(resolved.lib.styles.chunks_root, "/chunks");
    assert_eq!(resolved.lib.styles.css.len(), 1);
    assert_eq!(resolved.lib.styles.css[0].0, "link");
    assert_eq!(resolved.lib.styles.css[0].1, "/etc/site/custom.css");
}

#[test]
fn dag_walks_dependencies_in_order() {
    let mut dag = DependencyDAG::new(Dependency {
        path: String::from("/src/index.md"),
        ty: DependencyType::Page,
    });
    let a = dag.add_dependency(DAGNodeId(0), Dependency {
        path: String::from("/src/a.md"),
        ty: DependencyType::Page,
    });
    let b = dag.add_dependency(DAGNodeId(0), Dependency {
        path: String::from("/lib/style.css"),
        ty: DependencyType::StyleChunk,
    });
    let c = dag.add_dependency(a, Dependency {
        path: String::from("https://example.com/i.png"),
        ty: DependencyType::Image { needs_reprocessing: true },
    });
    assert_eq!(dag.get(a).path, "/src/a.md");
    assert_eq!(dag.get(b).path, "/lib/style.css");
    // visiting order: root, then a (and under it c), then b; each node
    // once, since no node has two dependents here
    let order: Vec<usize> = dag.walk(DAGNodeId(0)).iter().map(|id| id.0).collect();
    assert_eq!(order, vec![0, 1, 3, 2]);
    let all = dag.destructive_walk();
    assert_eq!(all.len(), 4);
    assert_eq!(all[0].path, "/src/index.md");
    assert_eq!(all[1].path, "/src/a.md");
    assert_eq!(c.0, 3);
}
