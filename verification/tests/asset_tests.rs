//! The asset pipelines' decisions: freshness, image kinds, output paths,
//! style chunks and font discovery.

use engine::asset_is_fresh;
use engine::freshness::page_action;
use engine::freshness::source_action;
use engine::freshness::SourceAction;
use engine::freshness::style_is_fresh;
use engine::freshness::PageAction;
use engine::image_kind_of_content_type;
use engine::image_needs_transcode;
use engine::minify::minify_css;
use engine::minify::minify_html;
use engine::stylechunk::rewrite_font_urls;
use engine::stylechunk::rewrite_style_chunk;
use engine::stylechunk::scan_font_directives;
use engine::EngineError;
use engine::ImgKind;
use engine::Scheduler;
use engine::WorkItem;

use sha2::Digest;

fn chars(s: &str) -> Vec<char> {
    s.chars().collect()
}

fn string_of(v: &[char]) -> String {
    v.iter().collect()
}

fn sha_hex(s: &str) -> String {
    format!("{:x}", sha2::Sha256::digest(s.as_bytes()))
}

fn drain(sched: &mut Scheduler) -> Vec<WorkItem> {
    let mut taken = Vec::new();
    while let Some(item) = sched.take_next() {
        taken.push(item);
    }
    taken
}

#[test]
fn unchanged_rerun_performs_no_writes() {
    // After a completed run, outputs exist and are newer than their
    // unchanged sources; without force, every kind skips.
    assert!(asset_is_fresh(false, true));
    assert!(style_is_fresh(false, Some(10), 5));
    assert_eq!(page_action(false, false, Some(5), Some(10)), PageAction::Skip);
}

#[test]
fn force_disables_freshness() {
    assert!(!asset_is_fresh(true, true));
    assert!(!style_is_fresh(true, Some(10), 5));
    assert_eq!(page_action(true, false, Some(5), Some(10)), PageAction::Write);
}

#[test]
fn stale_outputs_are_rebuilt() {
    assert!(!asset_is_fresh(false, false));
    assert!(!style_is_fresh(false, Some(3), 5));
    assert!(!style_is_fresh(false, None, 5));
    assert_eq!(page_action(false, false, Some(10), Some(5)), PageAction::Write);
    assert_eq!(page_action(false, false, None, Some(5)), PageAction::Write);
    assert_eq!(page_action(false, false, Some(5), None), PageAction::Write);
    // equal times rebuild too: source mtime >= output mtime
    assert_eq!(page_action(false, false, Some(5), Some(5)), PageAction::Write);
}

#[test]
fn keep_never_writes_even_forced() {
    assert_eq!(page_action(true, true, Some(10), Some(5)), PageAction::SkipKeep);
    assert_eq!(page_action(false, true, None, None), PageAction::SkipKeep);
    assert_eq!(page_action(true, true, None, None), PageAction::SkipKeep);
}

#[test]
fn missing_source_is_a_silent_skip() {
    assert_eq!(source_action(false), SourceAction::SkipMissing);
    assert_eq!(source_action(true), SourceAction::Render);
}

#[test]
fn first_error_wins() {
    // the documented failure policy: the first error encountered is the
    // overall result; later siblings' errors do not replace it
    assert_eq!(engine::record_error::<EngineError>(None, None), None);
    assert_eq!(
        engine::record_error(None, Some(EngineError::MinifyCss)),
        Some(EngineError::MinifyCss)
    );
    assert_eq!(
        engine::record_error(Some(EngineError::Io), Some(EngineError::MinifyCss)),
        Some(EngineError::Io)
    );
    assert_eq!(engine::record_error(Some(EngineError::Io), None), Some(EngineError::Io));
}

#[test]
fn content_types_map_to_kinds() {
    assert_eq!(image_kind_of_content_type("image/webp"), Ok(ImgKind::Webp));
    assert_eq!(image_kind_of_content_type("image/png"), Ok(ImgKind::Png));
    assert_eq!(image_kind_of_content_type("image/jpeg"), Ok(ImgKind::Jpeg));
    assert_eq!(image_kind_of_content_type("image/gif"), Ok(ImgKind::Gif));
    assert_eq!(
        image_kind_of_content_type("text/html"),
        Err(EngineError::UnknownImageType(String::from("text/html")))
    );
}

#[test]
fn unknown_content_type_error_names_the_type() {
    let err = image_kind_of_content_type("application/pdf").expect_err("not an image type");
    assert_eq!(
        err.message(),
        "unknown content type for image: application/pdf"
    );
    assert_eq!(EngineError::Io.message(), "i/o failed");
    assert_eq!(EngineError::MinifyHtml.message(), "minify failed");
}

#[test]
fn only_webp_skips_the_transcode() {
    assert!(!image_needs_transcode(ImgKind::Webp));
    assert!(image_needs_transcode(ImgKind::Png));
    assert!(image_needs_transcode(ImgKind::Jpeg));
    assert!(image_needs_transcode(ImgKind::Gif));
}

#[test]
fn font_directive_is_scanned() {
    let css = chars("/** @font https://fonts.example/f.css */\nbody { color: red; }");
    let urls = scan_font_directives(&css);
    assert_eq!(urls, vec![String::from("https://fonts.example/f.css")]);
}

#[test]
fn comment_without_directive_is_ignored() {
    let css = chars("/** just a note */ body {}");
    let urls = scan_font_directives(&css);
    assert!(urls.is_empty());
}

#[test]
fn same_font_url_twice_enqueues_one_item() {
    let body = chars(
        "@font-face{src:url(https://f.example/a.woff)}@font-face{src:url(https://f.example/a.woff)}",
    );
    let mut sched = Scheduler::new();
    let out = rewrite_font_urls(&body, &mut sched);
    let hash = sha_hex("https://f.example/a.woff");
    let expected_name = format!("{}.woff", hash);
    assert!(string_of(&out).contains(&format!("url(/fonts/{})", expected_name)));
    let items = drain(&mut sched);
    assert_eq!(items.len(), 1);
    assert_eq!(
        items[0],
        WorkItem::Font {
            input: String::from("https://f.example/a.woff"),
            output: expected_name,
        }
    );
}

#[test]
fn font_extension_is_kept_from_the_last_segment() {
    let body = chars("url(https://f.example/dir/face.woff2)");
    let mut sched = Scheduler::new();
    let out = rewrite_font_urls(&body, &mut sched);
    let hash = sha_hex("https://f.example/dir/face.woff2");
    assert_eq!(string_of(&out), format!("url(/fonts/{}.woff2)", hash));
}

#[test]
fn style_chunk_directive_is_replaced_by_rewritten_body() {
    let css = chars("h1 {}\n/** @font https://fonts.example/f.css */\np {}");
    let urls = scan_font_directives(&css);
    assert_eq!(urls.len(), 1);
    let fetched = vec![String::from("@font-face{src:url(https://f.example/a.woff)}")];
    let mut sched = Scheduler::new();
    let out = rewrite_style_chunk(&css, &fetched, &mut sched);
    let hash = sha_hex("https://f.example/a.woff");
    assert_eq!(
        string_of(&out),
        format!("h1 {{}}\n@font-face{{src:url(/fonts/{}.woff)}}\np {{}}", hash)
    );
    assert_eq!(drain(&mut sched).len(), 1);
}

#[test]
fn css_minify_shrinks_whitespace() {
    let out = minify_css("body {\n    color : red ;\n}\n").expect("valid css");
    assert!(!out.contains("\n    "));
    assert!(out.contains("color"));
    assert_ne!(out, "body {\n    color : red ;\n}\n");
}

#[test]
fn html_minify_shrinks_whitespace() {
    let input = "<html>  <body>   <p>hi</p>   </body>  </html>";
    let out = minify_html(input).expect("valid html");
    assert!(out.len() < input.len());
    assert!(out.contains("<p>hi</p>"));
}
