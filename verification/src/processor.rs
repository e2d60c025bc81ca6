//! The processor: owns the resolved configuration and the scheduler, and
//! carries a page or asset through its pipeline. Everything that computes
//! stands here, verified; the driver around it does the reading, fetching
//! and writing and hands the answers in as plain values.

use vstd::prelude::*;
use vstd::string::StringExecFns;

use crate::config::ResolvedConfig;
use crate::errors::EngineError;
use crate::frontmatter::extract_fm_spec;
use crate::frontmatter::extract_frontmatter;
use crate::frontmatter::fm_of;
use crate::frontmatter::Frontmatter;
use crate::frontmatter::FrontmatterView;
use crate::headings::headings_rec;
use crate::headings::render_toc;
use crate::headings::setup_header_links;
use crate::headings::toc_spec;
use crate::headings::TocEntry;
use crate::headings::TocEntryId;
use crate::highlight::code_splice_spec;
use crate::highlight::has_code_block;
use crate::highlight::highlight_code_blocks;
use crate::markdown::html_of;
use crate::markdown::md_to_html;
use crate::prelude_html::date_str;
use crate::prelude_html::expand_regions;
use crate::prelude_html::format_date;
use crate::prelude_html::regions_spec;
use crate::rewrite::find_link_targets;
use crate::rewrite::img_rec;
use crate::rewrite::link_targets;
use crate::rewrite::links_rec;
use crate::rewrite::rewrite_images;
use crate::rewrite::rewrite_links;
use crate::scheduler::enqueue_all;
use crate::scheduler::Scheduler;
use crate::scheduler::SchedulerModel;
use crate::scheduler::SchedulerOp;
use crate::sitepath::parent_of;
use crate::sitepath::parent_of_x;
use crate::sitepath::path_join;
use crate::sitepath::path_join_x;
use crate::sitepath::strip_prefix_dir;
use crate::sitepath::strip_prefix_dir_x;
use crate::sitepath::with_extension;
use crate::sitepath::with_extension_x;
use crate::slug::SlugTable;
use crate::styleset::StyleSet;
use crate::text::chars_eq;
use crate::text::chars_to_string;
use crate::text::find_at;
use crate::text::find_from;
use crate::text::join_spec;
use crate::text::push_all;
use crate::text::replace_all;
use crate::text::replace_all_spec;
use crate::text::str_to_chars;
use crate::workitem::WorkItem;
use crate::workitem::WorkItemId;

verus! {

/// What the image pipeline must do with a fetched image.
#[derive(Debug, Clone, Copy, PartialEq, Eq, Structural)]
pub enum ImgKind {
    Webp,
    Png,
    Jpeg,
    Gif,
}

/// The image format a response's content type announces; anything else is
/// a hard error for the item, carrying the offending content type so the
/// report names it.
pub fn image_kind_of_content_type(ct: &str) -> (r: Result<ImgKind, EngineError>)
    ensures
        (r == Ok::<ImgKind, EngineError>(ImgKind::Webp)) == (ct@ == "image/webp"@),
        (r == Ok::<ImgKind, EngineError>(ImgKind::Png)) == (ct@ == "image/png"@),
        (r == Ok::<ImgKind, EngineError>(ImgKind::Jpeg)) == (ct@ == "image/jpeg"@),
        (r == Ok::<ImgKind, EngineError>(ImgKind::Gif)) == (ct@ == "image/gif"@),
        r is Err ==> (match r.unwrap_err() {
            EngineError::UnknownImageType(named) => named@ == ct@,
            _ => false,
        }),
{
    proof {
        reveal_strlit("image/webp");
        reveal_strlit("image/png");
        reveal_strlit("image/jpeg");
        reveal_strlit("image/gif");
        assert("image/webp"@ != "image/png"@) by {
            assert("image/webp"@.len() != "image/png"@.len());
        }
        assert("image/webp"@ != "image/jpeg"@) by {
            assert("image/webp"@[6] != "image/jpeg"@[6]);
        }
        assert("image/webp"@ != "image/gif"@) by {
            assert("image/webp"@.len() != "image/gif"@.len());
        }
        assert("image/png"@ != "image/jpeg"@) by {
            assert("image/png"@.len() != "image/jpeg"@.len());
        }
        assert("image/png"@ != "image/gif"@) by {
            assert("image/png"@[6] != "image/gif"@[6]);
        }
        assert("image/jpeg"@ != "image/gif"@) by {
            assert("image/jpeg"@.len() != "image/gif"@.len());
        }
    }
    let cv = str_to_chars(ct);
    if chars_eq(&cv, &str_to_chars("image/webp")) {
        Ok(ImgKind::Webp)
    } else if chars_eq(&cv, &str_to_chars("image/png")) {
        Ok(ImgKind::Png)
    } else if chars_eq(&cv, &str_to_chars("image/jpeg")) {
        Ok(ImgKind::Jpeg)
    } else if chars_eq(&cv, &str_to_chars("image/gif")) {
        Ok(ImgKind::Gif)
    } else {
        Err(EngineError::UnknownImageType(String::from_str(ct)))
    }
}

/// Whether a fetched image is byte-copied (already WebP) or decoded and
/// re-encoded to WebP.
pub fn image_needs_transcode(kind: ImgKind) -> (r: bool)
    ensures
        r == (kind != ImgKind::Webp),
{
    match kind {
        ImgKind::Webp => false,
        _ => true,
    }
}

/// The categories a page's styles hold, given its (link-rewritten) body
/// and what the later passes found: the global seed always; paragraph,
/// image, link and h1 when the body shows them; code when a highlighted
/// block was found; toc and link when the table of contents is nonempty.
pub open spec fn style_cats(body: Seq<char>, code: bool, toc: bool) -> Set<Seq<char>> {
    let base = Set::<Seq<char>>::empty().insert("_global"@);
    let a = if find_at(body, 0, "<p>"@) is Some {
        base.insert("paragraph"@)
    } else {
        base
    };
    let b = if find_at(body, 0, "<img"@) is Some {
        a.insert("image"@)
    } else {
        a
    };
    let c = if find_at(body, 0, "<a "@) is Some {
        b.insert("link"@)
    } else {
        b
    };
    let d = if find_at(body, 0, "<h1>"@) is Some {
        c.insert("h1"@)
    } else {
        c
    };
    let e = if code {
        d.insert("code"@)
    } else {
        d
    };
    if toc {
        e.insert("toc"@).insert("link"@)
    } else {
        e
    }
}

/// A page part-way through its pipeline: the body after frontmatter
/// extraction, markdown rendering and image rewriting, the parsed
/// frontmatter, and the link targets awaiting resolution.
pub struct PageParts {
    /// The page's HTML body so far.
    pub body: String,
    /// The frontmatter, if the page had a parseable block.
    pub frontmatter: Option<Frontmatter>,
    /// The candidate source files of the page's hyperref links, for the
    /// driver to resolve.
    pub link_candidates: Vec<String>,
}

/// The body after frontmatter extraction, markdown rendering and image
/// rewriting.
pub open spec fn page_body_spec(source: Seq<char>) -> Seq<char> {
    img_rec(html_of(extract_fm_spec(source).1)).0
}

/// The image items the page discovers.
pub open spec fn page_image_items(source: Seq<char>) -> Seq<WorkItemId> {
    img_rec(html_of(extract_fm_spec(source).1)).1
}

/// The frontmatter the page carries.
pub open spec fn page_fm_spec(source: Seq<char>) -> Option<FrontmatterView> {
    match extract_fm_spec(source).0 {
        Some(b) => fm_of(b),
        None => None,
    }
}

/// Processes work items: the scheduler plus the run's configuration.
pub struct Processor {
    /// The resolved configuration, read-only for the run.
    pub config: ResolvedConfig,
    /// The identity sets that make each item render at most once.
    pub sched: Scheduler,
}

impl Processor {
    /// The scheduler is well-formed.
    pub open spec fn inv(&self) -> bool {
        self.sched.inv()
    }

    /// A fresh processor: nothing scheduled yet.
    pub fn new(config: ResolvedConfig) -> (p: Processor)
        ensures
            p.inv(),
            forall|x: WorkItemId| !p.sched.seen(x),
            p.sched.model().queued.is_empty(),
    {
        Processor { config, sched: Scheduler::new() }
    }

    /// Seeds the run with the index page and the keep placeholder.
    pub fn seed_toplevel(&mut self)
        requires
            old(self).inv(),
        ensures
            final(self).inv(),
            final(self).sched.model() == old(self).sched.model().step(
                SchedulerOp::Enqueue(WorkItemId::Index),
            ).step(SchedulerOp::Enqueue(WorkItemId::Keep)),
            final(self).config == old(self).config,
    {
        let _ = self.sched.enqueue_if_new(WorkItem::Index);
        let _ = self.sched.enqueue_if_new(WorkItem::Keep);
    }

    /// The first page stage: extracts and parses the frontmatter, renders
    /// the markdown, rewrites image references (discovering `Image`
    /// items), and collects the hyperref link candidates for the driver
    /// to resolve.
    pub fn prepare_page(&mut self, source_text: &str, page_path: &str) -> (r: PageParts)
        requires
            old(self).inv(),
        ensures
            final(self).inv(),
            final(self).config == old(self).config,
            r.body@ == page_body_spec(source_text@),
            final(self).sched.model() == enqueue_all(
                old(self).sched.model(),
                page_image_items(source_text@),
            ),
            (match r.frontmatter {
                Some(ref fm) => page_fm_spec(source_text@) == Some(fm@) && (fm@.date is Some
                    ==> fm@.date.unwrap().wf()),
                None => page_fm_spec(source_text@) is None,
            }),
            r.link_candidates@.map_values(|s: String| s@) == link_targets(
                page_body_spec(source_text@),
                parent_of(page_path@),
                old(self).config.roots.output@,
            ),
    {
        let sv = str_to_chars(source_text);
        let (block, rest) = extract_frontmatter(&sv);
        let fm = match block {
            Some(b) => {
                let bs = chars_to_string(&b);
                Frontmatter::parse_from_str(bs.as_str())
            },
            None => None,
        };
        let rest_s = chars_to_string(&rest);
        let body0 = md_to_html(rest_s.as_str());
        let bv = str_to_chars(body0.as_str());
        let body1 = rewrite_images(&bv, &mut self.sched);
        let pv = str_to_chars(page_path);
        let page_dir = parent_of_x(&pv);
        let orv = str_to_chars(self.config.roots.output.as_str());
        let candidates = find_link_targets(&body1, &page_dir, &orv);
        PageParts {
            body: chars_to_string(&body1),
            frontmatter: fm,
            link_candidates: candidates,
        }
    }

    /// The second page stage: rewrites the hyperref links against the
    /// driver's resolutions (discovering `Page` items), highlights the
    /// code blocks, gives headings their anchors, prepends the rendered
    /// table of contents, and gathers the style categories.
    pub fn compose_page(
        &mut self,
        body: &str,
        resolutions: &Vec<Option<String>>,
        ss: &syntect::parsing::SyntaxSet,
        theme: &syntect::highlighting::Theme,
    ) -> (r: (String, StyleSet))
        requires
            old(self).inv(),
        ensures
            final(self).inv(),
            final(self).config == old(self).config,
            r.1.inv(),
            ({
                let resv = resolutions@.map_values(
                    |o: Option<String>|
                        match o {
                            Some(s) => Some(s@),
                            None => None,
                        },
                );
                let linked = links_rec(body@, resv, old(self).config.roots.source@).0;
                &&& final(self).sched.model() == enqueue_all(
                    old(self).sched.model(),
                    links_rec(body@, resv, old(self).config.roots.source@).1,
                )
                &&& exists|hs: Seq<Seq<char>>|
                    {
                        let hl = #[trigger] code_splice_spec(linked, hs);
                        let hd = headings_rec(hl, Seq::<Seq<char>>::empty());
                        &&& r.0@ == toc_spec(hd.1) + hd.0
                        &&& r.1.set() == style_cats(
                            linked,
                            has_code_block(linked),
                            hd.1.len() > 0,
                        )
                    }
            }),
    {
        proof {
            reveal_strlit("<p>");
            reveal_strlit("<img");
            reveal_strlit("<a ");
            reveal_strlit("<h1>");
        }
        let bv = str_to_chars(body);
        let srv = str_to_chars(self.config.roots.source.as_str());
        let linked = rewrite_links(&bv, resolutions, &srv, &mut self.sched);
        let (hl, code_found) = highlight_code_blocks(&linked, ss, theme);
        let mut table = SlugTable::new();
        let mut toc: Vec<TocEntry> = Vec::new();
        let headed = setup_header_links(&hl, &mut table, &mut toc);
        let toc_html = render_toc(&toc);
        let mut page = toc_html;
        push_all(&mut page, &headed);
        let mut styles = StyleSet::seeded();
        if find_from(&linked, 0, &str_to_chars("<p>")).is_some() {
            styles.insert("paragraph");
        }
        if find_from(&linked, 0, &str_to_chars("<img")).is_some() {
            styles.insert("image");
        }
        if find_from(&linked, 0, &str_to_chars("<a ")).is_some() {
            styles.insert("link");
        }
        if find_from(&linked, 0, &str_to_chars("<h1>")).is_some() {
            styles.insert("h1");
        }
        if code_found {
            styles.insert("code");
        }
        if toc.len() > 0 {
            styles.insert("toc");
            styles.insert("link");
        }
        proof {
            let ghost hs = choose|hs: Seq<Seq<char>>| hl@ == code_splice_spec(linked@, hs);
            assert(toc@.map_values(|e: TocEntry| e@) =~= Seq::<TocEntryId>::empty()
                + headings_rec(hl@, Seq::<Seq<char>>::empty()).1);
        }
        (chars_to_string(&page), styles)
    }

    /// One `<link>` pair for a style category, pointing at the chunk's
    /// eventual output path under `css/`.
    pub open spec fn style_link_entry(name: Seq<char>) -> Seq<char> {
        "\n    <link rel=\"preload\" href=\"/css/"@ + name
            + ".css\" as=\"style\" />\n    <link rel=\"stylesheet\" type=\"text/css\" href=\"/css/"@
            + name + ".css\" />\n    "@
    }

    /// The style items of the given categories.
    pub open spec fn style_items(names: Seq<Seq<char>>) -> Seq<WorkItemId> {
        names.map_values(|n: Seq<char>| WorkItemId::Style(n))
    }

    /// Builds the `<link>` block for the page's style categories whose
    /// chunk files exist (the driver checked), and discovers a `Style`
    /// item for each.
    pub fn style_links(&mut self, existing: &Vec<String>) -> (r: String)
        requires
            old(self).inv(),
        ensures
            final(self).inv(),
            final(self).config == old(self).config,
            r@ == join_spec(
                existing@.map_values(|n: String| Self::style_link_entry(n@)),
                '\n',
            ),
            final(self).sched.model() == enqueue_all(
                old(self).sched.model(),
                Self::style_items(existing@.map_values(|n: String| n@)),
            ),
    {
        let ghost names = existing@.map_values(|n: String| n@);
        let mut entries: Vec<Vec<char>> = Vec::new();
        let mut i: usize = 0;
        proof {
            assert(Self::style_items(names.subrange(0, 0)) =~= Seq::<WorkItemId>::empty());
            assert(enqueue_all(
                old(self).sched.model(),
                Self::style_items(names.subrange(0, 0)),
            ) == old(self).sched.model());
            assert(entries@.map_values(|v: Vec<char>| v@) =~= names.subrange(0, 0).map_values(
                |n: Seq<char>| Self::style_link_entry(n),
            ));
        }
        while i < existing.len()
            invariant
                self.inv(),
                self.config == old(self).config,
                i <= names.len(),
                names.len() == existing@.len(),
                names == existing@.map_values(|n: String| n@),
                entries@.map_values(|v: Vec<char>| v@) == names.subrange(0, i as int).map_values(
                    |n: Seq<char>| Self::style_link_entry(n),
                ),
                self.sched.model() == enqueue_all(
                    old(self).sched.model(),
                    Self::style_items(names.subrange(0, i as int)),
                ),
            decreases names.len() - i,
        {
            let name = &existing[i];
            let mut e = str_to_chars("\n    <link rel=\"preload\" href=\"/css/");
            let nv = str_to_chars(name.as_str());
            push_all(&mut e, &nv);
            let t = str_to_chars(
                ".css\" as=\"style\" />\n    <link rel=\"stylesheet\" type=\"text/css\" href=\"/css/",
            );
            push_all(&mut e, &t);
            push_all(&mut e, &nv);
            let t2 = str_to_chars(".css\" />\n    ");
            push_all(&mut e, &t2);
            let ghost ev = e@;
            let ghost entries0 = entries@.map_values(|v: Vec<char>| v@);
            entries.push(e);
            let item = WorkItem::Style(name.clone());
            let _ = self.sched.enqueue_if_new(item);
            proof {
                assert(ev =~= Self::style_link_entry(names[i as int]));
                assert(entries@.map_values(|v: Vec<char>| v@) =~= entries0.push(ev));
                assert(entries0.push(ev) =~= names.subrange(0, i + 1).map_values(
                    |n: Seq<char>| Self::style_link_entry(n),
                ));
                lemma_style_items_snoc(old(self).sched.model(), names, i as int);
            }
            i = i + 1;
        }
        proof {
            assert(names.subrange(0, names.len() as int) =~= names);
            assert(names.map_values(|n: Seq<char>| Self::style_link_entry(n))
                =~= existing@.map_values(|n: String| Self::style_link_entry(n@)));
        }
        let joined = crate::text::join_with(&entries, '\n');
        chars_to_string(&joined)
    }

    /// The output path of a rendered page: the source path, relative to
    /// the source root, under the output root with the `html` extension;
    /// a source outside the source root is an error.
    pub fn page_output_path(&self, filename: &str) -> (r: Result<String, EngineError>)
        ensures
            match r {
                Ok(p) => strip_prefix_dir(filename@, self.config.roots.source@) is Some
                    && p@ == with_extension(
                    path_join(
                        self.config.roots.output@,
                        strip_prefix_dir(filename@, self.config.roots.source@).unwrap(),
                    ),
                    "html"@,
                ),
                Err(e) => strip_prefix_dir(filename@, self.config.roots.source@) is None && e
                    == EngineError::Io,
            },
    {
        let fv = str_to_chars(filename);
        let srv = str_to_chars(self.config.roots.source.as_str());
        match strip_prefix_dir_x(&fv, &srv) {
            Some(rel) => {
                let orv = str_to_chars(self.config.roots.output.as_str());
                let joined = path_join_x(&orv, &rel);
                let out = with_extension_x(&joined, &str_to_chars("html"));
                proof {
                    reveal_strlit("html");
                }
                Ok(chars_to_string(&out))
            },
            None => Err(EngineError::Io),
        }
    }

    /// The output path of an image: `images/{key}.webp` under the output
    /// root.
    pub fn image_output_path(&self, output_key: &str) -> (r: String)
        ensures
            r@ == path_join(
                self.config.roots.output@,
                path_join("images"@, with_extension(output_key@, "webp"@)),
            ),
    {
        let kv = str_to_chars(output_key);
        let named = with_extension_x(&kv, &str_to_chars("webp"));
        let dir = path_join_x(&str_to_chars("images"), &named);
        let orv = str_to_chars(self.config.roots.output.as_str());
        let full = path_join_x(&orv, &dir);
        proof {
            reveal_strlit("webp");
            reveal_strlit("images");
        }
        chars_to_string(&full)
    }

    /// The output path of a font: `fonts/{key}` under the output root.
    pub fn font_output_path(&self, output_key: &str) -> (r: String)
        ensures
            r@ == path_join(self.config.roots.output@, path_join("fonts"@, output_key@)),
    {
        let kv = str_to_chars(output_key);
        let dir = path_join_x(&str_to_chars("fonts"), &kv);
        let orv = str_to_chars(self.config.roots.output.as_str());
        let full = path_join_x(&orv, &dir);
        proof {
            reveal_strlit("fonts");
        }
        chars_to_string(&full)
    }

    /// A style chunk's source path (under the chunks root) and output
    /// path (under `css/` in the output root), both with the `css`
    /// extension.
    pub fn style_paths(&self, name: &str) -> (r: (String, String))
        ensures
            r.0@ == with_extension(path_join(self.config.lib.styles.chunks_root@, name@), "css"@),
            r.1@ == with_extension(
                path_join(self.config.roots.output@, path_join("css"@, name@)),
                "css"@,
            ),
    {
        let nv = str_to_chars(name);
        let crv = str_to_chars(self.config.lib.styles.chunks_root.as_str());
        let src = with_extension_x(&path_join_x(&crv, &nv), &str_to_chars("css"));
        let orv = str_to_chars(self.config.roots.output.as_str());
        let outdir = path_join_x(&str_to_chars("css"), &nv);
        let out = with_extension_x(&path_join_x(&orv, &outdir), &str_to_chars("css"));
        proof {
            reveal_strlit("css");
        }
        (chars_to_string(&src), chars_to_string(&out))
    }
}

/// Splitting one more style item off the prefix.
proof fn lemma_style_items_snoc(m: SchedulerModel, names: Seq<Seq<char>>, i: int)
    requires
        0 <= i < names.len(),
    ensures
        enqueue_all(m, Processor::style_items(names.subrange(0, i + 1))) == enqueue_all(
            m,
            Processor::style_items(names.subrange(0, i)),
        ).step(SchedulerOp::Enqueue(WorkItemId::Style(names[i]))),
{
    let a = Processor::style_items(names.subrange(0, i));
    let b = seq![WorkItemId::Style(names[i])];
    assert(Processor::style_items(names.subrange(0, i + 1)) =~= a + b);
    crate::scheduler::lemma_enqueue_all_concat(m, a, b);
    crate::scheduler::lemma_enqueue_all_singleton(
        enqueue_all(m, a),
        WorkItemId::Style(names[i]),
    );
}

/// The assembled page: the prelude with its slots filled (the styles
/// block wrapped in newlines), its date region expanded or removed, and
/// its reading-time region expanded or removed.
pub open spec fn page_html_spec(
    prelude: Seq<char>,
    styles_block: Seq<char>,
    content: Seq<char>,
    title: Seq<char>,
    date: Option<crate::frontmatter::SiteDate>,
    ttr: Option<Seq<char>>,
) -> Seq<char> {
    let a = replace_all_spec(
        prelude,
        "@@@SLOT_STYLES@@@"@,
        seq!['\n'] + styles_block + seq!['\n'],
    );
    let b = replace_all_spec(a, "@@@SLOT_CONTENT@@@"@, content);
    let c = replace_all_spec(b, "@@@SLOT_TITLE@@@"@, title);
    let d = regions_spec(
        c,
        "<!-- @@@IF_DATE@@@ -->"@,
        "<!-- @@@ENDIF@@@ -->"@,
        match date {
            Some(dv) => Some(date_str(dv)),
            None => None,
        },
        "@@@SLOT_DATE@@@"@,
    );
    regions_spec(
        d,
        "<!-- @@@IF_TIME_TO_READ@@@ -->"@,
        "<!-- @@@ENDIF@@@ -->"@,
        ttr,
        "@@@SLOT_TIME_TO_READ@@@"@,
    )
}

/// Assembles the final page from the prelude template, as
/// `page_html_spec` describes. The `Keep` item runs through here too for
/// its side effects; only the write is withheld.
pub fn assemble_page(
    prelude: &str,
    styles_block: &str,
    content: &str,
    title: &str,
    date: Option<&crate::frontmatter::SiteDate>,
    time_to_read: Option<&String>,
) -> (r: String)
    ensures
        r@ == page_html_spec(
            prelude@,
            styles_block@,
            content@,
            title@,
            match date {
                Some(d) => Some(*d),
                None => None,
            },
            match time_to_read {
                Some(t) => Some(t@),
                None => None,
            },
        ),
{
    proof {
        reveal_strlit("@@@SLOT_STYLES@@@");
        reveal_strlit("@@@SLOT_CONTENT@@@");
        reveal_strlit("@@@SLOT_TITLE@@@");
        reveal_strlit("<!-- @@@IF_DATE@@@ -->");
        reveal_strlit("<!-- @@@IF_TIME_TO_READ@@@ -->");
        reveal_strlit("<!-- @@@ENDIF@@@ -->");
        reveal_strlit("@@@SLOT_DATE@@@");
        reveal_strlit("@@@SLOT_TIME_TO_READ@@@");
    }
    let pv = str_to_chars(prelude);
    let mut styles_wrapped: Vec<char> = Vec::new();
    styles_wrapped.push('\n');
    let sb = str_to_chars(styles_block);
    push_all(&mut styles_wrapped, &sb);
    styles_wrapped.push('\n');
    proof {
        assert(styles_wrapped@ =~= seq!['\n'] + styles_block@ + seq!['\n']);
    }
    let a = replace_all(&pv, &str_to_chars("@@@SLOT_STYLES@@@"), &styles_wrapped);
    let b = replace_all(&a, &str_to_chars("@@@SLOT_CONTENT@@@"), &str_to_chars(content));
    let c = replace_all(&b, &str_to_chars("@@@SLOT_TITLE@@@"), &str_to_chars(title));
    let date_payload: Option<Vec<char>> = match date {
        Some(d) => Some(format_date(d)),
        None => None,
    };
    let d = expand_regions(
        &c,
        &str_to_chars("<!-- @@@IF_DATE@@@ -->"),
        &str_to_chars("<!-- @@@ENDIF@@@ -->"),
        match date_payload {
            Some(ref p) => Some(p),
            None => None,
        },
        &str_to_chars("@@@SLOT_DATE@@@"),
    );
    let ttr_payload: Option<Vec<char>> = match time_to_read {
        Some(t) => Some(str_to_chars(t.as_str())),
        None => None,
    };
    let e = expand_regions(
        &d,
        &str_to_chars("<!-- @@@IF_TIME_TO_READ@@@ -->"),
        &str_to_chars("<!-- @@@ENDIF@@@ -->"),
        match ttr_payload {
            Some(ref p) => Some(p),
            None => None,
        },
        &str_to_chars("@@@SLOT_TIME_TO_READ@@@"),
    );
    chars_to_string(&e)
}

} // verus!
