//! The freshness oracle: per item kind, decides whether cached output may
//! be reused. Callers gather the file-system facts (existence, modification
//! times) and hand them in as plain values; the decisions themselves are
//! pure.
//!
//! The style rule and the page rule deliberately point in opposite
//! directions: a style chunk is fresh only when the output is strictly
//! newer than the source, while a page is rebuilt whenever the source is
//! at least as new as the output (or either time is unavailable).

use vstd::prelude::*;

verus! {

/// What the page pipeline does with a rendered page.
#[derive(PartialEq, Eq, Structural, Debug, Clone, Copy)]
pub enum PageAction {
    /// Output is fresh: nothing to do.
    Skip,
    /// Write the rendered page to its output file.
    Write,
    /// The item is `Keep`: run the pipeline for its side effects, but never
    /// write an output file.
    SkipKeep,
}

/// What to do about an item's source before any work: a missing source
/// file or style chunk is a silent skip — informational, never an error.
#[derive(PartialEq, Eq, Structural, Debug, Clone, Copy)]
pub enum SourceAction {
    /// The source is absent: skip the item without error.
    SkipMissing,
    /// The source is there: run the item's pipeline.
    Render,
}

/// Decides what a missing source means, as the error-handling rules say:
/// skip, not a failure.
pub fn source_action(source_exists: bool) -> (a: SourceAction)
    ensures
        (a == SourceAction::Render) == source_exists,
        (a == SourceAction::SkipMissing) == !source_exists,
{
    if source_exists {
        SourceAction::Render
    } else {
        SourceAction::SkipMissing
    }
}

/// Images and fonts are fresh when the output already exists and the run is
/// not forced; remote sources have no reliable local mtime, so existence is
/// the whole check.
pub fn asset_is_fresh(force: bool, output_exists: bool) -> (fresh: bool)
    ensures
        fresh == asset_fresh_spec(force, output_exists),
{
    !force && output_exists
}

/// A style chunk is fresh when, without forcing, its output exists and was
/// modified strictly later than its source. `out_mtime` is `None` when the
/// output's metadata is unavailable. The source is known to exist (a
/// missing chunk is skipped before this question is asked), so its mtime
/// is a plain value.
pub fn style_is_fresh(force: bool, out_mtime: Option<u64>, src_mtime: u64) -> (fresh: bool)
    ensures
        fresh == style_fresh_spec(force, out_mtime, src_mtime),
{
    !force && match out_mtime {
        Some(o) => o > src_mtime,
        None => false,
    }
}

/// Whether a page needs to be rendered again: when the source is at least
/// as new as the output, or when either side's metadata is unavailable.
pub open spec fn page_needs_update(src_mtime: Option<u64>, out_mtime: Option<u64>) -> bool {
    match (src_mtime, out_mtime) {
        (Some(s), Some(o)) => s >= o,
        _ => true,
    }
}

/// What to do with a rendered page. The `Keep` item never writes, whatever
/// the times and whether or not the run is forced; any other page writes
/// exactly when it needs an update or the run is forced.
pub fn page_action(force: bool, is_keep: bool, src_mtime: Option<u64>, out_mtime: Option<u64>) -> (
    a: PageAction)
    ensures
        a == page_action_spec(force, is_keep, src_mtime, out_mtime),
        is_keep ==> a != PageAction::Write,
        is_keep ==> a == PageAction::SkipKeep,
        !is_keep ==> (a == PageAction::Write) == (page_needs_update(src_mtime, out_mtime)
            || force),
        !is_keep ==> (a == PageAction::Skip) == (!page_needs_update(src_mtime, out_mtime)
            && !force),
{
    let needs = match (src_mtime, out_mtime) {
        (Some(s), Some(o)) => s >= o,
        _ => true,
    };
    if is_keep {
        PageAction::SkipKeep
    } else if needs || force {
        PageAction::Write
    } else {
        PageAction::Skip
    }
}

/// LAW: re-running without `force` against unchanged sources performs no
/// writes. After a completed run every output exists and is strictly newer
/// than its unchanged source, and under exactly those facts each kind's
/// freshness decision is to skip.
pub proof fn lemma_unforced_rerun_writes_nothing(
    src_mtime: u64,
    out_mtime: u64,
    is_keep: bool,
)
    requires
        out_mtime > src_mtime,
    ensures
        asset_fresh_spec(false, true),
        style_fresh_spec(false, Some(out_mtime), src_mtime),
        page_action_spec(false, is_keep, Some(src_mtime), Some(out_mtime)) != PageAction::Write,
{
}

/// The asset decision, as a spec.
pub open spec fn asset_fresh_spec(force: bool, output_exists: bool) -> bool {
    !force && output_exists
}

/// The style decision, as a spec.
pub open spec fn style_fresh_spec(force: bool, out_mtime: Option<u64>, src_mtime: u64) -> bool {
    !force && out_mtime is Some && out_mtime.unwrap() > src_mtime
}

/// The page decision, as a spec.
pub open spec fn page_action_spec(
    force: bool,
    is_keep: bool,
    src_mtime: Option<u64>,
    out_mtime: Option<u64>,
) -> PageAction {
    if is_keep {
        PageAction::SkipKeep
    } else if page_needs_update(src_mtime, out_mtime) || force {
        PageAction::Write
    } else {
        PageAction::Skip
    }
}

} // verus!
