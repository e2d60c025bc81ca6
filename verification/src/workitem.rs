//! Work items: the units of schedulable work. An item's identity is its tag
//! together with its payload; the scheduler deduplicates on that identity.

use vstd::prelude::*;

verus! {

/// The mathematical identity of a work item: the tag and the payload's
/// character sequences.
pub enum WorkItemId {
    Index,
    Keep,
    Image { input: Seq<char>, output: Seq<char> },
    Font { input: Seq<char>, output: Seq<char> },
    Style(Seq<char>),
    Page(Seq<char>),
}

/// A unit of schedulable work.
#[derive(Debug)]
pub enum WorkItem {
    /// The site's index page.
    Index,
    /// The placeholder that keeps a directory populated without publishing
    /// visible content; it runs the page pipeline but never writes output.
    Keep,
    /// An image, fetched from `input` (a URL) and written to
    /// `images/{output}.webp`.
    Image { input: String, output: String },
    /// A web font, fetched from `input` (a URL) and stored as
    /// `fonts/{output}`.
    Font { input: String, output: String },
    /// A CSS style chunk, minified to `css/{name}.css`.
    Style(String),
    /// A markdown source document (by source path), rendered to HTML.
    Page(String),
}

impl View for WorkItem {
    type V = WorkItemId;

    open spec fn view(&self) -> WorkItemId {
        match self {
            WorkItem::Index => WorkItemId::Index,
            WorkItem::Keep => WorkItemId::Keep,
            WorkItem::Image { input, output } => WorkItemId::Image {
                input: input@,
                output: output@,
            },
            WorkItem::Font { input, output } => WorkItemId::Font {
                input: input@,
                output: output@,
            },
            WorkItem::Style(name) => WorkItemId::Style(name@),
            WorkItem::Page(path) => WorkItemId::Page(path@),
        }
    }
}

impl Clone for WorkItem {
    /// A clone has the same identity.
    fn clone(&self) -> (r: WorkItem)
        ensures
            r@ == self@,
    {
        match self {
            WorkItem::Index => WorkItem::Index,
            WorkItem::Keep => WorkItem::Keep,
            WorkItem::Image { input, output } => WorkItem::Image {
                input: input.clone(),
                output: output.clone(),
            },
            WorkItem::Font { input, output } => WorkItem::Font {
                input: input.clone(),
                output: output.clone(),
            },
            WorkItem::Style(name) => WorkItem::Style(name.clone()),
            WorkItem::Page(path) => WorkItem::Page(path.clone()),
        }
    }
}

impl PartialEq for WorkItem {
    /// Identity equality: same tag, same payload.
    fn eq(&self, other: &WorkItem) -> (r: bool) {
        match (self, other) {
            (WorkItem::Index, WorkItem::Index) => true,
            (WorkItem::Keep, WorkItem::Keep) => true,
            (
                WorkItem::Image { input: a, output: b },
                WorkItem::Image { input: c, output: d },
            ) => *a == *c && *b == *d,
            (
                WorkItem::Font { input: a, output: b },
                WorkItem::Font { input: c, output: d },
            ) => *a == *c && *b == *d,
            (WorkItem::Style(a), WorkItem::Style(c)) => *a == *c,
            (WorkItem::Page(a), WorkItem::Page(c)) => *a == *c,
            _ => false,
        }
    }
}

impl Eq for WorkItem {

}

impl vstd::std_specs::cmp::PartialEqSpecImpl for WorkItem {
    open spec fn obeys_eq_spec() -> bool {
        true
    }

    open spec fn eq_spec(&self, other: &WorkItem) -> bool {
        self@ == other@
    }
}

} // verus!
