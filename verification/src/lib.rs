//! Incremental static-site build engine: a work-item scheduler with
//! discovery-driven deduplication, a markdown-to-HTML page transform
//! (frontmatter, heading slugs, table of contents, link and image
//! rewriting, syntax highlighting), per-asset pipelines (image, font,
//! style chunk) and the freshness rules that decide when cached output
//! may be reused.

use vstd::prelude::*;

pub mod config;
pub mod dag;
pub mod digest;
pub mod errors;
pub mod freshness;
pub mod frontmatter;
pub mod headings;
pub mod highlight;
pub mod markdown;
pub mod minify;
pub mod prelude_html;
pub mod processor;
pub mod rewrite;
pub mod scheduler;
pub mod sitepath;
pub mod slug;
pub mod stylechunk;
pub mod styleset;
pub mod text;
pub mod urlinfo;
pub mod workitem;

pub use config::Config;
pub use config::InputsConfig;
pub use config::LibConfig;
pub use config::ResolvedConfig;
pub use config::ResolvedInputsConfig;
pub use config::ResolvedLibConfig;
pub use config::ResolvedRootsConfig;
pub use config::ResolvedStylesConfig;
pub use config::RootsConfig;
pub use config::StylesConfig;
pub use dag::DAGNodeId;
pub use dag::Dependency;
pub use dag::DependencyDAG;
pub use dag::DependencyType;
pub use errors::record_error;
pub use errors::EngineError;
pub use freshness::asset_is_fresh;
pub use frontmatter::Frontmatter;
pub use frontmatter::SiteDate;
pub use processor::assemble_page;
pub use processor::image_kind_of_content_type;
pub use processor::image_needs_transcode;
pub use processor::ImgKind;
pub use processor::PageParts;
pub use processor::Processor;
pub use scheduler::lemma_render_at_most_once;
pub use scheduler::Scheduler;
pub use scheduler::SchedulerModel;
pub use scheduler::SchedulerOp;
pub use sitepath::PathHelper;
pub use slug::slugify;
pub use slug::SlugTable;
pub use workitem::WorkItem;
pub use workitem::WorkItemId;

verus! {

} // verus!
