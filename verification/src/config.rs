//! Configuration. The raw configuration (as the driver parsed it from the
//! configuration file) resolves into absolute root paths shared read-only
//! by all workers. Resolution here is the path arithmetic alone — joining
//! relative entries onto the configuration file's folder and filling
//! defaults; canonicalization against the file system is the driver's.
//!
//! Per-category CSS overrides are an association list of
//! `(category, path)` pairs.

use vstd::prelude::*;

use crate::sitepath::is_absolute;
use crate::sitepath::path_join;
use crate::sitepath::PathHelper;
use crate::text::chars_to_string;
use crate::text::str_to_chars;
use crate::sitepath::path_join_x;

verus! {

/// A path entry resolved against a base folder: kept when absolute,
/// joined under the base when relative.
pub open spec fn resolved_path(p: Seq<char>, base: Seq<char>) -> Seq<char> {
    if is_absolute(p) {
        p
    } else {
        path_join(base, p)
    }
}

/// The raw configuration, as read from the configuration file.
pub struct Config {
    /// Source, lib, assets and output roots.
    pub roots: RootsConfig,
    /// Index and keep inputs; defaults fill in when absent.
    pub inputs: Option<InputsConfig>,
    /// Prelude, styles and theme; defaults fill in when absent.
    pub lib: Option<LibConfig>,
}

/// The resolved configuration: absolute paths, immutable for the run.
pub struct ResolvedConfig {
    pub roots: ResolvedRootsConfig,
    pub inputs: ResolvedInputsConfig,
    pub lib: ResolvedLibConfig,
    /// The highlighting theme to use.
    pub theme: String,
}

/// The four root directories, as configured.
pub struct RootsConfig {
    /// Source root.
    pub source: String,
    /// Lib root.
    pub lib: String,
    /// Assets root.
    pub assets: String,
    /// Output root.
    pub output: String,
}

/// The four root directories, resolved.
pub struct ResolvedRootsConfig {
    /// Source root.
    pub source: String,
    /// Lib root.
    pub lib: String,
    /// Assets root.
    pub assets: String,
    /// Output root.
    pub output: String,
}

/// The index and keep source files, as configured.
pub struct InputsConfig {
    /// Index page; defaults to `index.md` in the source root.
    pub index: Option<String>,
    /// Root keep file; defaults to `_keep.md` in the source root.
    pub keep: Option<String>,
}

/// The index and keep source files, resolved.
pub struct ResolvedInputsConfig {
    /// Index page.
    pub index: String,
    /// Root keep file.
    pub keep: String,
}

/// The prelude and style configuration, as configured.
pub struct LibConfig {
    /// Prelude location; defaults to `prelude.html` in the lib root.
    pub prelude_location: Option<String>,
    /// Style configuration.
    pub styles: StylesConfig,
}

/// The prelude and style configuration, resolved.
pub struct ResolvedLibConfig {
    /// Prelude location.
    pub prelude_location: String,
    /// Style configuration.
    pub styles: ResolvedStylesConfig,
}

/// Style chunks, as configured.
pub struct StylesConfig {
    /// Style chunks root; defaults to `style-chunks` in the lib root.
    pub chunks_root: Option<String>,
    /// Per-category CSS filename overrides.
    pub css: Vec<(String, String)>,
}

/// Style chunks, resolved.
pub struct ResolvedStylesConfig {
    /// Style chunks root.
    pub chunks_root: String,
    /// Per-category CSS filename overrides.
    pub css: Vec<(String, String)>,
}

impl Config {
    /// Resolves the whole configuration against the configuration file's
    /// folder; absent sections take their defaults.
    pub fn resolve(self, config_folder: &String, theme: String) -> (r: ResolvedConfig)
        ensures
            r.roots.source@ == resolved_path(self.roots.source@, config_folder@),
            r.roots.lib@ == resolved_path(self.roots.lib@, config_folder@),
            r.roots.assets@ == resolved_path(self.roots.assets@, config_folder@),
            r.roots.output@ == resolved_path(self.roots.output@, config_folder@),
            r.inputs.index@ == (match self.inputs {
                Some(ref i) => match i.index {
                    Some(ref p) => resolved_path(p@, config_folder@),
                    None => path_join(
                        resolved_path(self.roots.source@, config_folder@),
                        "index.md"@,
                    ),
                },
                None => path_join(
                    resolved_path(self.roots.source@, config_folder@),
                    "index.md"@,
                ),
            }),
            r.inputs.keep@ == (match self.inputs {
                Some(ref i) => match i.keep {
                    Some(ref p) => resolved_path(p@, config_folder@),
                    None => path_join(
                        resolved_path(self.roots.source@, config_folder@),
                        "_keep.md"@,
                    ),
                },
                None => path_join(
                    resolved_path(self.roots.source@, config_folder@),
                    "_keep.md"@,
                ),
            }),
            r.lib.prelude_location@ == (match self.lib {
                Some(ref l) => match l.prelude_location {
                    Some(ref p) => resolved_path(p@, config_folder@),
                    None => path_join(
                        resolved_path(self.roots.lib@, config_folder@),
                        "prelude.html"@,
                    ),
                },
                None => path_join(
                    resolved_path(self.roots.lib@, config_folder@),
                    "prelude.html"@,
                ),
            }),
            r.lib.styles.chunks_root@ == (match self.lib {
                Some(ref l) => match l.styles.chunks_root {
                    Some(ref p) => resolved_path(p@, config_folder@),
                    None => path_join(
                        resolved_path(self.roots.lib@, config_folder@),
                        "style-chunks"@,
                    ),
                },
                None => path_join(
                    resolved_path(self.roots.lib@, config_folder@),
                    "style-chunks"@,
                ),
            }),
            r.theme == theme,
    {
        let roots = self.roots.resolve(config_folder);
        let source_root = roots.source.clone();
        let lib_root = roots.lib.clone();
        let inputs = match self.inputs {
            Some(i) => i.resolve(&source_root, config_folder),
            None => InputsConfig { index: None, keep: None }.resolve(
                &source_root,
                config_folder,
            ),
        };
        let lib = match self.lib {
            Some(l) => l.resolve(&lib_root, config_folder),
            None => LibConfig {
                prelude_location: None,
                styles: StylesConfig { chunks_root: None, css: Vec::new() },
            }.resolve(&lib_root, config_folder),
        };
        ResolvedConfig { roots, inputs, lib, theme }
    }
}

impl RootsConfig {
    /// Resolves the four roots against the configuration file's folder.
    pub fn resolve(self, config_location: &String) -> (r: ResolvedRootsConfig)
        ensures
            r.source@ == resolved_path(self.source@, config_location@),
            r.lib@ == resolved_path(self.lib@, config_location@),
            r.assets@ == resolved_path(self.assets@, config_location@),
            r.output@ == resolved_path(self.output@, config_location@),
    {
        ResolvedRootsConfig {
            source: self.source.maybe_suffix(config_location),
            lib: self.lib.maybe_suffix(config_location),
            assets: self.assets.maybe_suffix(config_location),
            output: self.output.maybe_suffix(config_location),
        }
    }
}

impl InputsConfig {
    /// Resolves the index and keep inputs; an absent entry defaults to
    /// its conventional file in the source root.
    pub fn resolve(self, source_root: &String, config_folder: &String) -> (r:
        ResolvedInputsConfig)
        ensures
            r.index@ == (match self.index {
                Some(ref p) => resolved_path(p@, config_folder@),
                None => path_join(source_root@, "index.md"@),
            }),
            r.keep@ == (match self.keep {
                Some(ref p) => resolved_path(p@, config_folder@),
                None => path_join(source_root@, "_keep.md"@),
            }),
    {
        let index = match self.index {
            Some(p) => p.maybe_suffix(config_folder),
            None => {
                let sv = str_to_chars(source_root.as_str());
                let j = path_join_x(&sv, &str_to_chars("index.md"));
                chars_to_string(&j)
            },
        };
        let keep = match self.keep {
            Some(p) => p.maybe_suffix(config_folder),
            None => {
                let sv = str_to_chars(source_root.as_str());
                let j = path_join_x(&sv, &str_to_chars("_keep.md"));
                chars_to_string(&j)
            },
        };
        ResolvedInputsConfig { index, keep }
    }
}

impl LibConfig {
    /// Resolves the prelude location and the style configuration.
    pub fn resolve(self, lib_root: &String, config_folder: &String) -> (r: ResolvedLibConfig)
        ensures
            r.prelude_location@ == (match self.prelude_location {
                Some(ref p) => resolved_path(p@, config_folder@),
                None => path_join(lib_root@, "prelude.html"@),
            }),
            r.styles.chunks_root@ == (match self.styles.chunks_root {
                Some(ref p) => resolved_path(p@, config_folder@),
                None => path_join(lib_root@, "style-chunks"@),
            }),
    {
        let prelude_location = match self.prelude_location {
            Some(p) => p.maybe_suffix(config_folder),
            None => {
                let lv = str_to_chars(lib_root.as_str());
                let j = path_join_x(&lv, &str_to_chars("prelude.html"));
                chars_to_string(&j)
            },
        };
        let styles = self.styles.resolve(lib_root, config_folder);
        ResolvedLibConfig { prelude_location, styles }
    }
}

impl StylesConfig {
    /// Resolves the chunks root and each CSS override.
    pub fn resolve(self, lib_root: &String, config_folder: &String) -> (r:
        ResolvedStylesConfig)
        ensures
            r.chunks_root@ == (match self.chunks_root {
                Some(ref p) => resolved_path(p@, config_folder@),
                None => path_join(lib_root@, "style-chunks"@),
            }),
            r.css@.len() == self.css@.len(),
            forall|i: int|
                0 <= i < self.css@.len() ==> r.css@[i].0@ == self.css@[i].0@ && r.css@[i].1@
                    == resolved_path(self.css@[i].1@, config_folder@),
    {
        let chunks_root = match self.chunks_root {
            Some(p) => p.maybe_suffix(config_folder),
            None => {
                let lv = str_to_chars(lib_root.as_str());
                let j = path_join_x(&lv, &str_to_chars("style-chunks"));
                chars_to_string(&j)
            },
        };
        let mut css: Vec<(String, String)> = Vec::new();
        let mut items = self.css;
        let n = items.len();
        let ghost items0 = items@;
        let mut i: usize = 0;
        while i < n
            invariant
                i <= n,
                n == items0.len(),
                items@ == items0,
                css@.len() == i,
                forall|k: int|
                    0 <= k < i ==> css@[k].0@ == items0[k].0@ && css@[k].1@ == resolved_path(
                        items0[k].1@,
                        config_folder@,
                    ),
            decreases n - i,
        {
            let key = items[i].0.clone();
            let val = items[i].1.maybe_suffix(config_folder);
            css.push((key, val));
            i = i + 1;
        }
        ResolvedStylesConfig { chunks_root, css }
    }
}

} // verus!
