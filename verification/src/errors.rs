//! The engine's error type. Outside crates' errors are mapped onto it at
//! the trusted boundary; I/O failures are mapped onto it by the driver.

use vstd::prelude::*;

use vstd::string::StringExecFns;

verus! {

/// Why an item's render failed.
#[derive(Debug)]
pub enum EngineError {
    /// An image arrived with an unknown or unsupported content type; the
    /// offending type is carried so the report can name it.
    UnknownImageType(String),
    /// The HTML minifier rejected the assembled page.
    MinifyHtml,
    /// The CSS minifier rejected the style chunk.
    MinifyCss,
    /// Reading a source or writing an output failed.
    Io,
}

impl PartialEq for EngineError {
    /// Same failure, including the carried content type.
    fn eq(&self, other: &EngineError) -> (r: bool) {
        match (self, other) {
            (EngineError::UnknownImageType(a), EngineError::UnknownImageType(b)) => *a == *b,
            (EngineError::MinifyHtml, EngineError::MinifyHtml) => true,
            (EngineError::MinifyCss, EngineError::MinifyCss) => true,
            (EngineError::Io, EngineError::Io) => true,
            _ => false,
        }
    }
}

impl Eq for EngineError {

}

impl vstd::std_specs::cmp::PartialEqSpecImpl for EngineError {
    open spec fn obeys_eq_spec() -> bool {
        true
    }

    open spec fn eq_spec(&self, other: &EngineError) -> bool {
        match (self, other) {
            (EngineError::UnknownImageType(a), EngineError::UnknownImageType(b)) => a@ == b@,
            (EngineError::MinifyHtml, EngineError::MinifyHtml) => true,
            (EngineError::MinifyCss, EngineError::MinifyCss) => true,
            (EngineError::Io, EngineError::Io) => true,
            _ => false,
        }
    }
}

impl EngineError {
    /// The report line for this failure; an unknown content type is named
    /// in it.
    pub fn message(&self) -> (r: String)
        ensures
            match self {
                EngineError::UnknownImageType(ct) => r@ == "unknown content type for image: "@
                    + ct@,
                EngineError::MinifyHtml => r@ == "minify failed"@,
                EngineError::MinifyCss => r@ == "minify failed"@,
                EngineError::Io => r@ == "i/o failed"@,
            },
    {
        match self {
            EngineError::UnknownImageType(ct) => {
                let mut r = String::from_str("unknown content type for image: ");
                r.append(ct.as_str());
                r
            },
            EngineError::MinifyHtml => String::from_str("minify failed"),
            EngineError::MinifyCss => String::from_str("minify failed"),
            EngineError::Io => String::from_str("i/o failed"),
        }
    }
}

/// The run's failure policy, a deliberate choice: the first error
/// encountered becomes the overall result, and errors from
/// already-dispatched siblings (which run to completion, without
/// cancellation) never replace it.
pub fn record_error<E>(overall: Option<E>, incoming: Option<E>) -> (r: Option<E>)
    ensures
        overall is Some ==> r == overall,
        overall is None ==> r == incoming,
{
    match overall {
        Some(e) => Some(e),
        None => incoming,
    }
}

} // verus!
