use vstd::prelude::*;
use vstd::string::StringExecFns;

pub mod args;
pub mod registry;
pub mod template;
pub mod paths;
pub mod legend;
pub mod encode;
pub mod content;
pub mod events;

verus! {

/// The error taxonomy of the documentation previewer.
///
/// Request-scoped errors (`PathEscape`, `NotFound`, `Render`) are turned into
/// textual responses at the HTTP boundary; `IndexScan` is fatal only when the
/// sandbox root itself cannot be scanned; `WatchSetup` is fatal to the
/// process; `SendFailed` is per-connection and only ever causes that
/// connection's eviction.
#[derive(Clone, Copy, PartialEq, Eq, Structural, Debug)]
pub enum DocsmanError {
    PathEscape,
    NotFound,
    Render,
    IndexScan,
    WatchSetup,
    SendFailed,
}

impl DocsmanError {
    /// The generic response text for this error. It is deliberately generic:
    /// in particular, a path escape never reveals the real filesystem
    /// layout.
    pub fn message(&self) -> (m: String)
        ensures
            self is PathEscape ==> m@ == "Accessing path outside of base directory is not allowed"@,
            self is NotFound ==> m@ == "Failed to read file"@,
            self is Render ==> m@ == "Failed to render page"@,
            self is IndexScan ==> m@ == "Failed to scan root directory"@,
            self is WatchSetup ==> m@ == "Failed to watch"@,
            self is SendFailed ==> m@ == "Failed to send to client"@,
    {
        match self {
            DocsmanError::PathEscape => String::from_str(
                "Accessing path outside of base directory is not allowed",
            ),
            DocsmanError::NotFound => String::from_str("Failed to read file"),
            DocsmanError::Render => String::from_str("Failed to render page"),
            DocsmanError::IndexScan => String::from_str("Failed to scan root directory"),
            DocsmanError::WatchSetup => String::from_str("Failed to watch"),
            DocsmanError::SendFailed => String::from_str("Failed to send to client"),
        }
    }
}

} // verus!
