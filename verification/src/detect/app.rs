//! The identity of the tool itself. It travels in the headers of a
//! submission and nowhere else.

use vstd::prelude::*;

verus! {

/// The tool's declared name and version.
#[derive(Debug, Clone, PartialEq, Eq)]
pub struct AppInfo {
    /// The name of the tool.
    pub detect_app: String,
    /// The version of the tool.
    pub detect_version: String,
}

/// The text of an [`AppInfo`].
pub struct AppFacts {
    pub detect_app: Seq<char>,
    pub detect_version: Seq<char>,
}

impl View for AppInfo {
    type V = AppFacts;

    open spec fn view(&self) -> AppFacts {
        AppFacts { detect_app: self.detect_app@, detect_version: self.detect_version@ }
    }
}

/// The name under which the tool is built.
pub const NAME: &'static str = "licker";

/// The version under which the tool is built.
pub const VERSION: &'static str = "0.1.0";

/// The tool's own name and version. They are fixed when the tool is built,
/// so this always gives the same answer.
pub fn info() -> (app: AppInfo)
    ensures
        app@ == (AppFacts { detect_app: NAME@, detect_version: VERSION@ }),
{
    AppInfo { detect_app: NAME.to_owned(), detect_version: VERSION.to_owned() }
}

} // verus!
