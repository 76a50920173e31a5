//! Parsing of the editor option.
use vstd::prelude::*;

use crate::config::Editor;
use crate::text::{owned, str_eq};

verus! {

/// The error for an editor option that is not one of the three names.
#[derive(Clone, Copy, Debug, PartialEq, Eq, Structural)]
pub struct InvalidEditorError;

impl InvalidEditorError {
    /// The error's message.
    pub fn message(&self) -> (r: String)
        ensures
            r@ == "invalid Editor option, must be one of |generic|vscode|obsidian|"@,
    {
        owned("invalid Editor option, must be one of |generic|vscode|obsidian|")
    }
}

/// The editor that a name stands for.
pub open spec fn editor_named(s: Seq<char>) -> Option<Editor> {
    if s == "generic"@ {
        Some(Editor::Generic)
    } else if s == "vscode"@ {
        Some(Editor::Vscode)
    } else if s == "obsidian"@ {
        Some(Editor::Obsidian)
    } else {
        None
    }
}

/// Parses `generic`, `vscode` or `obsidian`.
pub fn editor_from_str(s: &str) -> (r: Result<Editor, InvalidEditorError>)
    ensures
        match editor_named(s@) {
            Some(e) => r == Ok::<Editor, InvalidEditorError>(e),
            None => r == Err::<Editor, InvalidEditorError>(InvalidEditorError),
        },
{
    if str_eq(s, "generic") {
        Ok(Editor::Generic)
    } else if str_eq(s, "vscode") {
        Ok(Editor::Vscode)
    } else if str_eq(s, "obsidian") {
        Ok(Editor::Obsidian)
    } else {
        Err(InvalidEditorError)
    }
}

} // verus!
