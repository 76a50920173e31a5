//! Note templates: where a template lives and how its placeholder is filled.
use vstd::prelude::*;

use crate::text::{join_path, owned, path_join, push_str, replace, replace_all};

verus! {

/// The placeholder that note templates carry for the note's date.
pub open spec fn date_placeholder() -> Seq<char> {
    "{{date}}"@
}

/// Replaces every `{{date}}` in template content with the given date text.
pub fn update_template_variables(content: &str, date: &str) -> (r: String)
    ensures
        r@ == replace_all(content@, date_placeholder(), date@),
{
    proof {
        reveal_strlit("{{date}}");
    }
    replace(content, "{{date}}", date)
}

/// Whether `pat` occurs in `s`.
pub open spec fn occurs_in(pat: Seq<char>, s: Seq<char>) -> bool {
    exists|i: int| 0 <= i && i + pat.len() <= s.len() && #[trigger] s.subrange(i, i + pat.len()) == pat
}

/// Content without a placeholder comes back unchanged.
pub proof fn law_template_without_placeholder(content: Seq<char>, date: Seq<char>)
    requires
        !occurs_in(date_placeholder(), content),
    ensures
        replace_all(content, date_placeholder(), date) == content,
{
    reveal_strlit("{{date}}");
    lemma_replace_absent(content, date_placeholder(), date);
}

proof fn lemma_replace_absent(s: Seq<char>, pat: Seq<char>, rep: Seq<char>)
    requires
        !occurs_in(pat, s),
    ensures
        replace_all(s, pat, rep) == s,
    decreases s.len(),
{
    if pat.len() == 0 || s.len() < pat.len() {
    } else {
        assert(s.take(pat.len() as int) == s.subrange(0, pat.len() as int));
        assert(s.subrange(0, 0 + pat.len() as int) != pat);
        let t = s.drop_first();
        assert forall|i: int| 0 <= i && i + pat.len() <= t.len() implies #[trigger] t.subrange(
            i,
            i + pat.len(),
        ) != pat by {
            assert(t.subrange(i, i + pat.len()) =~= s.subrange(i + 1, i + 1 + pat.len()));
        }
        lemma_replace_absent(t, pat, rep);
        assert(seq![s[0]] + t =~= s);
    }
}

/// The errors that can occur when loading templates.
#[derive(Clone, Debug, PartialEq)]
pub enum TemplateError {
    /// The template file does not exist (the path that was looked at).
    NotFound(String),
    /// The template file could not be read.
    Io(String),
}

impl TemplateError {
    /// The error's message.
    pub fn message(&self) -> (r: String)
        ensures
            r@ == match self {
                TemplateError::NotFound(p) => "Template not found: "@ + p@,
                TemplateError::Io(m) => "IO error reading template: "@ + m@,
            },
    {
        match self {
            TemplateError::NotFound(p) => {
                let mut s = owned("Template not found: ");
                push_str(&mut s, p.as_str());
                s
            },
            TemplateError::Io(m) => {
                let mut s = owned("IO error reading template: ");
                push_str(&mut s, m.as_str());
                s
            },
        }
    }
}

/// The path of the template `template`, relative to `notes_folder`; `None`
/// when no template is given.
pub fn template_path(notes_folder: &str, template: Option<&str>) -> (r: Option<String>)
    ensures
        match template {
            Some(t) => r matches Some(p) && p@ == path_join(notes_folder@, t@),
            None => r is None,
        },
{
    match template {
        Some(t) => Some(join_path(notes_folder, t)),
        None => None,
    }
}

} // verus!
