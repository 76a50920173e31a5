//! How a note is handed to an editor: which program runs, with which
//! argument, for each editor setting.
use vstd::prelude::*;
use vstd::utf8::encode_utf8;

use crate::config::Editor;
use crate::text::{owned, push_str, str_eq};

verus! {

/// The bytes that URL encoding leaves as they are: ASCII letters and digits,
/// `-`, `.`, `_` and `~`.
pub open spec fn is_unreserved(b: u8) -> bool {
    ||| 48 <= b <= 57
    ||| 65 <= b <= 90
    ||| 97 <= b <= 122
    ||| b == 45
    ||| b == 46
    ||| b == 95
    ||| b == 126
}

/// The upper-case hexadecimal digit for `d` in `0..16`.
pub open spec fn hex_digit(d: int) -> char {
    if d < 10 {
        (48 + d) as char
    } else {
        (55 + d) as char
    }
}

/// Percent-encoding of `bytes`: unreserved bytes stay, every other byte
/// becomes `%` and two upper-case hexadecimal digits.
pub open spec fn percent_encoded(bytes: Seq<u8>) -> Seq<char>
    decreases bytes.len(),
{
    if bytes.len() == 0 {
        Seq::empty()
    } else {
        (if is_unreserved(bytes[0]) {
            seq![bytes[0] as char]
        } else {
            seq!['%', hex_digit((bytes[0] / 16) as int), hex_digit((bytes[0] % 16) as int)]
        }) + percent_encoded(bytes.drop_first())
    }
}

/// The URI that opens `file_path` in Obsidian.
pub open spec fn obsidian_url_of(file_path: Seq<char>) -> Seq<char> {
    "obsidian://open?path="@ + percent_encoded(encode_utf8(file_path))
}

/// Returns the URI that opens `file_path` in Obsidian, with the path
/// percent-encoded.
pub fn obsidian_url(file_path: &str) -> (r: String)
    ensures
        r@ == obsidian_url_of(file_path@),
{
    let mut s = owned("obsidian://open?path=");
    let encoded = url_encode(file_path);
    push_str(&mut s, encoded.as_str());
    s
}

/// Percent-encoding never writes a space.
proof fn lemma_percent_encoded_has_no_space(bytes: Seq<u8>)
    ensures
        forall|i: int| 0 <= i < percent_encoded(bytes).len() ==> percent_encoded(bytes)[i] != ' ',
    decreases bytes.len(),
{
    if bytes.len() > 0 {
        lemma_percent_encoded_has_no_space(bytes.drop_first());
        let b = bytes[0];
        assert(b / 16 < 16 && b % 16 < 16);
        let head = if is_unreserved(b) {
            seq![b as char]
        } else {
            seq!['%', hex_digit((b / 16) as int), hex_digit((b % 16) as int)]
        };
        assert(forall|i: int| 0 <= i < head.len() ==> head[i] != ' ');
        let rest = percent_encoded(bytes.drop_first());
        assert(percent_encoded(bytes) == head + rest);
        assert forall|i: int| 0 <= i < percent_encoded(bytes).len() implies percent_encoded(
            bytes,
        )[i] != ' ' by {
            if i >= head.len() {
                assert(percent_encoded(bytes)[i] == rest[i - head.len()]);
            }
        }
    }
}

/// The Obsidian URI of a path holds no space, whatever the path holds.
pub proof fn law_obsidian_url_has_no_space(file_path: Seq<char>)
    ensures
        forall|i: int| 0 <= i < obsidian_url_of(file_path).len() ==> obsidian_url_of(file_path)[i] != ' ',
{
    reveal_strlit("obsidian://open?path=");
    let prefix = "obsidian://open?path="@;
    let rest = percent_encoded(encode_utf8(file_path));
    lemma_percent_encoded_has_no_space(encode_utf8(file_path));
    assert forall|i: int| 0 <= i < obsidian_url_of(file_path).len() implies obsidian_url_of(
        file_path,
    )[i] != ' ' by {
        if i >= prefix.len() {
            assert(obsidian_url_of(file_path)[i] == rest[i - prefix.len()]);
        }
    }
}

/// The program that opens URIs on the platform named `os` (as
/// `std::env::consts::OS` names it).
pub open spec fn open_command_of(os: Seq<char>) -> Seq<char> {
    if os == "windows"@ {
        "start"@
    } else if os == "macos"@ {
        "open"@
    } else {
        "xdg-open"@
    }
}

/// Returns the program that opens URIs on the platform named `os`:
/// `start` on Windows, `open` on macOS, `xdg-open` elsewhere.
pub fn open_command_for_os(os: &str) -> (r: &'static str)
    ensures
        r@ == open_command_of(os@),
{
    if str_eq(os, "windows") {
        "start"
    } else if str_eq(os, "macos") {
        "open"
    } else {
        "xdg-open"
    }
}

/// A program to start, with its one argument.
#[derive(Clone, Debug, PartialEq)]
pub struct Launch {
    pub program: String,
    pub arg: String,
}

/// The program and argument that open `file_path` with `editor`: for the
/// generic editor, `$EDITOR` (`editor_env`) or `vi` with the path; for VS
/// Code, `code` with the path; for Obsidian, the platform's opener with the
/// Obsidian URI of the path.
pub open spec fn launch_of(
    editor: Editor,
    file_path: Seq<char>,
    editor_env: Option<Seq<char>>,
    os: Seq<char>,
) -> (Seq<char>, Seq<char>) {
    match editor {
        Editor::Generic => (
            match editor_env {
                Some(e) => e,
                None => "vi"@,
            },
            file_path,
        ),
        Editor::Vscode => ("code"@, file_path),
        Editor::Obsidian => (open_command_of(os), obsidian_url_of(file_path)),
    }
}

/// Works out how to open `file_path` with `editor`; `editor_env` is the
/// value of `$EDITOR` when it is set, `os` the platform's name.
pub fn editor_launch(editor: Editor, file_path: &str, editor_env: Option<&str>, os: &str) -> (r: Launch)
    ensures
        (r.program@, r.arg@) == launch_of(
            editor,
            file_path@,
            match editor_env {
                Some(e) => Some(e@),
                None => None,
            },
            os@,
        ),
{
    match editor {
        Editor::Generic => {
            let program = match editor_env {
                Some(e) => owned(e),
                None => owned("vi"),
            };
            Launch { program, arg: owned(file_path) }
        },
        Editor::Vscode => Launch { program: owned("code"), arg: owned(file_path) },
        Editor::Obsidian => Launch {
            program: owned(open_command_for_os(os)),
            arg: obsidian_url(file_path),
        },
    }
}

/// `urlencoding::encode`: every byte of the UTF-8 text except ASCII letters,
/// digits, `-`, `.`, `_` and `~` becomes `%` and two upper-case hexadecimal
/// digits.
#[verifier::external_body]
fn url_encode(s: &str) -> (r: String)
    ensures
        r@ == percent_encoded(encode_utf8(s@)),
{
    urlencoding::encode(s).into_owned()
}

} // verus!
