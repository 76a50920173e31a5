//! Changing the text of an existing note: appending a blob, and inserting a
//! blob at the end of the section named by a heading path.
use vstd::prelude::*;
use vstd::utf8::encode_utf8;

use crate::markdown::{
    headings_of, lemma_find_path, lemma_headings_from, section_end_in_chars, section_end_position,
};
use crate::text::{chars_of, owned, push_char, push_range, push_str, string_of_range, trim, trim_range};

verus! {

// ---------------------------------------------------------------------------
// Appending
// ---------------------------------------------------------------------------

/// The bytes of a note after appending `blob`: a line break is added first
/// when the note is not empty and does not end with one.
pub open spec fn appended(content: Seq<u8>, blob: Seq<char>) -> Seq<u8> {
    (if content.len() > 0 && content.last() != 10u8 {
        content.push(10u8)
    } else {
        content
    }) + encode_utf8(blob)
}

/// Appends `blob` to the bytes of a note, adding a line break first when the
/// note is not empty and does not end with one.
pub fn append_blob(content: Vec<u8>, blob: &str) -> (r: Vec<u8>)
    ensures
        r@ == appended(content@, blob@),
{
    let mut out = content;
    let n = out.len();
    if n > 0 && out[n - 1] != 10u8 {
        out.push(10u8);
    }
    let ghost base = out@;
    let bytes = blob.as_bytes();
    let mut i: usize = 0;
    while i < bytes.len()
        invariant
            bytes@ == encode_utf8(blob@),
            i <= bytes@.len(),
            out@ == base + bytes@.take(i as int),
        decreases bytes@.len() - i,
    {
        out.push(bytes[i]);
        i = i + 1;
        assert(out@ =~= base + bytes@.take(i as int));
    }
    assert(bytes@.take(bytes@.len() as int) =~= bytes@);
    out
}

/// Appending keeps the note as it was at the start and puts the blob at the
/// end, on a line of its own unless the note was empty.
pub proof fn law_append_keeps_note(content: Seq<u8>, blob: Seq<char>)
    ensures
        appended(content, blob).take(content.len() as int) == content,
        appended(content, blob).skip(appended(content, blob).len() - encode_utf8(blob).len())
            == encode_utf8(blob),
        content.len() > 0 ==> appended(content, blob)[appended(content, blob).len()
            - encode_utf8(blob).len() - 1] == 10u8,
{
    let a = appended(content, blob);
    let head = if content.len() > 0 && content.last() != 10u8 {
        content.push(10u8)
    } else {
        content
    };
    assert(a.take(content.len() as int) =~= content);
    assert(a.skip(head.len() as int) =~= encode_utf8(blob));
}

// ---------------------------------------------------------------------------
// Inserting at a heading path
// ---------------------------------------------------------------------------

/// The non-blank pieces of `s` from position `i` on, the current piece
/// starting at `start`: pieces are separated by `/` and trimmed.
pub open spec fn parts_from(s: Seq<char>, start: int, i: int) -> Seq<Seq<char>>
    decreases s.len() - i,
{
    if i < 0 || i >= s.len() {
        kept(trim(s.subrange(start, s.len() as int)))
    } else if s[i] == '/' {
        kept(trim(s.subrange(start, i))) + parts_from(s, i + 1, i + 1)
    } else {
        parts_from(s, start, i + 1)
    }
}

/// A piece, kept when it is not empty.
pub open spec fn kept(t: Seq<char>) -> Seq<Seq<char>> {
    if t.len() > 0 {
        seq![t]
    } else {
        Seq::empty()
    }
}

/// The headings named by a path such as `Weekly Log / Monday`: split at
/// `/`, trimmed, blank pieces dropped.
pub open spec fn heading_parts(s: Seq<char>) -> Seq<Seq<char>> {
    parts_from(s, 0, 0)
}

/// The text that goes in at position `k` of `s` for `blob`: a line break
/// first when `k` is not at the start of a line, and one after the blob when
/// text follows and the inserted text does not already end with one.
pub open spec fn insertion_text(s: Seq<char>, k: int, blob: Seq<char>) -> Seq<char> {
    let lead = if k > 0 && s[k - 1] != '\n' {
        seq!['\n']
    } else {
        Seq::empty()
    };
    let ins = lead + blob;
    if k < s.len() && !(ins.len() > 0 && ins.last() == '\n') {
        ins.push('\n')
    } else {
        ins
    }
}

/// `s` with `blob` inserted at position `k`.
pub open spec fn inserted(s: Seq<char>, k: int, blob: Seq<char>) -> Seq<char> {
    s.take(k) + insertion_text(s, k, blob) + s.skip(k)
}

/// Why a blob could not be inserted at a heading path.
#[derive(Clone, Debug, PartialEq)]
pub enum InsertError {
    /// The path names no heading.
    HeadingPathRequired,
    /// The document has no section for the path (the path as given).
    HeadingPathNotFound(String),
}

impl InsertError {
    /// The error's message.
    pub fn message(&self) -> (r: String)
        ensures
            r@ == match self {
                InsertError::HeadingPathRequired => "heading path is required"@,
                InsertError::HeadingPathNotFound(p) => "heading path not found: "@ + p@,
            },
    {
        match self {
            InsertError::HeadingPathRequired => owned("heading path is required"),
            InsertError::HeadingPathNotFound(p) => {
                let mut s = owned("heading path not found: ");
                push_str(&mut s, p.as_str());
                s
            },
        }
    }
}

/// Splits a heading path at `/`, trims each piece and drops blank pieces.
pub fn split_heading_path(s: &str) -> (r: Vec<Vec<char>>)
    ensures
        r@.map_values(|p: Vec<char>| p@) == heading_parts(s@),
{
    let v = chars_of(s);
    let n = v.len();
    let mut out: Vec<Vec<char>> = Vec::new();
    let mut start: usize = 0;
    let mut i: usize = 0;
    while i < n
        invariant
            n == v@.len(),
            v@ == s@,
            start <= i <= n,
            out@.map_values(|p: Vec<char>| p@) + parts_from(v@, start as int, i as int)
                == heading_parts(s@),
        decreases n - i,
    {
        if v[i] == '/' {
            let ghost before = out@.map_values(|p: Vec<char>| p@);
            let (a, b) = trim_range(&v, start, i);
            if a < b {
                let piece = string_of_range(&v, a, b);
                out.push(chars_of(piece.as_str()));
            }
            proof {
                assert(out@.map_values(|p: Vec<char>| p@) =~= before + kept(
                    trim(v@.subrange(start as int, i as int)),
                ));
            }
            start = i + 1;
        }
        i = i + 1;
    }
    let ghost before = out@.map_values(|p: Vec<char>| p@);
    let (a, b) = trim_range(&v, start, n);
    if a < b {
        let piece = string_of_range(&v, a, b);
        out.push(chars_of(piece.as_str()));
    }
    proof {
        assert(out@.map_values(|p: Vec<char>| p@) =~= before + kept(
            trim(v@.subrange(start as int, n as int)),
        ));
    }
    out
}

/// Inserts `blob` at the end of the section named by `heading_path` (such as
/// `Weekly Log/Monday`): before the next heading of the same or a higher
/// level, or at the end of the note, keeping line breaks around it.
pub fn insert_blob_at_heading_path(content: &str, heading_path: &str, blob: &str) -> (r: Result<
    String,
    InsertError,
>)
    ensures
        heading_parts(heading_path@).len() == 0 ==> r == Err::<String, InsertError>(
            InsertError::HeadingPathRequired,
        ),
        heading_parts(heading_path@).len() > 0 ==> match section_end_position(
            content@,
            heading_parts(heading_path@),
        ) {
            None => r matches Err(InsertError::HeadingPathNotFound(p)) && p@ == heading_path@,
            Some(k) => r matches Ok(s) && k <= content@.len() && s@ == inserted(
                content@,
                k as int,
                blob@,
            ),
        },
{
    let parts = split_heading_path(heading_path);
    if parts.len() == 0 {
        return Err(InsertError::HeadingPathRequired);
    }
    let v = chars_of(content);
    let position = match section_end_in_chars(&v, &parts) {
        Some(k) => {
            proof {
                lemma_headings_from(v@, 0);
                lemma_find_path(headings_of(v@), heading_parts(heading_path@), 0, 1, v@.len());
                assert(section_end_position(content@, heading_parts(heading_path@)) == Some(
                    k as nat,
                ));
            }
            k
        },
        None => {
            return Err(InsertError::HeadingPathNotFound(owned(heading_path)));
        },
    };
    let b = chars_of(blob);
    let mut insertion = String::new();
    if position > 0 && v[position - 1] != '\n' {
        push_char(&mut insertion, '\n');
    }
    push_str(&mut insertion, blob);
    let ghost ins1 = insertion@;
    if position < v.len() {
        let ends_with_break = if b.len() > 0 {
            b[b.len() - 1] == '\n'
        } else {
            position > 0 && v[position - 1] != '\n'
        };
        proof {
            if b.len() > 0 {
                assert(ins1.last() == b@.last());
            }
        }
        if !ends_with_break {
            push_char(&mut insertion, '\n');
        }
    }
    let mut updated = String::new();
    push_range(&mut updated, &v, 0, position);
    push_str(&mut updated, insertion.as_str());
    push_range(&mut updated, &v, position, v.len());
    proof {
        assert(insertion@ =~= insertion_text(content@, position as int, blob@));
        assert(v@.subrange(0, position as int) =~= content@.take(position as int));
        assert(v@.subrange(position as int, v@.len() as int) =~= content@.skip(position as int));
        assert(updated@ =~= inserted(content@, position as int, blob@));
    }
    Ok(updated)
}

/// Inserting keeps the note as it was before and after the insertion point,
/// and the blob stands whole in between, after at most one added line break.
pub proof fn law_insert_keeps_note(s: Seq<char>, k: int, blob: Seq<char>)
    requires
        0 <= k <= s.len(),
    ensures
        inserted(s, k, blob).take(k) == s.take(k),
        inserted(s, k, blob).skip(k + insertion_text(s, k, blob).len()) == s.skip(k),
        ({
            let lead: int = if k > 0 && s[k - 1] != '\n' {
                1
            } else {
                0
            };
            inserted(s, k, blob).subrange(k + lead, k + lead + blob.len()) == blob
        }),
        k < s.len() ==> inserted(s, k, blob)[k + insertion_text(s, k, blob).len() - 1] == '\n',
{
    let ins = insertion_text(s, k, blob);
    let r = inserted(s, k, blob);
    assert(r.take(k) =~= s.take(k));
    assert(r.skip(k + ins.len()) =~= s.skip(k));
    let lead: int = if k > 0 && s[k - 1] != '\n' {
        1
    } else {
        0
    };
    assert(r.subrange(k + lead, k + lead + blob.len()) =~= blob);
}

} // verus!
