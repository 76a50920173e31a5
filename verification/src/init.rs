//! The decisions of the interactive setup wizard: what the pre-flight check
//! reports, which section names are accepted, what the prompts default to,
//! how typed batch sizes are read, how backups are named, and how a section
//! is written into the configuration document.
use vstd::prelude::*;

use crate::config::{opt_view, BATCH_SIZE_MAX, BATCH_SIZE_MIN};
use toml_edit::{DocumentMut, Item, Table, Value};
use crate::text::{chars_of, lemma_decimal_injective, lemma_decimal_len, owned, push_decimal, push_range, push_str, str_eq, trim, trim_range, decimal};

verus! {

/// Key of the notes folder in a configuration section.
pub const NOTES_FOLDER_KEY: &'static str = "notesFolder";

/// Key of the editor in a configuration section.
pub const EDITOR_KEY: &'static str = "editor";

/// Key of the template in a configuration section.
pub const TEMPLATE_KEY: &'static str = "template";

/// Key of the batch size in a configuration section.
pub const BATCH_KEY: &'static str = "batch";

/// Why the setup wizard stops.
#[derive(Clone, Debug, PartialEq)]
pub enum InitError {
    /// The user cancelled.
    Interrupted,
    /// Pre-flight fixes were written; setup has to be run again.
    PreFlightFixed,
    /// Anything else, with its message.
    Other(String),
}

impl InitError {
    /// The error's message.
    pub fn message(&self) -> (r: String)
        ensures
            r@ == match self {
                InitError::Interrupted => "interrupted"@,
                InitError::PreFlightFixed => "pre-flight fixes applied — rerun `take-note init` to continue"@,
                InitError::Other(m) => m@,
            },
    {
        match self {
            InitError::Interrupted => owned("interrupted"),
            InitError::PreFlightFixed => owned(
                "pre-flight fixes applied — rerun `take-note init` to continue",
            ),
            InitError::Other(m) => m.clone(),
        }
    }
}

/// The wizard's error for a failed input or output operation: a cancelled
/// one (interrupted) stops the wizard as a cancellation, any other carries
/// its message.
pub fn init_error_from_io(interrupted: bool, message: String) -> (r: InitError)
    ensures
        interrupted ==> r == InitError::Interrupted,
        !interrupted ==> r == InitError::Other(message),
{
    if interrupted {
        InitError::Interrupted
    } else {
        InitError::Other(message)
    }
}

// ---------------------------------------------------------------------------
// Editor choices
// ---------------------------------------------------------------------------

/// The editor names that a section may hold, in the order the wizard lists them.
pub open spec fn editor_options() -> Seq<Seq<char>> {
    seq!["generic"@, "obsidian"@, "vscode"@]
}

/// The editor names that a section may hold, in the order the wizard lists them.
pub fn editor_options_list() -> (r: Vec<&'static str>)
    ensures
        r@.map_values(|s: &str| s@) == editor_options(),
{
    let v = vec!["generic", "obsidian", "vscode"];
    proof {
        assert(v@.map_values(|s: &str| s@) =~= editor_options());
    }
    v
}

/// Whether `s` is one of the editor names.
pub fn is_editor_option(s: &str) -> (r: bool)
    ensures
        r == editor_options().contains(s@),
{
    let r = str_eq(s, "generic") || str_eq(s, "obsidian") || str_eq(s, "vscode");
    proof {
        if r {
            if s@ == "generic"@ {
                assert(editor_options()[0] == s@);
            } else if s@ == "obsidian"@ {
                assert(editor_options()[1] == s@);
            } else {
                assert(editor_options()[2] == s@);
            }
        } else {
            assert forall|i: int| 0 <= i < 3 implies editor_options()[i] != s@ by {}
        }
    }
    r
}

/// The editor prompt's preselected entry for the section's current editor
/// (`generic` when unset): its position in the list, else the first entry,
/// with a warning when the current value is an unknown name.
pub fn editor_default_index(current: &str) -> (r: (usize, bool))
    ensures
        r.0 < 3,
        editor_options().contains(current@) ==> editor_options()[r.0 as int] == current@ && !r.1,
        !editor_options().contains(current@) ==> r.0 == 0 && r.1 == (current@ != "generic"@),
{
    proof {
        reveal_strlit("generic");
        reveal_strlit("obsidian");
        reveal_strlit("vscode");
    }
    if str_eq(current, "generic") {
        (0, false)
    } else if str_eq(current, "obsidian") {
        (1, false)
    } else if str_eq(current, "vscode") {
        (2, false)
    } else {
        proof {
            assert forall|i: int| 0 <= i < 3 implies editor_options()[i] != current@ by {}
        }
        (0, !str_eq(current, "generic"))
    }
}

// ---------------------------------------------------------------------------
// Sections
// ---------------------------------------------------------------------------

/// The entries of the section picker: the sections in document order, then
/// `Create new section`.
pub fn section_options(keys: &Vec<String>) -> (r: Vec<String>)
    ensures
        r@.len() == keys@.len() + 1,
        forall|i: int| 0 <= i < keys@.len() ==> r@[i]@ == (#[trigger] keys@[i])@,
        r@[keys@.len() as int]@ == "Create new section"@,
{
    let mut r: Vec<String> = Vec::new();
    let mut i: usize = 0;
    while i < keys.len()
        invariant
            i <= keys@.len(),
            r@.len() == i,
            forall|k: int| 0 <= k < i ==> r@[k]@ == (#[trigger] keys@[k])@,
        decreases keys@.len() - i,
    {
        r.push(keys[i].clone());
        i = i + 1;
    }
    r.push(owned("Create new section"));
    r
}

/// Why a new section name is refused.
#[derive(Clone, Copy, Debug, PartialEq, Eq, Structural)]
pub enum SectionNameError {
    /// `default` exists already and has to be picked from the list.
    DefaultExists,
    /// The name is empty or holds a character other than `a-z`, `0-9`, `_`, `-`.
    Invalid,
}

impl SectionNameError {
    /// The message the wizard shows before asking again.
    pub fn message(&self) -> (r: String)
        ensures
            r@ == match self {
                SectionNameError::DefaultExists => "Section 'default' already exists. Choose it from the picker instead."@,
                SectionNameError::Invalid => "Invalid name. Use only lowercase a-z, 0-9, _ and -."@,
            },
    {
        match self {
            SectionNameError::DefaultExists => owned(
                "Section 'default' already exists. Choose it from the picker instead.",
            ),
            SectionNameError::Invalid => owned("Invalid name. Use only lowercase a-z, 0-9, _ and -."),
        }
    }
}

/// The characters that section names may hold.
pub open spec fn is_name_char(c: char) -> bool {
    ('a' <= c && c <= 'z') || ('0' <= c && c <= '9') || c == '_' || c == '-'
}

/// Checks a new section name: `default` when that section exists is
/// refused first, then empty names and names with other characters than
/// `a-z`, `0-9`, `_` and `-`.
pub fn validate_new_section_name(name: &str, has_default: bool) -> (r: Result<(), SectionNameError>)
    ensures
        name@ == "default"@ && has_default ==> r == Err::<(), SectionNameError>(
            SectionNameError::DefaultExists,
        ),
        !(name@ == "default"@ && has_default) ==> (r is Ok <==> (name@.len() > 0 && forall|i: int|
            0 <= i < name@.len() ==> is_name_char(#[trigger] name@[i]))),
        !(name@ == "default"@ && has_default) && r is Err ==> r == Err::<(), SectionNameError>(
            SectionNameError::Invalid,
        ),
{
    if has_default && str_eq(name, "default") {
        return Err(SectionNameError::DefaultExists);
    }
    let v = chars_of(name);
    if v.len() == 0 {
        return Err(SectionNameError::Invalid);
    }
    let mut i: usize = 0;
    while i < v.len()
        invariant
            v@ == name@,
            !(name@ == "default"@ && has_default),
            i <= v@.len(),
            forall|k: int| 0 <= k < i ==> is_name_char(#[trigger] v@[k]),
        decreases v@.len() - i,
    {
        let c = v[i];
        if !(('a' <= c && c <= 'z') || ('0' <= c && c <= '9') || c == '_' || c == '-') {
            return Err(SectionNameError::Invalid);
        }
        i = i + 1;
    }
    Ok(())
}

/// The section chosen in the picker at entry `index` of
/// [`section_options`]: an existing section, or `None` for the last entry
/// (create a new one).
pub fn picked_section(keys: &Vec<String>, index: usize) -> (r: Option<String>)
    requires
        index <= keys@.len(),
    ensures
        index == keys@.len() ==> r is None,
        index < keys@.len() ==> (r matches Some(s) && s@ == keys@[index as int]@),
{
    if index == keys.len() {
        None
    } else {
        Some(keys[index].clone())
    }
}

/// The template answer: empty means no template.
pub fn template_choice(value: &str) -> (r: Option<String>)
    ensures
        value@.len() == 0 ==> r is None,
        value@.len() > 0 ==> (r matches Some(s) && s@ == value@),
{
    let v = chars_of(value);
    if v.len() == 0 {
        None
    } else {
        Some(owned(value))
    }
}

// ---------------------------------------------------------------------------
// Batch size answers
// ---------------------------------------------------------------------------

/// Whether `c` is an ASCII digit.
pub open spec fn is_digit(c: char) -> bool {
    '0' <= c && c <= '9'
}

/// The value of a string of ASCII digits.
pub open spec fn digits_value(s: Seq<char>) -> nat
    decreases s.len(),
{
    if s.len() == 0 {
        0
    } else {
        digits_value(s.drop_last()) * 10 + ((s.last() as int) - ('0' as int)) as nat
    }
}

/// The value of one or more ASCII digits, when it fits in `usize`.
pub open spec fn digits_number(d: Seq<char>) -> Option<nat> {
    if d.len() > 0 && (forall|i: int| 0 <= i < d.len() ==> is_digit(#[trigger] d[i]))
        && digits_value(d) <= usize::MAX {
        Some(digits_value(d))
    } else {
        None
    }
}

/// What `str::parse::<usize>` reads: an optional `+`, then one or more ASCII
/// digits whose value fits in `usize`.
pub open spec fn parsed_usize(s: Seq<char>) -> Option<nat> {
    digits_number(
        if s.len() > 0 && s[0] == '+' {
            s.drop_first()
        } else {
            s
        },
    )
}

proof fn lemma_digits_value_prefix(s: Seq<char>, j: int)
    requires
        0 <= j <= s.len(),
        forall|i: int| 0 <= i < s.len() ==> is_digit(#[trigger] s[i]),
    ensures
        digits_value(s.take(j)) <= digits_value(s),
    decreases s.len() - j,
{
    if j < s.len() {
        lemma_digits_value_prefix(s, j + 1);
        assert(s.take(j + 1).drop_last() =~= s.take(j));
    } else {
        assert(s.take(j) =~= s);
    }
}

/// Why a typed batch size is refused.
#[derive(Clone, Copy, Debug, PartialEq, Eq, Structural)]
pub enum BatchInputError {
    /// The answer is not a whole number.
    NotANumber,
    /// The number is outside `1..=8` (the number typed).
    OutOfRange(usize),
}

impl BatchInputError {
    /// The message the wizard shows before asking again.
    pub fn message(&self) -> (r: String)
        ensures
            r@ == match self {
                BatchInputError::NotANumber => "Please enter a whole number."@,
                BatchInputError::OutOfRange(n) => "Batch size must be between 1 and 8, got "@
                    + decimal(*n as nat) + "."@,
            },
    {
        match self {
            BatchInputError::NotANumber => owned("Please enter a whole number."),
            BatchInputError::OutOfRange(n) => {
                let mut s = owned("Batch size must be between 1 and 8, got ");
                push_decimal(&mut s, *n as u64);
                push_str(&mut s, ".");
                s
            },
        }
    }
}

/// Reads a typed batch size: surrounding whitespace is ignored; the rest
/// must parse as a `usize` and lie in `1..=8`.
pub fn parse_batch_input(raw: &str) -> (r: Result<usize, BatchInputError>)
    ensures
        match parsed_usize(trim(raw@)) {
            None => r == Err::<usize, BatchInputError>(BatchInputError::NotANumber),
            Some(n) => if BATCH_SIZE_MIN <= n <= BATCH_SIZE_MAX {
                r == Ok::<usize, BatchInputError>(n as usize)
            } else {
                r == Err::<usize, BatchInputError>(BatchInputError::OutOfRange(n as usize))
            },
        },
{
    let v = chars_of(raw);
    let (a, b) = trim_range(&v, 0, v.len());
    let ghost t = v@.subrange(a as int, b as int);
    proof {
        assert(v@.subrange(0, v@.len() as int) =~= raw@);
    }
    let mut i = a;
    if i < b && v[i] == '+' {
        i = i + 1;
    }
    let ghost d = v@.subrange(i as int, b as int);
    proof {
        if a < b && v@[a as int] == '+' {
            assert(d =~= t.drop_first());
        } else {
            assert(d =~= t);
        }
    }
    proof {
        assert(parsed_usize(trim(raw@)) == digits_number(d));
    }
    if i >= b {
        return Err(BatchInputError::NotANumber);
    }
    let start = i;
    let mut value: usize = 0;
    while i < b
        invariant
            parsed_usize(trim(raw@)) == digits_number(d),
            a <= start <= i <= b <= v@.len(),
            d == v@.subrange(start as int, b as int),
            forall|k: int| start <= k < i ==> is_digit(#[trigger] v@[k]),
            value == digits_value(v@.subrange(start as int, i as int)),
        decreases b - i,
    {
        let c = v[i];
        if !('0' <= c && c <= '9') {
            proof {
                assert(d[i - start] == c);
            }
            return Err(BatchInputError::NotANumber);
        }
        let digit = (c as u32 - '0' as u32) as usize;
        proof {
            assert(v@.subrange(start as int, i + 1).drop_last() =~= v@.subrange(start as int, i as int));
        }
        if value > (usize::MAX - digit) / 10 {
            proof {
                assert(digits_value(v@.subrange(start as int, i + 1)) > usize::MAX) by (nonlinear_arith)
                    requires
                        digits_value(v@.subrange(start as int, i + 1)) == value * 10 + digit,
                        value > (usize::MAX - digit) / 10,
                        digit <= 9,
                ;
                assert(forall|k: int| 0 <= k < d.len() ==> is_digit(#[trigger] d[k]) || k >= i - start);
                if forall|k: int| 0 <= k < d.len() ==> is_digit(#[trigger] d[k]) {
                    lemma_digits_value_prefix(d, i + 1 - start);
                    assert(d.take(i + 1 - start) =~= v@.subrange(start as int, i + 1));
                }
            }
            return Err(BatchInputError::NotANumber);
        }
        value = value * 10 + digit;
        i = i + 1;
    }
    proof {
        assert(v@.subrange(start as int, b as int) =~= d);
    }
    if BATCH_SIZE_MIN <= value && value <= BATCH_SIZE_MAX {
        Ok(value)
    } else {
        Err(BatchInputError::OutOfRange(value))
    }
}

// ---------------------------------------------------------------------------
// Backups
// ---------------------------------------------------------------------------

/// The index of the last `c` in `s`, or -1.
pub open spec fn last_index_of(s: Seq<char>, c: char) -> int
    decreases s.len(),
{
    if s.len() == 0 {
        -1
    } else if s.last() == c {
        s.len() - 1
    } else {
        last_index_of(s.drop_last(), c)
    }
}

/// The stem of a file name (`Path::file_stem`): the part before the last
/// `.`, or the whole name when its only `.` is the first character or it has
/// none.
pub open spec fn file_stem(name: Seq<char>) -> Seq<char> {
    if last_index_of(name, '.') > 0 {
        name.take(last_index_of(name, '.'))
    } else {
        name
    }
}

/// The name of backup number `suffix` of the configuration file `name` made
/// at `timestamp`: the extension becomes `toml.<timestamp>`, and from the
/// second backup on `.<suffix>` follows.
pub open spec fn backup_name(name: Seq<char>, timestamp: Seq<char>, suffix: nat) -> Seq<char> {
    file_stem(name) + ".toml."@ + timestamp + if suffix == 0 {
        Seq::<char>::empty()
    } else {
        "."@ + decimal(suffix)
    }
}

/// Backups made at the same time get different names for different
/// numbers, so a new backup never takes the name of an earlier one.
pub proof fn law_backup_names_differ(name: Seq<char>, timestamp: Seq<char>, s1: nat, s2: nat)
    requires
        s1 != s2,
    ensures
        backup_name(name, timestamp, s1) != backup_name(name, timestamp, s2),
{
    reveal_strlit(".");
    let p = file_stem(name) + ".toml."@ + timestamp;
    let b1 = backup_name(name, timestamp, s1);
    let b2 = backup_name(name, timestamp, s2);
    lemma_decimal_len(s1);
    lemma_decimal_len(s2);
    if b1 == b2 {
        if s1 > 0 && s2 > 0 {
            assert(b1 == p + ("."@ + decimal(s1)));
            assert(b2 == p + ("."@ + decimal(s2)));
            assert(b1.skip(p.len() + 1int) =~= decimal(s1));
            assert(b2.skip(p.len() + 1int) =~= decimal(s2));
            lemma_decimal_injective(s1, s2);
        } else if s1 == 0 {
            assert(b1.len() == p.len());
            assert(b2.len() > p.len());
        } else {
            assert(b2.len() == p.len());
            assert(b1.len() > p.len());
        }
    }
}

/// Returns the file name of backup number `suffix` of the configuration file
/// named `file_name`, made at `timestamp`.
pub fn backup_file_name(file_name: &str, timestamp: &str, suffix: usize) -> (r: String)
    ensures
        r@ == backup_name(file_name@, timestamp@, suffix as nat),
{
    let v = chars_of(file_name);
    let mut k = v.len();
    proof {
        assert(v@.take(k as int) =~= v@);
    }
    while k > 0 && v[k - 1] != '.'
        invariant
            k <= v@.len(),
            v@ == file_name@,
            last_index_of(v@, '.') == last_index_of(v@.take(k as int), '.'),
        decreases k,
    {
        assert(v@.take(k as int).drop_last() =~= v@.take(k - 1));
        k = k - 1;
    }
    proof {
        if k == 0 {
            assert(v@.take(0) =~= Seq::<char>::empty());
        } else {
            assert(v@.take(k as int).last() == '.');
        }
    }
    let mut out = String::new();
    if k > 1 {
        push_range(&mut out, &v, 0, k - 1);
    } else {
        push_range(&mut out, &v, 0, v.len());
    }
    push_str(&mut out, ".toml.");
    push_str(&mut out, timestamp);
    if suffix > 0 {
        push_str(&mut out, ".");
        push_decimal(&mut out, suffix as u64);
    }
    proof {
        assert(v@.subrange(0, v@.len() as int) =~= v@);
        assert(v@.subrange(0, k - 1) =~= v@.take(k - 1));
        assert(out@ =~= backup_name(file_name@, timestamp@, suffix as nat));
    }
    out
}

// ---------------------------------------------------------------------------
// Pre-flight check
// ---------------------------------------------------------------------------

/// What the pre-flight check reads of one top-level entry of the
/// configuration document.
#[derive(Clone, Debug, PartialEq)]
pub struct SectionEntry {
    /// The entry's key.
    pub name: String,
    /// Whether the entry is a table or an inline table.
    pub is_table: bool,
    /// The entry's TOML type name, such as `table` or `integer`.
    pub kind_name: String,
    /// The entry's `editor` value, when it is a string.
    pub editor: Option<String>,
    /// The entry's `notesFolder` value, when it is a string.
    pub notes_folder: Option<String>,
}

/// The message for an entry that is not a table.
pub open spec fn not_a_table_message(name: Seq<char>, kind_name: Seq<char>) -> Seq<char> {
    "config entry `"@ + name + "` must be a table, not "@ + kind_name
}

/// The issues that the pre-flight check finds in one table entry: an
/// unknown editor name, then a notes folder that does not exist
/// (`folder_exists` tells whether it does).
pub open spec fn entry_issues(e: SectionEntry, folder_exists: bool) -> Seq<Seq<char>> {
    (match e.editor {
        Some(ed) => if editor_options().contains(ed@) {
            Seq::empty()
        } else {
            seq!["["@ + e.name@ + "]."@ + "editor"@ + ": unknown value \""@ + ed@ + "\""@]
        },
        None => Seq::empty(),
    }) + (match e.notes_folder {
        Some(f) => if folder_exists {
            Seq::empty()
        } else {
            seq!["["@ + e.name@ + "]."@ + "notesFolder"@ + ": path \""@ + f@ + "\" does not exist"@]
        },
        None => Seq::empty(),
    })
}

/// Whether the notes folder of entry `i` exists, by the answers in `ex`; a
/// missing answer counts as a folder that does not exist.
pub open spec fn folder_found(ex: Seq<bool>, i: int) -> bool {
    0 <= i < ex.len() && ex[i]
}

/// The issues that the pre-flight check finds in the entries from index `i`
/// on, in order; the first entry that is not a table stops the check with
/// its message.
pub open spec fn preflight_from(es: Seq<SectionEntry>, ex: Seq<bool>, i: int) -> Result<
    Seq<Seq<char>>,
    Seq<char>,
>
    decreases es.len() - i,
{
    if i < 0 || i >= es.len() {
        Ok(Seq::empty())
    } else if !es[i].is_table {
        Err(not_a_table_message(es[i].name@, es[i].kind_name@))
    } else {
        match preflight_from(es, ex, i + 1) {
            Ok(rest) => Ok(entry_issues(es[i], folder_found(ex, i)) + rest),
            Err(m) => Err(m),
        }
    }
}

/// The issues that the pre-flight check finds in all the entries.
pub open spec fn preflight_outcome(es: Seq<SectionEntry>, ex: Seq<bool>) -> Result<
    Seq<Seq<char>>,
    Seq<char>,
> {
    preflight_from(es, ex, 0)
}

/// The issues found so far followed by those still to come, or the error
/// that stops the check.
pub open spec fn after_issues(done: Seq<Seq<char>>, rest: Result<Seq<Seq<char>>, Seq<char>>) -> Result<
    Seq<Seq<char>>,
    Seq<char>,
> {
    match rest {
        Ok(r) => Ok(done + r),
        Err(m) => Err(m),
    }
}

/// The characters of each string.
pub open spec fn strings_view(v: Seq<String>) -> Seq<Seq<char>> {
    v.map_values(|s: String| s@)
}

/// Lists the invalid field values of the configuration entries: unknown
/// editor names and notes folders that do not exist (`folder_exists[i]`
/// tells whether the folder of entry `i` exists). An entry that is not a
/// table is an error.
pub fn preflight_issues(entries: &Vec<SectionEntry>, folder_exists: &Vec<bool>) -> (r: Result<
    Vec<String>,
    InitError,
>)
    ensures
        match preflight_outcome(entries@, folder_exists@) {
            Ok(issues) => r matches Ok(v) && strings_view(v@) == issues,
            Err(m) => r matches Err(InitError::Other(msg)) && msg@ == m,
        },
{
    let mut issues: Vec<String> = Vec::new();
    let mut i: usize = 0;
    proof {
        assert(strings_view(issues@) + Seq::<Seq<char>>::empty() =~= strings_view(issues@));
    }
    while i < entries.len()
        invariant
            i <= entries@.len(),
            preflight_outcome(entries@, folder_exists@) == after_issues(
                strings_view(issues@),
                preflight_from(entries@, folder_exists@, i as int),
            ),
        decreases entries@.len() - i,
    {
        let e = &entries[i];
        if !e.is_table {
            let mut m = owned("config entry `");
            push_str(&mut m, e.name.as_str());
            push_str(&mut m, "` must be a table, not ");
            push_str(&mut m, e.kind_name.as_str());
            proof {
                assert(m@ =~= not_a_table_message(e.name@, e.kind_name@));
            }
            return Err(InitError::Other(m));
        }
        let found = i < folder_exists.len() && folder_exists[i];
        let ghost before = strings_view(issues@);
        if let Some(ed) = &e.editor {
            if !is_editor_option(ed.as_str()) {
                let mut m = owned("[");
                push_str(&mut m, e.name.as_str());
                push_str(&mut m, "].");
                push_str(&mut m, EDITOR_KEY);
                push_str(&mut m, ": unknown value \"");
                push_str(&mut m, ed.as_str());
                push_str(&mut m, "\"");
                issues.push(m);
            }
        }
        if let Some(f) = &e.notes_folder {
            if !found {
                let mut m = owned("[");
                push_str(&mut m, e.name.as_str());
                push_str(&mut m, "].");
                push_str(&mut m, NOTES_FOLDER_KEY);
                push_str(&mut m, ": path \"");
                push_str(&mut m, f.as_str());
                push_str(&mut m, "\" does not exist");
                issues.push(m);
            }
        }
        proof {
            assert(found == folder_found(folder_exists@, i as int));
            assert(strings_view(issues@) =~= before + entry_issues(*e, found));
            match preflight_from(entries@, folder_exists@, i + 1) {
                Ok(r) => {
                    assert(before + (entry_issues(*e, found) + r) =~= strings_view(issues@) + r);
                },
                Err(_) => {},
            }
        }
        i = i + 1;
    }
    proof {
        assert(strings_view(issues@) + Seq::<Seq<char>>::empty() =~= strings_view(issues@));
    }
    Ok(issues)
}

// ---------------------------------------------------------------------------
// The configuration document
// ---------------------------------------------------------------------------

#[verifier::external_type_specification]
#[verifier::external_body]
pub struct ExDocumentMut(toml_edit::DocumentMut);

/// The kind of a top-level entry of a TOML document.
#[derive(Clone, Copy, Debug, PartialEq, Eq, Structural)]
pub enum TomlKind {
    Table,
    InlineTable,
    Str,
    Integer,
    Float,
    Boolean,
    Datetime,
    Array,
    ArrayOfTables,
}

/// Tables and inline tables hold keys.
pub open spec fn kind_is_table_like(k: TomlKind) -> bool {
    k == TomlKind::Table || k == TomlKind::InlineTable
}

/// The name that `toml_edit` gives a kind of entry.
pub open spec fn kind_name_of(k: TomlKind) -> Seq<char> {
    match k {
        TomlKind::Table => "table"@,
        TomlKind::InlineTable => "inline table"@,
        TomlKind::Str => "string"@,
        TomlKind::Integer => "integer"@,
        TomlKind::Float => "float"@,
        TomlKind::Boolean => "boolean"@,
        TomlKind::Datetime => "datetime"@,
        TomlKind::Array => "array"@,
        TomlKind::ArrayOfTables => "array of tables"@,
    }
}

/// Returns the name that `toml_edit` gives a kind of entry.
pub fn kind_name(k: TomlKind) -> (r: &'static str)
    ensures
        r@ == kind_name_of(k),
{
    match k {
        TomlKind::Table => "table",
        TomlKind::InlineTable => "inline table",
        TomlKind::Str => "string",
        TomlKind::Integer => "integer",
        TomlKind::Float => "float",
        TomlKind::Boolean => "boolean",
        TomlKind::Datetime => "datetime",
        TomlKind::Array => "array",
        TomlKind::ArrayOfTables => "array of tables",
    }
}

/// The keys of the top-level entries of a document, in document order.
pub uninterp spec fn toml_entry_names(doc: DocumentMut) -> Seq<Seq<char>>;

/// The kind of each top-level entry of a document, by key.
pub uninterp spec fn toml_entry_kinds(doc: DocumentMut) -> Map<Seq<char>, TomlKind>;

/// The string values held in the top-level tables of a document, by
/// section and key.
pub uninterp spec fn toml_string_fields(doc: DocumentMut) -> Map<(Seq<char>, Seq<char>), Seq<char>>;

/// The integer values held in the top-level tables of a document, by
/// section and key.
pub uninterp spec fn toml_integer_fields(doc: DocumentMut) -> Map<(Seq<char>, Seq<char>), int>;

/// Each top-level entry of a document, by key, written out as the TOML of a
/// document that holds only that entry.
pub uninterp spec fn toml_entry_texts(doc: DocumentMut) -> Map<Seq<char>, Seq<char>>;

/// Each key of the top-level tables of a document, by section and key, with
/// its value (sub-tables included) written out as TOML.
pub uninterp spec fn toml_key_texts(doc: DocumentMut) -> Map<(Seq<char>, Seq<char>), Seq<char>>;

/// Whether the text is a TOML document that `toml_edit` accepts.
pub uninterp spec fn toml_parses(raw: Seq<char>) -> bool;

/// The error that `toml_edit` reports for text it does not accept.
pub uninterp spec fn toml_parse_error(raw: Seq<char>) -> Seq<char>;

/// The keys of the top-level entries of the document that `toml_edit` reads
/// from the text, in document order.
pub uninterp spec fn toml_parsed_names(raw: Seq<char>) -> Seq<Seq<char>>;

/// The kinds of the top-level entries of the document that `toml_edit` reads
/// from the text.
pub uninterp spec fn toml_parsed_kinds(raw: Seq<char>) -> Map<Seq<char>, TomlKind>;

/// The string values in the top-level tables of the document that
/// `toml_edit` reads from the text.
pub uninterp spec fn toml_parsed_strings(raw: Seq<char>) -> Map<(Seq<char>, Seq<char>), Seq<char>>;

/// The integer values in the top-level tables of the document that
/// `toml_edit` reads from the text.
pub uninterp spec fn toml_parsed_integers(raw: Seq<char>) -> Map<(Seq<char>, Seq<char>), int>;

/// The string value under `key` in the top-level table `section`, if any.
pub open spec fn string_field(doc: DocumentMut, section: Seq<char>, key: Seq<char>) -> Option<
    Seq<char>,
> {
    if toml_string_fields(doc).dom().contains((section, key)) {
        Some(toml_string_fields(doc)[(section, key)])
    } else {
        None
    }
}

/// The integer value under `key` in the top-level table `section`, if any.
pub open spec fn integer_field(doc: DocumentMut, section: Seq<char>, key: Seq<char>) -> Option<int> {
    if toml_integer_fields(doc).dom().contains((section, key)) {
        Some(toml_integer_fields(doc)[(section, key)])
    } else {
        None
    }
}

/// Whether the top-level entry `name` exists and holds keys.
pub open spec fn is_table_entry(doc: DocumentMut, name: Seq<char>) -> bool {
    toml_entry_kinds(doc).dom().contains(name) && kind_is_table_like(toml_entry_kinds(doc)[name])
}

// ---------------------------------------------------------------------------
// Reading the configuration document
// ---------------------------------------------------------------------------

/// The message for a configuration file that is not valid TOML.
pub open spec fn unparsable_message(err: Seq<char>) -> Seq<char> {
    "config file cannot be parsed: "@ + err
}

/// Reads the text of the configuration file as a TOML document; when the
/// text is not valid TOML, the message to show names the parse error.
pub fn parse_config_document(raw: &str) -> (r: Result<DocumentMut, String>)
    ensures
        r is Ok <==> toml_parses(raw@),
        r matches Ok(d) ==> {
            &&& toml_entry_names(d) == toml_parsed_names(raw@)
            &&& toml_entry_kinds(d) == toml_parsed_kinds(raw@)
            &&& toml_string_fields(d) == toml_parsed_strings(raw@)
            &&& toml_integer_fields(d) == toml_parsed_integers(raw@)
        },
        r matches Err(m) ==> m@ == unparsable_message(toml_parse_error(raw@)),
{
    match toml_parse_document(raw) {
        Ok(d) => Ok(d),
        Err(e) => {
            let mut m = owned("config file cannot be parsed: ");
            push_str(&mut m, e.as_str());
            Err(m)
        },
    }
}

/// Whether the document has a top-level entry `name`.
pub fn has_section(doc: &DocumentMut, name: &str) -> (r: bool)
    ensures
        r == toml_entry_kinds(*doc).dom().contains(name@),
{
    toml_entry_kind(doc, name).is_some()
}

/// The sections that the section picker lists: `None` when the document has
/// no `default` entry (the wizard then edits `default` at once), else the
/// keys of all entries in document order.
pub fn section_keys(doc: &DocumentMut) -> (r: Option<Vec<String>>)
    ensures
        r is None <==> !toml_entry_kinds(*doc).dom().contains("default"@),
        r matches Some(v) ==> strings_view(v@) == toml_entry_names(*doc),
{
    if has_section(doc, "default") {
        Some(toml_entry_names_of(doc))
    } else {
        None
    }
}

/// `e` is what the pre-flight check reads of the entry `name` of `doc`.
pub open spec fn entry_read(doc: DocumentMut, name: Seq<char>, e: SectionEntry) -> bool {
    let k = toml_entry_kinds(doc)[name];
    &&& e.name@ == name
    &&& e.is_table == kind_is_table_like(k)
    &&& e.kind_name@ == kind_name_of(k)
    &&& opt_view(e.editor) == string_field(doc, name, "editor"@)
    &&& opt_view(e.notes_folder) == string_field(doc, name, "notesFolder"@)
}

/// Reads, for the pre-flight check, each top-level entry of the document in
/// order: its key, whether it is a table, its kind, and its `editor` and
/// `notesFolder` strings.
pub fn preflight_entries(doc: &DocumentMut) -> (r: Vec<SectionEntry>)
    ensures
        r@.len() == toml_entry_names(*doc).len(),
        forall|i: int|
            0 <= i < r@.len() ==> #[trigger] entry_read(*doc, toml_entry_names(*doc)[i], r@[i]),
{
    let names = toml_entry_names_of(doc);
    let mut r: Vec<SectionEntry> = Vec::new();
    let mut i: usize = 0;
    proof {
        reveal_strlit("editor");
        reveal_strlit("notesFolder");
    }
    while i < names.len()
        invariant
            i <= names@.len(),
            strings_view(names@) == toml_entry_names(*doc),
            forall|k: int| 0 <= k < names@.len() ==> toml_entry_kinds(*doc).dom().contains(#[trigger] names@[k]@),
            r@.len() == i,
            forall|k: int|
                0 <= k < i ==> #[trigger] entry_read(*doc, toml_entry_names(*doc)[k], r@[k]),
        decreases names@.len() - i,
    {
        let name = names[i].as_str();
        proof {
            assert(toml_entry_names(*doc)[i as int] == names@[i as int]@);
            assert(toml_entry_kinds(*doc).dom().contains(names@[i as int]@));
        }
        let kind = match toml_entry_kind(doc, name) {
            Some(k) => k,
            None => TomlKind::Table,
        };
        let e = SectionEntry {
            name: owned(name),
            is_table: kind == TomlKind::Table || kind == TomlKind::InlineTable,
            kind_name: owned(kind_name(kind)),
            editor: toml_get_string(doc, name, EDITOR_KEY),
            notes_folder: toml_get_string(doc, name, NOTES_FOLDER_KEY),
        };
        r.push(e);
        i = i + 1;
    }
    r
}

/// The message for an entry that the fix-up pass cannot edit.
pub open spec fn not_editable_message(name: Seq<char>) -> Seq<char> {
    "config entry `"@ + name + "` must be a table"@
}

/// What the fix-up pass reads of the entry `name`: whether its `editor` is
/// a string that names no editor, and its `notesFolder` string. An entry
/// that is missing or is not a table is an error.
pub fn section_fix_targets(doc: &DocumentMut, name: &str) -> (r: Result<
    (bool, Option<String>),
    InitError,
>)
    ensures
        is_table_entry(*doc, name@) ==> (r matches Ok((bad_editor, folder)) && bad_editor == (
        string_field(*doc, name@, "editor"@) matches Some(e) && !editor_options().contains(e))
            && opt_view(folder) == string_field(*doc, name@, "notesFolder"@)),
        !is_table_entry(*doc, name@) ==> (r matches Err(InitError::Other(m)) && m@
            == not_editable_message(name@)),
{
    proof {
        reveal_strlit("editor");
        reveal_strlit("notesFolder");
    }
    match toml_entry_kind(doc, name) {
        Some(k) => if k == TomlKind::Table || k == TomlKind::InlineTable {
            let bad_editor = match toml_get_string(doc, name, EDITOR_KEY) {
                Some(e) => !is_editor_option(e.as_str()),
                None => false,
            };
            return Ok((bad_editor, toml_get_string(doc, name, NOTES_FOLDER_KEY)));
        },
        None => {},
    }
    let mut m = owned("config entry `");
    push_str(&mut m, name);
    push_str(&mut m, "` must be a table");
    Err(InitError::Other(m))
}

/// Sets the string `value` under `key` in the top-level table `name`; every
/// other value of the document stays as it is. An entry that is missing or
/// is not a table is an error, and the document is then left unchanged.
pub fn set_section_text(doc: &mut DocumentMut, name: &str, key: &str, value: &str) -> (r: Result<
    (),
    InitError,
>)
    ensures
        !is_table_entry(*old(doc), name@) ==> (r matches Err(InitError::Other(m)) && m@
            == not_editable_message(name@)),
        !is_table_entry(*old(doc), name@) ==> *final(doc) == *old(doc),
        is_table_entry(*old(doc), name@) ==> {
            &&& r is Ok
            &&& toml_entry_names(*final(doc)) == toml_entry_names(*old(doc))
            &&& toml_entry_kinds(*final(doc)) == toml_entry_kinds(*old(doc))
            &&& toml_string_fields(*final(doc)) == toml_string_fields(*old(doc)).insert(
                (name@, key@),
                value@,
            )
            &&& toml_integer_fields(*final(doc)) == toml_integer_fields(*old(doc)).remove(
                (name@, key@),
            )
            &&& toml_entry_texts(*final(doc)).remove(name@) == toml_entry_texts(*old(doc)).remove(
                name@,
            )
            &&& toml_key_texts(*final(doc)).remove((name@, key@)) == toml_key_texts(
                *old(doc),
            ).remove((name@, key@))
        },
{
    match toml_entry_kind(doc, name) {
        Some(k) => if k == TomlKind::Table || k == TomlKind::InlineTable {
            toml_set_string(doc, name, key, value);
            return Ok(());
        },
        None => {},
    }
    let mut m = owned("config entry `");
    push_str(&mut m, name);
    push_str(&mut m, "` must be a table");
    Err(InitError::Other(m))
}

/// What the wizard's prompts offer first for a section: its current notes
/// folder, editor, template and batch size.
#[derive(Clone, Debug, PartialEq)]
pub struct PromptDefaults {
    pub notes_folder: String,
    pub editor: String,
    pub template: String,
    pub batch: usize,
}

/// A string field, or `fallback` when there is none.
pub open spec fn text_or(f: Option<Seq<char>>, fallback: Seq<char>) -> Seq<char> {
    match f {
        Some(v) => v,
        None => fallback,
    }
}

/// Reads the prompt defaults of section `name`: its notes folder (empty when
/// unset), editor (`generic`), template (empty) and batch size (1), each
/// taken only when the section holds it with the right type.
pub fn prompt_defaults(doc: &DocumentMut, name: &str) -> (r: PromptDefaults)
    ensures
        r.notes_folder@ == text_or(string_field(*doc, name@, "notesFolder"@), ""@),
        r.editor@ == text_or(string_field(*doc, name@, "editor"@), "generic"@),
        r.template@ == text_or(string_field(*doc, name@, "template"@), ""@),
        r.batch == match integer_field(*doc, name@, "batch"@) {
            Some(n) => n as usize,
            None => 1usize,
        },
{
    proof {
        reveal_strlit("editor");
        reveal_strlit("notesFolder");
        reveal_strlit("template");
        reveal_strlit("batch");
        reveal_strlit("");
    }
    let notes_folder = match toml_get_string(doc, name, NOTES_FOLDER_KEY) {
        Some(v) => v,
        None => owned(""),
    };
    let editor = match toml_get_string(doc, name, EDITOR_KEY) {
        Some(v) => v,
        None => owned("generic"),
    };
    let template = match toml_get_string(doc, name, TEMPLATE_KEY) {
        Some(v) => v,
        None => owned(""),
    };
    let batch: usize = match toml_get_integer(doc, name, BATCH_KEY) {
        Some(n) => #[verifier::truncate] (n as usize),
        None => 1,
    };
    PromptDefaults { notes_folder, editor, template, batch }
}

// ---------------------------------------------------------------------------
// Writing a section into the configuration document
// ---------------------------------------------------------------------------

/// The values that the wizard writes into a section.
#[derive(Clone, Debug, PartialEq)]
pub struct SectionValues {
    pub notes_folder: String,
    pub editor: String,
    pub template: Option<String>,
    pub batch: usize,
}

/// The string fields of a document once section `n` is written with `v`:
/// the notes folder and editor set, the template set or removed, the batch
/// key no longer a string.
pub open spec fn written_strings(
    s: Map<(Seq<char>, Seq<char>), Seq<char>>,
    n: Seq<char>,
    v: SectionValues,
) -> Map<(Seq<char>, Seq<char>), Seq<char>> {
    let s2 = s.insert((n, "notesFolder"@), v.notes_folder@).insert((n, "editor"@), v.editor@);
    let s3 = match v.template {
        Some(t) => s2.insert((n, "template"@), t@),
        None => s2.remove((n, "template"@)),
    };
    s3.remove((n, "batch"@))
}

/// The integer fields of a document once section `n` is written with `v`:
/// the batch size set, the other written keys no longer integers.
pub open spec fn written_integers(
    i: Map<(Seq<char>, Seq<char>), int>,
    n: Seq<char>,
    v: SectionValues,
) -> Map<(Seq<char>, Seq<char>), int> {
    i.remove((n, "notesFolder"@)).remove((n, "editor"@)).remove((n, "template"@)).insert(
        (n, "batch"@),
        (v.batch as i64) as int,
    )
}

/// The values of a document other than those of the four keys that the
/// wizard writes into section `n`.
pub open spec fn unwritten_keys(
    t: Map<(Seq<char>, Seq<char>), Seq<char>>,
    n: Seq<char>,
) -> Map<(Seq<char>, Seq<char>), Seq<char>> {
    t.remove((n, "notesFolder"@)).remove((n, "editor"@)).remove((n, "template"@)).remove(
        (n, "batch"@),
    )
}

/// Writes the wizard's values into section `name` of the configuration
/// document, creating the section as a table when it is missing; every other
/// entry, and every other key of the section, stays as it is. An entry of
/// that name that is not a table (or inline table) is an error and leaves
/// the document unchanged.
pub fn write_section(doc: &mut DocumentMut, name: &str, values: &SectionValues) -> (r: Result<
    (),
    InitError,
>)
    ensures
        ({
            let kinds = toml_entry_kinds(*old(doc));
            if kinds.dom().contains(name@) && !kind_is_table_like(kinds[name@]) {
                &&& r matches Err(InitError::Other(m)) && m@ == not_a_table_message(
                    name@,
                    kind_name_of(kinds[name@]),
                )
                &&& *final(doc) == *old(doc)
            } else {
                &&& r is Ok
                &&& toml_entry_kinds(*final(doc)) == if kinds.dom().contains(name@) {
                    kinds
                } else {
                    kinds.insert(name@, TomlKind::Table)
                }
                &&& toml_string_fields(*final(doc)) == written_strings(
                    toml_string_fields(*old(doc)),
                    name@,
                    *values,
                )
                &&& toml_integer_fields(*final(doc)) == written_integers(
                    toml_integer_fields(*old(doc)),
                    name@,
                    *values,
                )
                &&& toml_entry_texts(*final(doc)).remove(name@) == toml_entry_texts(
                    *old(doc),
                ).remove(name@)
                &&& unwritten_keys(toml_key_texts(*final(doc)), name@) == unwritten_keys(
                    toml_key_texts(*old(doc)),
                    name@,
                )
            }
        }),
{
    toml_ensure_table(doc, name);
    let kind = match toml_entry_kind(doc, name) {
        Some(k) => k,
        None => TomlKind::Table,
    };
    if !(kind == TomlKind::Table || kind == TomlKind::InlineTable) {
        let mut m = owned("config entry `");
        push_str(&mut m, name);
        push_str(&mut m, "` must be a table, not ");
        push_str(&mut m, kind_name(kind));
        proof {
            assert(m@ =~= not_a_table_message(name@, kind_name_of(kind)));
        }
        return Err(InitError::Other(m));
    }
    proof {
        reveal_strlit("notesFolder");
        reveal_strlit("editor");
        reveal_strlit("template");
        reveal_strlit("batch");
    }
    let ghost t0 = toml_key_texts(*doc);
    toml_set_string(doc, name, NOTES_FOLDER_KEY, values.notes_folder.as_str());
    let ghost t1 = toml_key_texts(*doc);
    toml_set_string(doc, name, EDITOR_KEY, values.editor.as_str());
    let ghost t2 = toml_key_texts(*doc);
    match &values.template {
        Some(t) => toml_set_string(doc, name, TEMPLATE_KEY, t.as_str()),
        None => toml_remove_key(doc, name, TEMPLATE_KEY),
    }
    let ghost t3 = toml_key_texts(*doc);
    toml_set_integer(doc, name, BATCH_KEY, values.batch as i64);
    proof {
        let t4 = toml_key_texts(*doc);
        assert(t1.remove((name@, "notesFolder"@)) == t0.remove((name@, "notesFolder"@)));
        assert(t2.remove((name@, "editor"@)) == t1.remove((name@, "editor"@)));
        assert(t3.remove((name@, "template"@)) == t2.remove((name@, "template"@)));
        assert(t4.remove((name@, "batch"@)) == t3.remove((name@, "batch"@)));
        assert(unwritten_keys(t4, name@) =~= unwritten_keys(t0, name@)) by {
            assert forall|x: (Seq<char>, Seq<char>)|
                #[trigger] unwritten_keys(t4, name@).dom().contains(x) == unwritten_keys(
                    t0,
                    name@,
                ).dom().contains(x) by {
                if x != (name@, "notesFolder"@) && x != (name@, "editor"@) && x != (
                name@, "template"@) && x != (name@, "batch"@) {
                    assert(t4.remove((name@, "batch"@)).dom().contains(x) == t4.dom().contains(x));
                    assert(t3.remove((name@, "batch"@)).dom().contains(x) == t3.dom().contains(x));
                    assert(t3.remove((name@, "template"@)).dom().contains(x) == t3.dom().contains(x));
                    assert(t2.remove((name@, "template"@)).dom().contains(x) == t2.dom().contains(x));
                    assert(t2.remove((name@, "editor"@)).dom().contains(x) == t2.dom().contains(x));
                    assert(t1.remove((name@, "editor"@)).dom().contains(x) == t1.dom().contains(x));
                    assert(t1.remove((name@, "notesFolder"@)).dom().contains(x) == t1.dom().contains(x));
                    assert(t0.remove((name@, "notesFolder"@)).dom().contains(x) == t0.dom().contains(x));
                }
            }
            assert forall|x: (Seq<char>, Seq<char>)|
                #[trigger] unwritten_keys(t4, name@).dom().contains(x) implies unwritten_keys(
                    t4,
                    name@,
                )[x] == unwritten_keys(t0, name@)[x] by {
                assert(t4.remove((name@, "batch"@))[x] == t4[x]);
                assert(t3.remove((name@, "batch"@))[x] == t3[x]);
                assert(t3.remove((name@, "template"@))[x] == t3[x]);
                assert(t2.remove((name@, "template"@))[x] == t2[x]);
                assert(t2.remove((name@, "editor"@))[x] == t2[x]);
                assert(t1.remove((name@, "editor"@))[x] == t1[x]);
                assert(t1.remove((name@, "notesFolder"@))[x] == t1[x]);
                assert(t0.remove((name@, "notesFolder"@))[x] == t0[x]);
            }
        }
    }
    Ok(())
}

/// Writing a section changes no field of any other section.
pub proof fn law_write_section_keeps_other_sections(
    s: Map<(Seq<char>, Seq<char>), Seq<char>>,
    i: Map<(Seq<char>, Seq<char>), int>,
    n: Seq<char>,
    v: SectionValues,
    other: Seq<char>,
    key: Seq<char>,
)
    requires
        other != n,
    ensures
        written_strings(s, n, v).dom().contains((other, key)) == s.dom().contains((other, key)),
        s.dom().contains((other, key)) ==> written_strings(s, n, v)[(other, key)] == s[(other, key)],
        written_integers(i, n, v).dom().contains((other, key)) == i.dom().contains((other, key)),
        i.dom().contains((other, key)) ==> written_integers(i, n, v)[(other, key)] == i[(other, key)],
{
}

/// Reading back a written section gives the written values.
pub proof fn law_write_section_reads_back(
    s: Map<(Seq<char>, Seq<char>), Seq<char>>,
    i: Map<(Seq<char>, Seq<char>), int>,
    n: Seq<char>,
    v: SectionValues,
)
    ensures
        written_strings(s, n, v)[(n, "notesFolder"@)] == v.notes_folder@,
        written_strings(s, n, v)[(n, "editor"@)] == v.editor@,
        v.template matches Some(t) ==> written_strings(s, n, v)[(n, "template"@)] == t@,
        v.template is None ==> !written_strings(s, n, v).dom().contains((n, "template"@)),
        written_integers(i, n, v)[(n, "batch"@)] == (v.batch as i64) as int,
{
    reveal_strlit("notesFolder");
    reveal_strlit("editor");
    reveal_strlit("template");
    reveal_strlit("batch");
    assert("notesFolder"@.len() == 11 && "editor"@.len() == 6);
    assert("template"@.len() == 8 && "batch"@.len() == 5);
}

// ---------------------------------------------------------------------------
// toml_edit
// ---------------------------------------------------------------------------

/// `str::parse::<DocumentMut>`, `toml_edit`'s parser, on the text of a
/// configuration file; the error as its `Display` writes it. What the parser
/// accepts and reads is named, not stated.
#[verifier::external_body]
fn toml_parse_document(raw: &str) -> (r: Result<DocumentMut, String>)
    ensures
        r is Ok <==> toml_parses(raw@),
        r matches Ok(d) ==> {
            &&& toml_entry_names(d) == toml_parsed_names(raw@)
            &&& toml_entry_kinds(d) == toml_parsed_kinds(raw@)
            &&& toml_string_fields(d) == toml_parsed_strings(raw@)
            &&& toml_integer_fields(d) == toml_parsed_integers(raw@)
        },
        r matches Err(m) ==> m@ == toml_parse_error(raw@),
{
    match raw.parse::<DocumentMut>() {
        Ok(d) => Ok(d),
        Err(e) => Err(e.to_string()),
    }
}

/// `Table::iter` on the document, keys only: the top-level entries in
/// document order, each of which has a kind.
#[verifier::external_body]
fn toml_entry_names_of(doc: &DocumentMut) -> (r: Vec<String>)
    ensures
        strings_view(r@) == toml_entry_names(*doc),
        forall|i: int| 0 <= i < r@.len() ==> toml_entry_kinds(*doc).dom().contains(#[trigger] r@[i]@),
{
    doc.iter().map(|(k, _)| k.to_string()).collect()
}

/// `DocumentMut::get` on a top-level key, told apart by the kind of the
/// entry: `None` when there is no such entry.
#[verifier::external_body]
fn toml_entry_kind(doc: &DocumentMut, name: &str) -> (r: Option<TomlKind>)
    ensures
        r == if toml_entry_kinds(*doc).dom().contains(name@) {
            Some(toml_entry_kinds(*doc)[name@])
        } else {
            None
        },
{
    match doc.get(name) {
        Some(Item::Table(_)) => Some(TomlKind::Table),
        Some(Item::ArrayOfTables(_)) => Some(TomlKind::ArrayOfTables),
        Some(Item::Value(v)) => Some(match v {
            Value::InlineTable(_) => TomlKind::InlineTable,
            Value::String(_) => TomlKind::Str,
            Value::Integer(_) => TomlKind::Integer,
            Value::Float(_) => TomlKind::Float,
            Value::Boolean(_) => TomlKind::Boolean,
            Value::Datetime(_) => TomlKind::Datetime,
            Value::Array(_) => TomlKind::Array,
        }),
        _ => None,
    }
}

/// `DocumentMut::get`, `Item::as_table_like`, `TableLike::get` and
/// `Item::as_str`: the string under `key` in the top-level table `section`.
#[verifier::external_body]
fn toml_get_string(doc: &DocumentMut, section: &str, key: &str) -> (r: Option<String>)
    ensures
        opt_view(r) == string_field(*doc, section@, key@),
{
    match doc.get(section).and_then(Item::as_table_like) {
        Some(t) => t.get(key).and_then(Item::as_str).map(str::to_string),
        None => None,
    }
}

/// `DocumentMut::get`, `Item::as_table_like`, `TableLike::get` and
/// `Item::as_integer`: the integer under `key` in the top-level table
/// `section`.
#[verifier::external_body]
fn toml_get_integer(doc: &DocumentMut, section: &str, key: &str) -> (r: Option<i64>)
    ensures
        r is Some <==> integer_field(*doc, section@, key@) is Some,
        r matches Some(n) ==> integer_field(*doc, section@, key@) == Some(n as int),
{
    match doc.get(section).and_then(Item::as_table_like) {
        Some(t) => t.get(key).and_then(Item::as_integer),
        None => None,
    }
}

/// `doc[name].or_insert(Item::Table(Table::new()))`: a missing top-level
/// entry becomes an empty table; an existing one is left as it is, and so is
/// the whole document then.
#[verifier::external_body]
fn toml_ensure_table(doc: &mut DocumentMut, name: &str)
    ensures
        toml_entry_kinds(*old(doc)).dom().contains(name@) ==> *final(doc) == *old(doc),
        toml_entry_kinds(*final(doc)) == if toml_entry_kinds(*old(doc)).dom().contains(name@) {
            toml_entry_kinds(*old(doc))
        } else {
            toml_entry_kinds(*old(doc)).insert(name@, TomlKind::Table)
        },
        toml_string_fields(*final(doc)) == toml_string_fields(*old(doc)),
        toml_integer_fields(*final(doc)) == toml_integer_fields(*old(doc)),
        toml_entry_texts(*final(doc)).remove(name@) == toml_entry_texts(*old(doc)).remove(name@),
        toml_key_texts(*final(doc)) == toml_key_texts(*old(doc)),
{
    doc[name].or_insert(Item::Table(Table::new()));
}

/// `TableLike::insert` of a string value under `key` in the top-level table
/// `section`: the key then holds that string; nothing outside that key
/// changes.
#[verifier::external_body]
fn toml_set_string(doc: &mut DocumentMut, section: &str, key: &str, value: &str)
    requires
        is_table_entry(*old(doc), section@),
    ensures
        toml_entry_names(*final(doc)) == toml_entry_names(*old(doc)),
        toml_entry_kinds(*final(doc)) == toml_entry_kinds(*old(doc)),
        toml_string_fields(*final(doc)) == toml_string_fields(*old(doc)).insert((section@, key@), value@),
        toml_integer_fields(*final(doc)) == toml_integer_fields(*old(doc)).remove((section@, key@)),
        toml_entry_texts(*final(doc)).remove(section@) == toml_entry_texts(*old(doc)).remove(section@),
        toml_key_texts(*final(doc)).remove((section@, key@)) == toml_key_texts(*old(doc)).remove(
            (section@, key@),
        ),
{
    if let Some(t) = doc[section].as_table_like_mut() {
        t.insert(key, toml_edit::value(value));
    }
}

/// `TableLike::insert` of an integer value under `key` in the top-level
/// table `section`: the key then holds that integer; nothing outside that
/// key changes.
#[verifier::external_body]
fn toml_set_integer(doc: &mut DocumentMut, section: &str, key: &str, value: i64)
    requires
        is_table_entry(*old(doc), section@),
    ensures
        toml_entry_names(*final(doc)) == toml_entry_names(*old(doc)),
        toml_entry_kinds(*final(doc)) == toml_entry_kinds(*old(doc)),
        toml_string_fields(*final(doc)) == toml_string_fields(*old(doc)).remove((section@, key@)),
        toml_integer_fields(*final(doc)) == toml_integer_fields(*old(doc)).insert((section@, key@), value as int),
        toml_entry_texts(*final(doc)).remove(section@) == toml_entry_texts(*old(doc)).remove(section@),
        toml_key_texts(*final(doc)).remove((section@, key@)) == toml_key_texts(*old(doc)).remove(
            (section@, key@),
        ),
{
    if let Some(t) = doc[section].as_table_like_mut() {
        t.insert(key, toml_edit::value(value));
    }
}

/// `TableLike::remove` of `key` in the top-level table `section`: the key
/// then holds nothing; nothing else changes.
#[verifier::external_body]
fn toml_remove_key(doc: &mut DocumentMut, section: &str, key: &str)
    requires
        is_table_entry(*old(doc), section@),
    ensures
        toml_entry_names(*final(doc)) == toml_entry_names(*old(doc)),
        toml_entry_kinds(*final(doc)) == toml_entry_kinds(*old(doc)),
        toml_string_fields(*final(doc)) == toml_string_fields(*old(doc)).remove((section@, key@)),
        toml_integer_fields(*final(doc)) == toml_integer_fields(*old(doc)).remove((section@, key@)),
        toml_entry_texts(*final(doc)).remove(section@) == toml_entry_texts(*old(doc)).remove(section@),
        toml_key_texts(*final(doc)) == toml_key_texts(*old(doc)).remove((section@, key@)),
{
    if let Some(t) = doc[section].as_table_like_mut() {
        t.remove(key);
    }
}

} // verus!
