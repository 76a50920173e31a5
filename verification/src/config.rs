//! Configuration sections: which section of the configuration file applies,
//! the built-in defaults, `~` expansion in path fields, and merging with
//! command-line flags.
use vstd::prelude::*;

use crate::text::{join_path, owned, path_join, str_eq};

verus! {

/// Path of the configuration file, relative to the home directory.
pub const CONFIG_PATH: &'static str = ".config/take-note/config.toml";

/// The smallest number of notes that one command creates.
pub const BATCH_SIZE_MIN: usize = 1;

/// The largest number of notes that one command creates.
pub const BATCH_SIZE_MAX: usize = 8;

/// Whether `n` is an accepted batch size.
pub fn batch_size_in_range(n: usize) -> (r: bool)
    ensures
        r == (BATCH_SIZE_MIN <= n <= BATCH_SIZE_MAX),
{
    BATCH_SIZE_MIN <= n && n <= BATCH_SIZE_MAX
}

/// Supported editor types.
#[derive(Clone, Copy, Debug, PartialEq, Eq, Structural)]
pub enum Editor {
    Generic,
    Obsidian,
    Vscode,
}

impl Default for Editor {
    fn default() -> (r: Editor)
        ensures
            r == Editor::Generic,
    {
        Editor::Generic
    }
}

/// Configuration for a single named profile.
#[derive(Clone, Debug, Default, PartialEq)]
pub struct NamedConfig {
    pub notes_folder: Option<String>,
    pub editor: Option<Editor>,
    pub template: Option<String>,
    pub batch: Option<usize>,
}

/// A copy of an optional string.
pub fn copy_opt_string(s: &Option<String>) -> (r: Option<String>)
    ensures
        r == *s,
{
    match s {
        Some(v) => Some(v.clone()),
        None => None,
    }
}

impl NamedConfig {
    /// A section that sets nothing.
    pub fn empty() -> (r: NamedConfig)
        ensures
            r == NamedConfig::empty_spec(),
    {
        NamedConfig { notes_folder: None, editor: None, template: None, batch: None }
    }

    /// A section that sets nothing.
    pub open spec fn empty_spec() -> NamedConfig {
        NamedConfig { notes_folder: None, editor: None, template: None, batch: None }
    }

    /// A copy of this section.
    pub fn duplicate(&self) -> (r: NamedConfig)
        ensures
            r == *self,
    {
        NamedConfig {
            notes_folder: copy_opt_string(&self.notes_folder),
            editor: self.editor,
            template: copy_opt_string(&self.template),
            batch: self.batch,
        }
    }
}

/// Full config file contents: named sections.
pub struct ConfigFile {
    sections: Vec<(String, NamedConfig)>,
}

/// The section named `name` among `secs`; the first one when a name recurs.
pub open spec fn lookup_section(secs: Seq<(String, NamedConfig)>, name: Seq<char>) -> Option<
    NamedConfig,
>
    decreases secs.len(),
{
    if secs.len() == 0 {
        None
    } else if secs[0].0@ == name {
        Some(secs[0].1)
    } else {
        lookup_section(secs.drop_first(), name)
    }
}

impl ConfigFile {
    /// The section named `name`, if the file has one.
    pub closed spec fn section(&self, name: Seq<char>) -> Option<NamedConfig> {
        lookup_section(self.sections@, name)
    }

    /// A file without sections.
    pub fn new() -> (r: ConfigFile)
        ensures
            forall|name: Seq<char>| #[trigger] r.section(name) is None,
    {
        ConfigFile { sections: Vec::new() }
    }

    /// Sets the section `name`, replacing one of that name.
    pub fn insert(&mut self, name: String, section: NamedConfig)
        ensures
            final(self).section(name@) == Some(section),
            forall|other: Seq<char>|
                other != name@ ==> #[trigger] final(self).section(other) == old(self).section(
                    other,
                ),
    {
        let n = self.sections.len();
        let mut i: usize = 0;
        while i < n
            invariant
                self.sections@ == old(self).sections@,
                n == self.sections@.len(),
                i <= n,
                forall|k: int| 0 <= k < i ==> (#[trigger] self.sections@[k]).0@ != name@,
            decreases n - i,
        {
            if str_eq(self.sections[i].0.as_str(), name.as_str()) {
                let ghost old_secs = self.sections@;
                self.sections.set(i, (name, section));
                proof {
                    lemma_lookup_update(old_secs, i as int, self.sections@[i as int]);
                    assert(self.sections@ == old_secs.update(i as int, self.sections@[i as int]));
                    assert forall|other: Seq<char>| other != name@ implies #[trigger] self.section(
                        other,
                    ) == old(self).section(other) by {
                        assert(lookup_section(self.sections@, other) == lookup_section(
                            old_secs,
                            other,
                        ));
                    }
                }
                return;
            }
            i = i + 1;
        }
        let ghost old_secs = self.sections@;
        self.sections.push((name, section));
        proof {
            lemma_lookup_push(old_secs, self.sections@.last());
            assert(self.sections@ == old_secs.push(self.sections@.last()));
            assert forall|other: Seq<char>| other != name@ implies #[trigger] self.section(other)
                == old(self).section(other) by {
                assert(lookup_section(self.sections@, other) == lookup_section(old_secs, other));
            }
        }
    }

    /// The section named `name`, if the file has one.
    pub fn get(&self, name: &str) -> (r: Option<NamedConfig>)
        ensures
            r == self.section(name@),
    {
        let n = self.sections.len();
        let mut i: usize = 0;
        proof {
            assert(self.sections@.skip(0) =~= self.sections@);
        }
        while i < n
            invariant
                n == self.sections@.len(),
                i <= n,
                lookup_section(self.sections@, name@) == lookup_section(
                    self.sections@.skip(i as int),
                    name@,
                ),
            decreases n - i,
        {
            proof {
                assert(self.sections@.skip(i as int).drop_first() =~= self.sections@.skip(i + 1));
            }
            if str_eq(self.sections[i].0.as_str(), name) {
                return Some(self.sections[i].1.duplicate());
            }
            i = i + 1;
        }
        None
    }
}

proof fn lemma_lookup_update(
    secs: Seq<(String, NamedConfig)>,
    i: int,
    entry: (String, NamedConfig),
)
    requires
        0 <= i < secs.len(),
        forall|k: int| 0 <= k < i ==> (#[trigger] secs[k]).0@ != entry.0@,
        secs[i].0@ == entry.0@,
    ensures
        lookup_section(secs.update(i, entry), entry.0@) == Some(entry.1),
        forall|other: Seq<char>|
            other != entry.0@ ==> #[trigger] lookup_section(secs.update(i, entry), other)
                == lookup_section(secs, other),
    decreases i,
{
    let u = secs.update(i, entry);
    if i > 0 {
        assert(u.drop_first() =~= secs.drop_first().update(i - 1, entry));
        lemma_lookup_update(secs.drop_first(), i - 1, entry);
        assert forall|other: Seq<char>| other != entry.0@ implies #[trigger] lookup_section(
            u,
            other,
        ) == lookup_section(secs, other) by {
            assert(u[0] == secs[0]);
            if secs[0].0@ != other {
                assert(lookup_section(u, other) == lookup_section(u.drop_first(), other));
                assert(lookup_section(secs, other) == lookup_section(secs.drop_first(), other));
            }
        }
    } else {
        assert(u.drop_first() =~= secs.drop_first());
        assert forall|other: Seq<char>| other != entry.0@ implies #[trigger] lookup_section(
            u,
            other,
        ) == lookup_section(secs, other) by {
            assert(u[0] == entry);
            assert(secs[0].0@ != other);
            assert(u.drop_first() == secs.drop_first());
            assert(lookup_section(u, other) == lookup_section(u.drop_first(), other));
            assert(lookup_section(secs, other) == lookup_section(secs.drop_first(), other));
        }
    }
}

proof fn lemma_lookup_push(secs: Seq<(String, NamedConfig)>, entry: (String, NamedConfig))
    requires
        forall|k: int| 0 <= k < secs.len() ==> (#[trigger] secs[k]).0@ != entry.0@,
    ensures
        lookup_section(secs.push(entry), entry.0@) == Some(entry.1),
        forall|other: Seq<char>|
            other != entry.0@ ==> #[trigger] lookup_section(secs.push(entry), other)
                == lookup_section(secs, other),
    decreases secs.len(),
{
    let p = secs.push(entry);
    if secs.len() > 0 {
        assert(p.drop_first() =~= secs.drop_first().push(entry));
        lemma_lookup_push(secs.drop_first(), entry);
        assert forall|other: Seq<char>| other != entry.0@ implies #[trigger] lookup_section(
            p,
            other,
        ) == lookup_section(secs, other) by {
            assert(p[0] == secs[0]);
            if secs[0].0@ != other {
                assert(lookup_section(p, other) == lookup_section(p.drop_first(), other));
                assert(lookup_section(secs, other) == lookup_section(secs.drop_first(), other));
            }
        }
    } else {
        assert(p.drop_first() =~= Seq::<(String, NamedConfig)>::empty());
        assert forall|other: Seq<char>| other != entry.0@ implies #[trigger] lookup_section(
            p,
            other,
        ) == lookup_section(secs, other) by {
            assert(p[0] == entry);
            assert(lookup_section(p, other) == lookup_section(p.drop_first(), other));
            assert(lookup_section(p.drop_first(), other) is None);
        }
    }
}

// ---------------------------------------------------------------------------
// Choosing and completing a section
// ---------------------------------------------------------------------------

/// `a` unless it is unset, else `b`.
pub open spec fn or_else<T>(a: Option<T>, b: Option<T>) -> Option<T> {
    match a {
        Some(v) => Some(v),
        None => b,
    }
}

/// The section `name` of `file`, or one that sets nothing.
pub open spec fn section_or_empty(file: ConfigFile, name: Seq<char>) -> NamedConfig {
    match file.section(name) {
        Some(c) => c,
        None => NamedConfig::empty_spec(),
    }
}

/// `top` laid over `base`: each field from `top` where it is set, else from
/// `base`.
pub open spec fn layered(top: NamedConfig, base: NamedConfig) -> NamedConfig {
    NamedConfig {
        notes_folder: or_else(top.notes_folder, base.notes_folder),
        editor: or_else(top.editor, base.editor),
        template: or_else(top.template, base.template),
        batch: or_else(top.batch, base.batch),
    }
}

/// The section that applies. When `name` is the base name `default` and the
/// command has a section of its own (`fallback`, such as `weekly`), that
/// section laid over `[default]`; otherwise the section `name`, else
/// `[default]`, else one that sets nothing.
pub open spec fn chosen_section(file: ConfigFile, name: Seq<char>, fallback: Option<Seq<char>>) -> NamedConfig {
    match fallback {
        Some(f) if name == "default"@ => layered(
            section_or_empty(file, f),
            section_or_empty(file, "default"@),
        ),
        _ => match file.section(name) {
            Some(c) => c,
            None => section_or_empty(file, "default"@),
        },
    }
}

/// Without a named config, the command's own section wins over `[default]`
/// field by field: every field that the command section sets is taken from
/// it, and only a field that it leaves unset comes from `[default]` (and
/// from `[default]` alone when the command has no section).
pub proof fn law_command_section_over_default(file: ConfigFile, f: Seq<char>)
    ensures
        ({
            let c = chosen_section(file, "default"@, Some(f));
            let top = section_or_empty(file, f);
            let base = section_or_empty(file, "default"@);
            &&& top.notes_folder is Some ==> c.notes_folder == top.notes_folder
            &&& top.editor is Some ==> c.editor == top.editor
            &&& top.template is Some ==> c.template == top.template
            &&& top.batch is Some ==> c.batch == top.batch
            &&& top.notes_folder is None ==> c.notes_folder == base.notes_folder
            &&& top.editor is None ==> c.editor == base.editor
            &&& top.template is None ==> c.template == base.template
            &&& top.batch is None ==> c.batch == base.batch
        }),
{
}

/// A named config is taken whole: its fields when the section exists, else
/// those of `[default]`; command sections play no part.
pub proof fn law_named_section_whole(file: ConfigFile, name: Seq<char>, fallback: Option<Seq<char>>)
    requires
        name != "default"@,
    ensures
        file.section(name) matches Some(c) ==> chosen_section(file, name, fallback) == c,
        file.section(name) is None ==> chosen_section(file, name, fallback) == section_or_empty(
            file,
            "default"@,
        ),
{
}

/// `value` with a leading `~/` replaced by the home directory `home`.
pub open spec fn expand_home_in(value: Seq<char>, home: Seq<char>) -> Seq<char> {
    if value.len() >= 2 && value[0] == '~' && value[1] == '/' {
        path_join(home, value.skip(2))
    } else {
        value
    }
}

/// An optional path with `~/` expanded.
pub open spec fn expand_opt(value: Option<String>, home: Seq<char>) -> Option<Seq<char>> {
    match value {
        Some(v) => Some(expand_home_in(v@, home)),
        None => None,
    }
}

/// The view of an optional string slice.
pub open spec fn opt_str_view(value: Option<&str>) -> Option<Seq<char>> {
    match value {
        Some(v) => Some(v@),
        None => None,
    }
}

/// The view of an optional string.
pub open spec fn opt_view(value: Option<String>) -> Option<Seq<char>> {
    match value {
        Some(v) => Some(v@),
        None => None,
    }
}

/// The section of `file` that applies, completed with the built-in defaults
/// (editor `generic`, batch 1) and with `~/` expanded to `home` in its path
/// fields.
pub open spec fn resolved_config(
    file: ConfigFile,
    name: Seq<char>,
    fallback: Option<Seq<char>>,
    home: Seq<char>,
    r: NamedConfig,
) -> bool {
    let c = chosen_section(file, name, fallback);
    &&& opt_view(r.notes_folder) == expand_opt(c.notes_folder, home)
    &&& opt_view(r.template) == expand_opt(c.template, home)
    &&& r.editor == Some(
        match c.editor {
            Some(e) => e,
            None => Editor::Generic,
        },
    )
    &&& r.batch == Some(
        match c.batch {
            Some(b) => b,
            None => 1usize,
        },
    )
}

/// Expands a leading `~/` in `value` to the home directory `home`, joining
/// the rest as a path.
pub fn expand_home_with(value: &str, home: &str) -> (r: String)
    ensures
        r@ == expand_home_in(value@, home@),
{
    let v = crate::text::chars_of(value);
    if v.len() >= 2 && v[0] == '~' && v[1] == '/' {
        let rest = crate::text::string_of_range(&v, 2, v.len());
        proof {
            assert(rest@ =~= value@.skip(2));
        }
        join_path(home, rest.as_str())
    } else {
        owned(value)
    }
}

fn or_empty(c: Option<NamedConfig>) -> (r: NamedConfig)
    ensures
        r == match c {
            Some(v) => v,
            None => NamedConfig::empty_spec(),
        },
{
    match c {
        Some(v) => v,
        None => NamedConfig::empty(),
    }
}

fn layer(top: NamedConfig, base: NamedConfig) -> (r: NamedConfig)
    ensures
        r == layered(top, base),
{
    NamedConfig {
        notes_folder: match top.notes_folder {
            Some(v) => Some(v),
            None => base.notes_folder,
        },
        editor: match top.editor {
            Some(v) => Some(v),
            None => base.editor,
        },
        template: match top.template {
            Some(v) => Some(v),
            None => base.template,
        },
        batch: match top.batch {
            Some(v) => Some(v),
            None => base.batch,
        },
    }
}

fn expand_opt_with(value: &Option<String>, home: &str) -> (r: Option<String>)
    ensures
        opt_view(r) == expand_opt(*value, home@),
{
    match value {
        Some(v) => Some(expand_home_with(v.as_str(), home)),
        None => None,
    }
}

/// Picks the section of `file` that applies, fills in the built-in defaults
/// and expands `~/` to `home` in the path fields.
pub fn config_for(file: &ConfigFile, name: &str, fallback: Option<&str>, home: &str) -> (r: NamedConfig)
    ensures
        resolved_config(
            *file,
            name@,
            opt_str_view(fallback),
            home@,
            r,
        ),
{
    let section = match fallback {
        Some(f) if str_eq(name, "default") => layer(
            or_empty(file.get(f)),
            or_empty(file.get("default")),
        ),
        _ => match file.get(name) {
            Some(c) => c,
            None => or_empty(file.get("default")),
        },
    };
    NamedConfig {
        notes_folder: expand_opt_with(&section.notes_folder, home),
        editor: Some(
            match section.editor {
                Some(e) => e,
                None => Editor::Generic,
            },
        ),
        template: expand_opt_with(&section.template, home),
        batch: Some(
            match section.batch {
                Some(b) => b,
                None => 1,
            },
        ),
    }
}

/// The directory that `~` stands for: the home directory when it is known,
/// else the current directory `.`.
pub open spec fn home_or_current(home: Option<Seq<char>>) -> Seq<char> {
    match home {
        Some(h) => h,
        None => "."@,
    }
}

/// The directory that `~` stands for for the running user: the home
/// directory, or `.` when it is unknown.
fn home_dir() -> (r: String)
    ensures
        exists|home: Option<Seq<char>>| r@ == #[trigger] home_or_current(home),
{
    let home = home_dir_text();
    proof {
        reveal_strlit(".");
    }
    match home {
        Some(h) => {
            assert(h@ == home_or_current(Some(h@)));
            h
        },
        None => {
            let r = owned(".");
            assert(r@ == home_or_current(None));
            r
        },
    }
}

/// Picks the section of `file` that applies as [`config_for`] does, with the
/// home directory of the running user (`.` when it is unknown).
pub fn load_section(file: &ConfigFile, name: &str, fallback: Option<&str>) -> (r: NamedConfig)
    ensures
        exists|home: Option<Seq<char>>|
            #[trigger] resolved_config(
                *file,
                name@,
                opt_str_view(fallback),
                home_or_current(home),
                r,
            ),
{
    let home = home_dir();
    let r = config_for(file, name, fallback, home.as_str());
    proof {
        let h = choose|h: Option<Seq<char>>| home@ == #[trigger] home_or_current(h);
        assert(resolved_config(*file, name@, opt_str_view(fallback), home_or_current(h), r));
    }
    r
}

/// Expands a leading `~/` in `value` to the home directory of the running
/// user (`.` when it is unknown); other values are kept as they are.
pub fn expand_home(value: &str) -> (r: String)
    ensures
        exists|home: Option<Seq<char>>| r@ == #[trigger] expand_home_in(value@, home_or_current(home)),
        !(value@.len() >= 2 && value@[0] == '~' && value@[1] == '/') ==> r@ == value@,
{
    let home = home_dir();
    let r = expand_home_with(value, home.as_str());
    proof {
        let h = choose|h: Option<Seq<char>>| home@ == #[trigger] home_or_current(h);
        assert(r@ == expand_home_in(value@, home_or_current(h)));
    }
    r
}

/// `dirs::home_dir`, as text. Nothing is stated of the result: it depends on
/// the environment of the running process.
#[verifier::external_body]
fn home_dir_text() -> Option<String> {
    dirs::home_dir().map(|p| p.to_string_lossy().into_owned())
}

// ---------------------------------------------------------------------------
// Merging with flags
// ---------------------------------------------------------------------------

/// Flag sets that configuration values can fill in.
pub trait Mergeable: Sized {
    /// Whether `r` is what the flags become once `config` fills in what
    /// they leave unset.
    spec fn merges_to(self, config: NamedConfig, r: Self) -> bool;

    /// Fills in, from `config`, the values that the flags leave unset.
    fn merge(self, config: &NamedConfig) -> (r: Self)
        ensures
            self.merges_to(*config, r),
    ;
}

/// Merges config values with CLI flags, with CLI flags taking precedence:
/// a config value applies only where the corresponding flag is unset.
pub fn merge_with_flags<T: Mergeable>(config: &NamedConfig, flags: T) -> (r: T)
    ensures
        flags.merges_to(*config, r),
{
    flags.merge(config)
}

} // verus!
