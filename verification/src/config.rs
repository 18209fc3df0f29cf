//! Editor configuration, read from a TOML table.
use vstd::prelude::*;

verus! {

#[verifier::external_type_specification]
#[verifier::external_body]
#[verifier::reject_recursive_types(K)]
#[verifier::reject_recursive_types(V)]
pub struct ExTomlMap<K, V>(toml::map::Map<K, V>);

#[verifier::external_type_specification]
#[verifier::external_body]
pub struct ExTomlValue(toml::Value);

/// A TOML value as far as the configuration reads it.
pub enum TomlScalar {
    Str(Seq<char>),
    Bool(bool),
    /// Any other kind of value (number, array, table, date).
    Other,
}

/// Names the entries of a TOML table, keyed by name.
pub uninterp spec fn toml_entries(t: toml::Table) -> Map<Seq<char>, TomlScalar>;

/// Names the entries of the table that a text parses to as TOML, or `None`
/// when it does not parse.
pub uninterp spec fn toml_parsed(text: Seq<char>) -> Option<Map<Seq<char>, TomlScalar>>;

/// Names the message (the parse error's `Display`) of a text that does not
/// parse as TOML.
pub uninterp spec fn toml_error_text(text: Seq<char>) -> Seq<char>;

/// `str::parse::<toml::Table>`: the table the text parses to, whose entries
/// are the named ones; an error, with the named message, exactly when the
/// text does not parse.
#[verifier::external_body]
fn toml_parse(text: &str) -> (r: Result<toml::Table, String>)
    ensures
        match r {
            Ok(t) => toml_parsed(text@) == Some(toml_entries(t)),
            Err(m) => toml_parsed(text@) is None && m@ == toml_error_text(text@),
        },
{
    match text.parse::<toml::Table>() {
        Ok(t) => Ok(t),
        Err(e) => Err(e.to_string()),
    }
}

/// A setting of the table: absent, a string, a boolean, or something else.
pub enum Setting {
    Absent,
    Str(String),
    Bool(bool),
    Other,
}

impl View for Setting {
    type V = Option<TomlScalar>;

    open spec fn view(&self) -> Option<TomlScalar> {
        match self {
            Setting::Absent => None,
            Setting::Str(s) => Some(TomlScalar::Str(s@)),
            Setting::Bool(b) => Some(TomlScalar::Bool(*b)),
            Setting::Other => Some(TomlScalar::Other),
        }
    }
}

/// `Map::get` on a TOML table, then `Value::as_str` / `Value::as_bool`: the
/// value stored under `key`, if any.
#[verifier::external_body]
fn table_setting(t: &toml::Table, key: &str) -> (r: Setting)
    ensures
        r@ == if toml_entries(*t).contains_key(key@) {
            Some(toml_entries(*t)[key@])
        } else {
            None
        },
{
    match t.get(key) {
        None => Setting::Absent,
        Some(toml::Value::String(s)) => Setting::Str(s.clone()),
        Some(toml::Value::Boolean(b)) => Setting::Bool(*b),
        Some(_) => Setting::Other,
    }
}

/// Editor configuration.
#[derive(Debug, Clone)]
pub struct Config {
    /// Default keymap: "vim" or "emacs".
    pub keymap: String,
    /// Show line numbers by default.
    pub show_line_numbers: bool,
    /// Show relative line numbers by default.
    pub show_relative_numbers: bool,
    /// Enable soft line wrapping.
    pub wrap: bool,
}

impl Default for Config {
    fn default() -> (c: Self)
        ensures
            c.keymap@ == "vim"@,
            c.show_line_numbers,
            !c.show_relative_numbers,
            c.wrap,
    {
        Config { keymap: String::from_str("vim"), show_line_numbers: true, show_relative_numbers: false, wrap: true }
    }
}

/// A boolean setting, or the default when absent or not a boolean.
pub open spec fn bool_setting(entries: Map<Seq<char>, TomlScalar>, key: Seq<char>, default: bool) -> bool {
    if entries.contains_key(key) {
        match entries[key] {
            TomlScalar::Bool(b) => b,
            _ => default,
        }
    } else {
        default
    }
}

/// The keymap setting: `vim` or `emacs`; anything else leaves `vim`.
pub open spec fn keymap_setting(entries: Map<Seq<char>, TomlScalar>) -> Seq<char> {
    if entries.contains_key("keymap"@) {
        match entries["keymap"@] {
            TomlScalar::Str(s) => if s == "vim"@ || s == "emacs"@ {
                s
            } else {
                "vim"@
            },
            _ => "vim"@,
        }
    } else {
        "vim"@
    }
}

fn bool_or(s: Setting, default: bool) -> (r: bool)
    ensures
        r == match s@ {
            Some(TomlScalar::Bool(b)) => b,
            _ => default,
        },
{
    match s {
        Setting::Bool(b) => b,
        _ => default,
    }
}

impl Config {
    /// The configuration a TOML table gives: each known key that holds a
    /// value of the right kind overrides the default (the keymap only with
    /// `vim` or `emacs`); other keys and values are ignored.
    pub fn from_table(table: &toml::Table) -> (c: Self)
        ensures
            c.keymap@ == keymap_setting(toml_entries(*table)),
            c.show_line_numbers == bool_setting(toml_entries(*table), "show_line_numbers"@, true),
            c.show_relative_numbers == bool_setting(toml_entries(*table), "show_relative_numbers"@, false),
            c.wrap == bool_setting(toml_entries(*table), "wrap"@, true),
    {
        let mut out = Config::default();
        match table_setting(table, "keymap") {
            Setting::Str(s) => {
                let cs = crate::strutil::chars_of(s.as_str());
                let vim = crate::strutil::chars_of("vim");
                let emacs = crate::strutil::chars_of("emacs");
                if crate::chars::chars_eq(cs.as_slice(), vim.as_slice()) || crate::chars::chars_eq(
                    cs.as_slice(),
                    emacs.as_slice(),
                ) {
                    out.keymap = s;
                }
            },
            _ => {},
        }
        out.show_line_numbers = bool_or(table_setting(table, "show_line_numbers"), true);
        out.show_relative_numbers = bool_or(table_setting(table, "show_relative_numbers"), false);
        out.wrap = bool_or(table_setting(table, "wrap"), true);
        out
    }

    /// The configuration a TOML text gives: the defaults when the text does
    /// not parse, else what its table gives.
    pub fn from_text(text: &str) -> (c: Self)
        ensures
            toml_parsed(text@) is None ==> c.keymap@ == "vim"@ && c.show_line_numbers
                && !c.show_relative_numbers && c.wrap,
            toml_parsed(text@) matches Some(e) ==> {
                &&& c.keymap@ == keymap_setting(e)
                &&& c.show_line_numbers == bool_setting(e, "show_line_numbers"@, true)
                &&& c.show_relative_numbers == bool_setting(e, "show_relative_numbers"@, false)
                &&& c.wrap == bool_setting(e, "wrap"@, true)
            },
    {
        match toml_parse(text) {
            Ok(t) => Config::from_table(&t),
            Err(_) => Config::default(),
        }
    }
}

/// The texts of a sequence of strings.
pub open spec fn texts(v: Seq<String>) -> Seq<Seq<char>> {
    v.map_values(|s: String| s@)
}

/// The warning for a setting that should be a boolean and is not.
pub open spec fn not_a_bool_text(key: Seq<char>, path: Seq<char>) -> Seq<char> {
    "[config] Ignoring '"@ + key + "' in "@ + path + ": not a bool"@
}

/// The warning for a keymap that is neither `vim` nor `emacs`.
pub open spec fn unknown_keymap_text(name: Seq<char>, path: Seq<char>) -> Seq<char> {
    "[config] Ignoring unknown keymap '"@ + name + "' in "@ + path + "; expected 'vim' or 'emacs'"@
}

/// The warning for a keymap that is not a string.
pub open spec fn keymap_not_string_text(path: Seq<char>) -> Seq<char> {
    "[config] Ignoring 'keymap' in "@ + path + ": not a string"@
}

/// The warning for a configuration file that does not parse.
pub open spec fn malformed_text(path: Seq<char>, error: Seq<char>) -> Seq<char> {
    "[config] Ignoring malformed config: "@ + path + " ("@ + error + ")"@
}

/// The warning (none or one) about the keymap setting.
pub open spec fn keymap_warnings(e: Map<Seq<char>, TomlScalar>, path: Seq<char>) -> Seq<Seq<char>> {
    if e.contains_key("keymap"@) {
        match e["keymap"@] {
            TomlScalar::Str(s) => if s == "vim"@ || s == "emacs"@ {
                Seq::empty()
            } else {
                seq![unknown_keymap_text(s, path)]
            },
            _ => seq![keymap_not_string_text(path)],
        }
    } else {
        Seq::empty()
    }
}

/// The warning (none or one) about a boolean setting.
pub open spec fn bool_warnings(e: Map<Seq<char>, TomlScalar>, key: Seq<char>, path: Seq<char>) -> Seq<Seq<char>> {
    if e.contains_key(key) && !(e[key] is Bool) {
        seq![not_a_bool_text(key, path)]
    } else {
        Seq::empty()
    }
}

/// The warnings for the settings of a table read from `path` that are
/// ignored, in the order keymap, show_line_numbers, show_relative_numbers,
/// wrap.
pub open spec fn warnings_spec(e: Map<Seq<char>, TomlScalar>, path: Seq<char>) -> Seq<Seq<char>> {
    keymap_warnings(e, path) + bool_warnings(e, "show_line_numbers"@, path) + bool_warnings(
        e,
        "show_relative_numbers"@,
        path,
    ) + bool_warnings(e, "wrap"@, path)
}

fn push_text(out: &mut Vec<String>, m: String)
    ensures
        texts(final(out)@) == texts(old(out)@).push(m@),
{
    out.push(m);
    proof {
        assert(texts(out@) =~= texts(old(out)@).push(m@));
    }
}

fn push_bool_warning(out: &mut Vec<String>, t: &toml::Table, key: &str, path: &str)
    ensures
        texts(final(out)@) == texts(old(out)@) + bool_warnings(toml_entries(*t), key@, path@),
{
    match table_setting(t, key) {
        Setting::Absent => {
            assert(texts(out@) =~= texts(old(out)@) + bool_warnings(toml_entries(*t), key@, path@));
        },
        Setting::Bool(_) => {
            assert(texts(out@) =~= texts(old(out)@) + bool_warnings(toml_entries(*t), key@, path@));
        },
        _ => {
            let mut m = String::from_str("[config] Ignoring '");
            crate::strutil::push_str(&mut m, key);
            crate::strutil::push_str(&mut m, "' in ");
            crate::strutil::push_str(&mut m, path);
            crate::strutil::push_str(&mut m, ": not a bool");
            assert(m@ =~= not_a_bool_text(key@, path@));
            push_text(out, m);
            assert(texts(out@) =~= texts(old(out)@) + bool_warnings(toml_entries(*t), key@, path@));
        },
    }
}

/// The warnings for the settings of `table`, read from the file `path`,
/// that are ignored: a keymap other than `vim` or `emacs` or not a string,
/// and a display setting that is not a boolean.
pub fn config_warnings(table: &toml::Table, path: &str) -> (r: Vec<String>)
    ensures
        texts(r@) == warnings_spec(toml_entries(*table), path@),
{
    let mut out: Vec<String> = Vec::new();
    match table_setting(table, "keymap") {
        Setting::Str(s) => {
            let cs = crate::strutil::chars_of(s.as_str());
            let vim = crate::strutil::chars_of("vim");
            let emacs = crate::strutil::chars_of("emacs");
            if !crate::chars::chars_eq(cs.as_slice(), vim.as_slice()) && !crate::chars::chars_eq(
                cs.as_slice(),
                emacs.as_slice(),
            ) {
                let mut m = String::from_str("[config] Ignoring unknown keymap '");
                crate::strutil::push_str(&mut m, s.as_str());
                crate::strutil::push_str(&mut m, "' in ");
                crate::strutil::push_str(&mut m, path);
                crate::strutil::push_str(&mut m, "; expected 'vim' or 'emacs'");
                assert(m@ =~= unknown_keymap_text(s@, path@));
                push_text(&mut out, m);
            }
        },
        Setting::Absent => {},
        _ => {
            let mut m = String::from_str("[config] Ignoring 'keymap' in ");
            crate::strutil::push_str(&mut m, path);
            crate::strutil::push_str(&mut m, ": not a string");
            assert(m@ =~= keymap_not_string_text(path@));
            push_text(&mut out, m);
        },
    }
    assert(texts(out@) =~= keymap_warnings(toml_entries(*table), path@));
    push_bool_warning(&mut out, table, "show_line_numbers", path);
    push_bool_warning(&mut out, table, "show_relative_numbers", path);
    push_bool_warning(&mut out, table, "wrap", path);
    out
}

/// The configuration a TOML text read from the file `path` gives (as
/// `Config::from_text`), with the warnings to show for what it ignores: the
/// whole text when it does not parse, else each ignored setting.
pub fn load_text(text: &str, path: &str) -> (r: (Config, Vec<String>))
    ensures
        toml_parsed(text@) is None ==> {
            &&& r.0.keymap@ == "vim"@ && r.0.show_line_numbers && !r.0.show_relative_numbers && r.0.wrap
            &&& texts(r.1@) == seq![malformed_text(path@, toml_error_text(text@))]
        },
        toml_parsed(text@) matches Some(e) ==> {
            &&& r.0.keymap@ == keymap_setting(e)
            &&& r.0.show_line_numbers == bool_setting(e, "show_line_numbers"@, true)
            &&& r.0.show_relative_numbers == bool_setting(e, "show_relative_numbers"@, false)
            &&& r.0.wrap == bool_setting(e, "wrap"@, true)
            &&& texts(r.1@) == warnings_spec(e, path@)
        },
{
    match toml_parse(text) {
        Ok(t) => (Config::from_table(&t), config_warnings(&t, path)),
        Err(e) => {
            let mut m = String::from_str("[config] Ignoring malformed config: ");
            crate::strutil::push_str(&mut m, path);
            crate::strutil::push_str(&mut m, " (");
            crate::strutil::push_str(&mut m, e.as_str());
            crate::strutil::push_str(&mut m, ")");
            assert(m@ =~= malformed_text(path@, toml_error_text(text@)));
            let mut out: Vec<String> = Vec::new();
            push_text(&mut out, m);
            assert(texts(out@) =~= seq![malformed_text(path@, toml_error_text(text@))]);
            (Config::default(), out)
        },
    }
}

} // verus!
