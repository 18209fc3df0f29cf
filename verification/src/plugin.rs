//! Plugins: which loader takes a plugin file, the names under which events
//! reach plugins, and the queue of events waiting for them. Loading and
//! running plugin code is done by the interpreters outside this library.
use crate::strutil::push_str;
use crate::types::PluginEvent;
use vstd::prelude::*;

verus! {

/// Version of the plugin API.
pub const API_VERSION: u32 = 1;

/// Why a plugin could not be loaded.
#[derive(Debug)]
pub enum LoaderError {
    Io(String),
    Parse(String),
    UnsupportedLanguage(String),
    ApiVersionMismatch { expected: u32, actual: u32 },
}

impl LoaderError {
    /// The error as shown to the user.
    pub fn message(&self) -> (r: String)
        ensures
            r@ == match self {
                LoaderError::Io(s) => "IO error: "@ + s@,
                LoaderError::Parse(s) => "Parse error: "@ + s@,
                LoaderError::UnsupportedLanguage(s) => "Unsupported language: "@ + s@,
                LoaderError::ApiVersionMismatch { expected, actual } => "API version mismatch: expected v"@
                    + crate::chars::decimal(*expected as nat) + ", got v"@ + crate::chars::decimal(
                    *actual as nat,
                ),
            },
    {
        let mut m = String::new();
        proof {
            assert(m@ =~= Seq::<char>::empty());
        }
        match self {
            LoaderError::Io(s) => {
                push_str(&mut m, "IO error: ");
                push_str(&mut m, s.as_str());
            },
            LoaderError::Parse(s) => {
                push_str(&mut m, "Parse error: ");
                push_str(&mut m, s.as_str());
            },
            LoaderError::UnsupportedLanguage(s) => {
                push_str(&mut m, "Unsupported language: ");
                push_str(&mut m, s.as_str());
            },
            LoaderError::ApiVersionMismatch { expected, actual } => {
                push_str(&mut m, "API version mismatch: expected v");
                crate::chars::push_decimal(&mut m, *expected as usize);
                push_str(&mut m, ", got v");
                crate::chars::push_decimal(&mut m, *actual as usize);
            },
        }
        m
    }
}

/// Loads Lua plugins (`.lua`).
pub struct LuaLoader;

/// Loads Lisp plugins (`.lisp`).
pub struct LispLoader;

/// Loads JavaScript plugins (`.js`).
pub struct JavaScriptLoader;

/// Loads Nix plugin descriptions (`.nix`).
pub struct NixLoader;

/// Loads native plugins from shared libraries.
pub struct RustLoader;

fn strings(xs: &[&str]) -> (r: Vec<String>)
    ensures
        r@.map_values(|s: String| s@) == xs@.map_values(|s: &str| s@),
{
    let mut v: Vec<String> = Vec::new();
    let mut i: usize = 0;
    while i < xs.len()
        invariant
            0 <= i <= xs@.len(),
            v@.map_values(|s: String| s@) == xs@.take(i as int).map_values(|s: &str| s@),
        decreases xs@.len() - i,
    {
        let ghost v0 = v@;
        let x = String::from_str(xs[i]);
        v.push(x);
        proof {
            assert(x@ == xs@[i as int]@);
            assert(v@.map_values(|s: String| s@) =~= v0.map_values(|s: String| s@).push(x@));
            assert(xs@.take(i + 1).map_values(|s: &str| s@) =~= xs@.take(i as int).map_values(|s: &str| s@).push(xs@[i as int]@));
        }
        i += 1;
    }
    proof {
        assert(xs@.take(i as int) =~= xs@);
    }
    v
}

impl LuaLoader {
    pub fn supported_extensions(&self) -> (r: Vec<String>)
        ensures
            r@.map_values(|s: String| s@) == seq!["lua"@],
    {
        let r = strings(&["lua"]);
        proof {
            assert(r@.map_values(|s: String| s@) =~= seq!["lua"@]);
        }
        r
    }
}

impl LispLoader {
    pub fn supported_extensions(&self) -> (r: Vec<String>)
        ensures
            r@.map_values(|s: String| s@) == seq!["lisp"@],
    {
        let r = strings(&["lisp"]);
        proof {
            assert(r@.map_values(|s: String| s@) =~= seq!["lisp"@]);
        }
        r
    }
}

impl JavaScriptLoader {
    pub fn supported_extensions(&self) -> (r: Vec<String>)
        ensures
            r@.map_values(|s: String| s@) == seq!["js"@],
    {
        let r = strings(&["js"]);
        proof {
            assert(r@.map_values(|s: String| s@) =~= seq!["js"@]);
        }
        r
    }
}

impl NixLoader {
    pub fn supported_extensions(&self) -> (r: Vec<String>)
        ensures
            r@.map_values(|s: String| s@) == seq!["nix"@],
    {
        let r = strings(&["nix"]);
        proof {
            assert(r@.map_values(|s: String| s@) =~= seq!["nix"@]);
        }
        r
    }
}

impl RustLoader {
    pub fn supported_extensions(&self) -> (r: Vec<String>)
        ensures
            r@.map_values(|s: String| s@) == seq!["so"@, "dylib"@, "dll"@],
    {
        let r = strings(&["so", "dylib", "dll"]);
        proof {
            assert(r@.map_values(|s: String| s@) =~= seq!["so"@, "dylib"@, "dll"@]);
        }
        r
    }
}

/// The built-in loaders, and loaders the program adds, known by a number
/// of its choosing.
#[derive(Debug, Clone, Copy, PartialEq, Eq, Structural)]
pub enum LoaderKind {
    Lua,
    Lisp,
    JavaScript,
    Nix,
    Rust,
    Custom(usize),
}

/// The file extensions a loader takes.
pub open spec fn extensions_of(k: LoaderKind) -> Seq<Seq<char>> {
    match k {
        LoaderKind::Lua => seq!["lua"@],
        LoaderKind::Lisp => seq!["lisp"@],
        LoaderKind::JavaScript => seq!["js"@],
        LoaderKind::Nix => seq!["nix"@],
        LoaderKind::Rust => seq!["so"@, "dylib"@, "dll"@],
        LoaderKind::Custom(_) => Seq::empty(),
    }
}

impl LoaderKind {
    pub fn supported_extensions(&self) -> (r: Vec<String>)
        ensures
            r@.map_values(|s: String| s@) == extensions_of(*self),
    {
        match self {
            LoaderKind::Lua => LuaLoader.supported_extensions(),
            LoaderKind::Lisp => LispLoader.supported_extensions(),
            LoaderKind::JavaScript => JavaScriptLoader.supported_extensions(),
            LoaderKind::Nix => NixLoader.supported_extensions(),
            LoaderKind::Rust => RustLoader.supported_extensions(),
            LoaderKind::Custom(_) => Vec::new(),
        }
    }
}

/// Names the extension `Path::extension` finds in a path (the part of the
/// file name after its last dot, if any).
pub uninterp spec fn path_extension_of(p: Seq<char>) -> Option<Seq<char>>;

/// `Path::extension` of `p`, as text.
#[verifier::external_body]
pub fn path_extension(p: &str) -> (r: Option<String>)
    ensures
        match r {
            Some(e) => path_extension_of(p@) == Some(e@),
            None => path_extension_of(p@) is None,
        },
{
    std::path::Path::new(p).extension().and_then(|e| e.to_str()).map(|e| e.to_string())
}

/// The loaders, each with the file extensions it takes, consulted in the
/// order they were registered.
pub struct LoaderRegistry {
    loaders: Vec<(LoaderKind, Vec<String>)>,
}

/// The loaders with their extensions, as values.
pub type LoaderEntries = Seq<(LoaderKind, Seq<Seq<char>>)>;

/// The first loader of `ls` that takes extension `ext`.
pub open spec fn first_loader_for(ls: LoaderEntries, ext: Seq<char>) -> Option<LoaderKind>
    decreases ls.len(),
{
    if ls.len() == 0 {
        None
    } else if ls[0].1.contains(ext) {
        Some(ls[0].0)
    } else {
        first_loader_for(ls.drop_first(), ext)
    }
}

/// The built-in loaders with their extensions, in the default order: Lua,
/// Lisp, JavaScript, Nix and native ones.
pub open spec fn default_loaders() -> LoaderEntries {
    seq![
        (LoaderKind::Lua, extensions_of(LoaderKind::Lua)),
        (LoaderKind::Lisp, extensions_of(LoaderKind::Lisp)),
        (LoaderKind::JavaScript, extensions_of(LoaderKind::JavaScript)),
        (LoaderKind::Nix, extensions_of(LoaderKind::Nix)),
        (LoaderKind::Rust, extensions_of(LoaderKind::Rust)),
    ]
}

/// Which loader takes the plugin file `path`, or why none does.
pub open spec fn loader_choice(ls: LoaderEntries, path: Seq<char>) -> Result<LoaderKind, Seq<char>> {
    match path_extension_of(path) {
        None => Err("no extension"@),
        Some(ext) => match first_loader_for(ls, ext) {
            Some(k) => Ok(k),
            None => Err(ext),
        },
    }
}

fn string_in(v: &Vec<String>, s: &String) -> (r: bool)
    ensures
        r == v@.map_values(|x: String| x@).contains(s@),
{
    let t = crate::strutil::chars_of(s.as_str());
    let mut i: usize = 0;
    while i < v.len()
        invariant
            0 <= i <= v@.len(),
            t@ == s@,
            forall|j: int| 0 <= j < i ==> v@[j]@ != s@,
        decreases v@.len() - i,
    {
        let x = crate::strutil::chars_of(v[i].as_str());
        if crate::chars::chars_eq(x.as_slice(), t.as_slice()) {
            proof {
                assert(v@.map_values(|x: String| x@)[i as int] == s@);
            }
            return true;
        }
        i += 1;
    }
    proof {
        let m = v@.map_values(|x: String| x@);
        assert forall|j: int| 0 <= j < m.len() implies #[trigger] m[j] != s@ by {
            assert(m[j] == v@[j]@);
        }
    }
    false
}

pub open spec fn texts_of(v: Seq<String>) -> Seq<Seq<char>> {
    v.map_values(|x: String| x@)
}

impl LoaderRegistry {
    pub closed spec fn view(&self) -> LoaderEntries {
        self.loaders@.map_values(|e: (LoaderKind, Vec<String>)| (e.0, texts_of(e.1@)))
    }

    pub fn new() -> (r: Self)
        ensures
            r.view() == Seq::<(LoaderKind, Seq<Seq<char>>)>::empty(),
    {
        let r = LoaderRegistry { loaders: Vec::new() };
        proof {
            assert(r.view() =~= Seq::<(LoaderKind, Seq<Seq<char>>)>::empty());
        }
        r
    }

    /// Adds a built-in loader after the others.
    pub fn register(&mut self, loader: LoaderKind)
        ensures
            final(self).view() == old(self).view().push((loader, extensions_of(loader))),
    {
        let exts = loader.supported_extensions();
        self.loaders.push((loader, exts));
        proof {
            assert(self.view() =~= old(self).view().push((loader, extensions_of(loader))));
        }
    }

    /// Adds a loader of the program's own, number `id`, taking the files
    /// with the given extensions, after the others.
    pub fn register_custom(&mut self, id: usize, extensions: Vec<String>)
        ensures
            final(self).view() == old(self).view().push((LoaderKind::Custom(id), texts_of(extensions@))),
    {
        let ghost ev = texts_of(extensions@);
        self.loaders.push((LoaderKind::Custom(id), extensions));
        proof {
            assert(self.view() =~= old(self).view().push((LoaderKind::Custom(id), ev)));
        }
    }

    /// The loader for the plugin file at `path`: the first registered one
    /// that takes its extension. Fails with `UnsupportedLanguage` naming the
    /// extension, or `no extension`.
    pub fn load(&self, path: &str) -> (r: Result<LoaderKind, LoaderError>)
        ensures
            match loader_choice(self.view(), path@) {
                Ok(k) => r == Ok::<LoaderKind, LoaderError>(k),
                Err(m) => r matches Err(LoaderError::UnsupportedLanguage(s)) && s@ == m,
            },
    {
        let ext = match path_extension(path) {
            Some(e) => e,
            None => {
                return Err(LoaderError::UnsupportedLanguage(String::from_str("no extension")));
            },
        };
        let ghost ls = self.view();
        let mut i: usize = 0;
        proof {
            assert(ls.skip(0) =~= ls);
        }
        while i < self.loaders.len()
            invariant
                0 <= i <= self.loaders@.len(),
                ls == self.view(),
                ls.len() == self.loaders@.len(),
                path_extension_of(path@) == Some(ext@),
                first_loader_for(ls.skip(i as int), ext@) == first_loader_for(ls, ext@),
            decreases self.loaders@.len() - i,
        {
            let k = self.loaders[i].0;
            proof {
                assert(ls.skip(i as int)[0] == ls[i as int]);
                assert(ls[i as int] == (k, texts_of(self.loaders@[i as int].1@)));
                assert(ls.skip(i as int).drop_first() =~= ls.skip(i + 1));
            }
            if string_in(&self.loaders[i].1, &ext) {
                proof {
                    assert(first_loader_for(ls.skip(i as int), ext@) == Some(k));
                }
                return Ok(k);
            }
            i += 1;
        }
        proof {
            assert(ls.skip(i as int) =~= Seq::<(LoaderKind, Seq<Seq<char>>)>::empty());
        }
        Err(LoaderError::UnsupportedLanguage(ext))
    }
}

/// The registry with all built-in loaders: Lua, Lisp, JavaScript, Nix and
/// native ones, in that order.
pub fn create_default_registry() -> (r: LoaderRegistry)
    ensures
        r.view() == default_loaders(),
{
    let mut registry = LoaderRegistry::new();
    registry.register(LoaderKind::Lua);
    registry.register(LoaderKind::Lisp);
    registry.register(LoaderKind::JavaScript);
    registry.register(LoaderKind::Nix);
    registry.register(LoaderKind::Rust);
    proof {
        assert(registry.view() =~= default_loaders());
    }
    registry
}

/// The event name under which handlers registered by plugins receive an event.
pub open spec fn handler_event_name(e: PluginEvent) -> Seq<char> {
    match e {
        PluginEvent::ModeChange { .. } => "mode_change"@,
        PluginEvent::BufferChange => "buffer_change"@,
        PluginEvent::Key { .. } => "key"@,
        PluginEvent::BufferSave { .. } => "buffer_save"@,
        PluginEvent::Ready => "ready"@,
    }
}

/// The event name used by Lua plugins in `on()`.
pub fn plugin_event_name(event: &PluginEvent) -> (r: Option<&'static str>)
    ensures
        r matches Some(s) && s@ == handler_event_name(*event),
{
    match event {
        PluginEvent::ModeChange { .. } => Some("mode_change"),
        PluginEvent::BufferChange => Some("buffer_change"),
        PluginEvent::Key { .. } => Some("key"),
        PluginEvent::BufferSave { .. } => Some("buffer_save"),
        PluginEvent::Ready => Some("ready"),
    }
}

/// The event name used by JavaScript plugins.
pub fn event_name_str(event: &PluginEvent) -> (r: &'static str)
    ensures
        r@ == match *event {
            PluginEvent::Ready => "Ready"@,
            PluginEvent::Key { .. } => "Key"@,
            PluginEvent::BufferChange => "BufferChange"@,
            PluginEvent::BufferSave { .. } => "BufferSave"@,
            PluginEvent::ModeChange { .. } => "ModeChange"@,
        },
{
    match event {
        PluginEvent::Ready => "Ready",
        PluginEvent::Key { .. } => "Key",
        PluginEvent::BufferChange => "BufferChange",
        PluginEvent::BufferSave { .. } => "BufferSave",
        PluginEvent::ModeChange { .. } => "ModeChange",
    }
}

/// The plugins loaded (by name), the loaders, and the events waiting to be
/// delivered to the plugins, oldest first.
pub struct PluginManager {
    plugins: Vec<String>,
    registry: LoaderRegistry,
    events: Vec<PluginEvent>,
}

impl PluginManager {
    pub closed spec fn plugin_names(&self) -> Seq<Seq<char>> {
        self.plugins@.map_values(|s: String| s@)
    }

    pub closed spec fn loaders(&self) -> LoaderEntries {
        self.registry.view()
    }

    pub closed spec fn pending(&self) -> Seq<PluginEvent> {
        self.events@
    }

    /// No plugins yet, the built-in loaders, no pending events.
    pub fn new() -> (r: Self)
        ensures
            r.plugin_names() == Seq::<Seq<char>>::empty(),
            r.loaders() == default_loaders(),
            r.pending() == Seq::<PluginEvent>::empty(),
    {
        let r = PluginManager { plugins: Vec::new(), registry: create_default_registry(), events: Vec::new() };
        proof {
            assert(r.plugin_names() =~= Seq::<Seq<char>>::empty());
        }
        r
    }

    /// Records a loaded plugin.
    pub fn add_plugin(&mut self, name: String)
        ensures
            final(self).plugin_names() == old(self).plugin_names().push(name@),
            final(self).loaders() == old(self).loaders(),
            final(self).pending() == old(self).pending(),
    {
        self.plugins.push(name);
        proof {
            assert(self.plugin_names() =~= old(self).plugin_names().push(name@));
        }
    }

    /// Adds a loader of the program's own (see
    /// `LoaderRegistry::register_custom`).
    pub fn register_loader(&mut self, id: usize, extensions: Vec<String>)
        ensures
            final(self).loaders() == old(self).loaders().push((LoaderKind::Custom(id), texts_of(extensions@))),
            final(self).plugin_names() == old(self).plugin_names(),
            final(self).pending() == old(self).pending(),
    {
        self.registry.register_custom(id, extensions);
    }

    /// The loader for a plugin file.
    pub fn loader_for(&self, path: &str) -> (r: Result<LoaderKind, LoaderError>)
        ensures
            match loader_choice(self.loaders(), path@) {
                Ok(k) => r == Ok::<LoaderKind, LoaderError>(k),
                Err(m) => r matches Err(LoaderError::UnsupportedLanguage(s)) && s@ == m,
            },
    {
        self.registry.load(path)
    }

    /// Queues an event for the plugins.
    pub fn emit(&mut self, event: PluginEvent)
        ensures
            final(self).pending() == old(self).pending().push(event),
            final(self).plugin_names() == old(self).plugin_names(),
            final(self).loaders() == old(self).loaders(),
    {
        self.events.push(event);
    }

    /// Takes the queued events, oldest first, leaving none.
    pub fn take_events(&mut self) -> (r: Vec<PluginEvent>)
        ensures
            r@ == old(self).pending(),
            final(self).pending() == Seq::<PluginEvent>::empty(),
            final(self).plugin_names() == old(self).plugin_names(),
            final(self).loaders() == old(self).loaders(),
    {
        let mut out: Vec<PluginEvent> = Vec::new();
        std::mem::swap(&mut out, &mut self.events);
        out
    }
}

} // verus!
