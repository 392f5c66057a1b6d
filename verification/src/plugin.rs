//! Dynamic plugins, as a browser build sees them: they can be declared, with
//! where they would be loaded from, but never loaded. Each failed load is
//! written down in the plugin's report.
use vstd::prelude::*;
use crate::lib_loader::LibLoader;

verus! {

/// How serious the messages of a report are, from the least to the most.
#[derive(Clone, Copy, Debug, PartialEq, Eq, Structural)]
pub enum PluginReportLevel {
    Info,
    Warning,
    Error,
}

/// The rank of a level: a report keeps the highest level it was given.
pub open spec fn rank(level: PluginReportLevel) -> nat {
    match level {
        PluginReportLevel::Info => 0,
        PluginReportLevel::Warning => 1,
        PluginReportLevel::Error => 2,
    }
}

/// The higher of two levels.
pub open spec fn max_level(a: PluginReportLevel, b: PluginReportLevel) -> PluginReportLevel {
    if rank(a) >= rank(b) {
        a
    } else {
        b
    }
}

/// A report's level never goes down: adding a message of any level keeps it
/// at least as high, and at least as high as the message's.
pub proof fn report_level_never_lowers(current: PluginReportLevel, added: PluginReportLevel)
    ensures
        rank(max_level(current, added)) >= rank(current),
        rank(max_level(current, added)) >= rank(added),
        max_level(current, PluginReportLevel::Error) == PluginReportLevel::Error,
{
}

/// What happened to a plugin: the messages in order, and the highest level
/// among them (`Info` when there is none).
#[derive(Debug)]
pub struct PluginReport {
    level: PluginReportLevel,
    messages: Vec<String>,
}

/// The plain value of a report.
pub struct PluginReportView {
    pub level: PluginReportLevel,
    pub messages: Seq<Seq<char>>,
}

impl View for PluginReport {
    type V = PluginReportView;

    closed spec fn view(&self) -> PluginReportView {
        PluginReportView {
            level: self.level,
            messages: self.messages@.map_values(|m: String| m@),
        }
    }
}

impl PluginReport {
    /// An empty report.
    pub fn new() -> (r: PluginReport)
        ensures
            r@.level == PluginReportLevel::Info,
            r@.messages == Seq::<Seq<char>>::empty(),
    {
        let r = PluginReport { level: PluginReportLevel::Info, messages: Vec::new() };
        assert(r@.messages =~= Seq::<Seq<char>>::empty());
        r
    }

    /// Empties the report.
    pub fn clear(&mut self)
        ensures
            final(self)@.level == PluginReportLevel::Info,
            final(self)@.messages == Seq::<Seq<char>>::empty(),
    {
        *self = PluginReport::new();
    }

    /// The highest level in the report.
    pub fn get_level(&self) -> (r: PluginReportLevel)
        ensures
            r == self@.level,
    {
        self.level
    }

    /// The number of messages.
    pub fn len(&self) -> (r: usize)
        ensures
            r == self@.messages.len(),
    {
        self.messages.len()
    }

    /// The message at `i`.
    pub fn message(&self, i: usize) -> (r: &String)
        requires
            i < self@.messages.len(),
        ensures
            r@ == self@.messages[i as int],
    {
        &self.messages[i]
    }

    fn add(&mut self, level: PluginReportLevel, message: String)
        ensures
            final(self)@.level == max_level(old(self)@.level, level),
            final(self)@.messages == old(self)@.messages.push(message@),
    {
        let ghost before = self@.messages;
        let new_level = match (self.level, level) {
            (PluginReportLevel::Error, _) | (_, PluginReportLevel::Error) => PluginReportLevel::Error,
            (PluginReportLevel::Warning, _) | (_, PluginReportLevel::Warning) => PluginReportLevel::Warning,
            _ => PluginReportLevel::Info,
        };
        self.level = new_level;
        let ghost m = message@;
        self.messages.push(message);
        assert(self@.messages =~= before.push(m));
    }

    /// Adds an error: the report's level becomes `Error`.
    pub fn add_error(&mut self, error: String)
        ensures
            final(self)@.level == PluginReportLevel::Error,
            final(self)@.messages == old(self)@.messages.push(error@),
    {
        self.add(PluginReportLevel::Error, error);
    }

    /// Adds a warning: the report's level is at least `Warning`.
    pub fn add_warning(&mut self, warning: String)
        ensures
            final(self)@.level == max_level(old(self)@.level, PluginReportLevel::Warning),
            final(self)@.messages == old(self)@.messages.push(warning@),
    {
        self.add(PluginReportLevel::Warning, warning);
    }

    /// Adds an informative message; the level stays.
    pub fn add_info(&mut self, info: String)
        ensures
            final(self)@.level == old(self)@.level,
            final(self)@.messages == old(self)@.messages.push(info@),
    {
        self.add(PluginReportLevel::Info, info);
    }

    /// A copy of the report.
    pub fn copy(&self) -> (r: PluginReport)
        ensures
            r@ == self@,
    {
        let r = PluginReport { level: self.level, messages: self.messages.clone() };
        proof {
            assert(r.messages@ =~= self.messages@);
        }
        r
    }
}

/// Where a plugin would be loaded from.
pub enum DynamicPluginSource {
    /// The plugin of this name, in the loader's search paths.
    ByName((LibLoader, String)),
    /// The first of these plugin files that exists.
    ByPaths(Vec<String>),
}

/// How far a plugin got.
#[derive(Clone, Copy, Debug, PartialEq, Eq, Structural)]
pub enum PluginState {
    Declared,
    Loaded,
    Started,
}

/// The text that names where a plugin would be loaded from: its name, or
/// the first of its paths (empty when there is none).
pub open spec fn source_name_of(source: DynamicPluginSource) -> Seq<char> {
    match source {
        DynamicPluginSource::ByName((_, name)) => name@,
        DynamicPluginSource::ByPaths(paths) => if paths@.len() > 0 {
            paths@[0]@
        } else {
            Seq::empty()
        },
    }
}

/// The error that every load gives, with the name of where the plugin would
/// have been loaded from.
pub open spec fn load_error(source_name: Seq<char>) -> Seq<char> {
    "Dynamic plugin loading is not available on wasm32-unknown-unknown: "@ + source_name
}

/// The path reported for a dynamic plugin, which has none.
pub open spec fn unsupported_path() -> Seq<char> {
    "__dynamic_loading_unsupported__"@
}

/// A declared dynamic plugin.
pub struct DynamicPlugin<StartArgs, Instance> {
    name: String,
    id: String,
    required: bool,
    report: PluginReport,
    source: DynamicPluginSource,
    _marker: std::marker::PhantomData<(StartArgs, Instance)>,
}

impl<StartArgs, Instance> DynamicPlugin<StartArgs, Instance> {
    pub closed spec fn spec_name(&self) -> Seq<char> {
        self.name@
    }

    pub closed spec fn spec_id(&self) -> Seq<char> {
        self.id@
    }

    pub closed spec fn spec_required(&self) -> bool {
        self.required
    }

    pub closed spec fn spec_report(&self) -> PluginReportView {
        self.report@
    }

    pub closed spec fn spec_source_name(&self) -> Seq<char> {
        source_name_of(self.source)
    }

    /// A plugin declared under `name` and `id`, to be loaded from `source`;
    /// a failure to load a `required` plugin is an error.
    pub fn new(name: String, id: String, source: DynamicPluginSource, required: bool) -> (r: Self)
        ensures
            r.spec_name() == name@,
            r.spec_id() == id@,
            r.spec_required() == required,
            r.spec_source_name() == source_name_of(source),
            r.spec_report().level == PluginReportLevel::Info,
            r.spec_report().messages == Seq::<Seq<char>>::empty(),
    {
        DynamicPlugin {
            name,
            id,
            required,
            report: PluginReport::new(),
            source,
            _marker: std::marker::PhantomData,
        }
    }

    /// The name of where the plugin would be loaded from.
    pub fn source_name(&self) -> (r: &str)
        ensures
            r@ == self.spec_source_name(),
    {
        match &self.source {
            DynamicPluginSource::ByName((_loader, name)) => name.as_str(),
            DynamicPluginSource::ByPaths(paths) => {
                if paths.len() > 0 {
                    paths[0].as_str()
                } else {
                    proof {
                        reveal_strlit("");
                    }
                    ""
                }
            },
        }
    }

    /// The plugin's name.
    pub fn name(&self) -> (r: &str)
        ensures
            r@ == self.spec_name(),
    {
        self.name.as_str()
    }

    /// The plugin's identifier.
    pub fn id(&self) -> (r: &str)
        ensures
            r@ == self.spec_id(),
    {
        self.id.as_str()
    }

    /// The plugin's version: unknown, as it was never loaded.
    pub fn version(&self) -> (r: Option<&str>)
        ensures
            r is None,
    {
        None
    }

    /// The plugin's long version: unknown, as it was never loaded.
    pub fn long_version(&self) -> (r: Option<&str>)
        ensures
            r is None,
    {
        None
    }

    /// The path of the plugin's library, which does not exist.
    pub fn path(&self) -> (r: &str)
        ensures
            r@ == unsupported_path(),
    {
        "__dynamic_loading_unsupported__"
    }

    /// The plugin's state: it stays declared.
    pub fn state(&self) -> (r: PluginState)
        ensures
            r == PluginState::Declared,
    {
        PluginState::Declared
    }

    /// A copy of the plugin's report.
    pub fn report(&self) -> (r: PluginReport)
        ensures
            r@ == self.spec_report(),
    {
        self.report.copy()
    }

    /// Whether the plugin is loaded: never.
    pub fn loaded(&self) -> (r: bool)
        ensures
            !r,
    {
        false
    }

    /// Tries to load the plugin, which cannot succeed: the error goes into
    /// the report, and is returned when the plugin is required. A plugin that
    /// is not required ends with `Ok(())`: nothing was loaded.
    pub fn load(&mut self) -> (r: Result<(), String>)
        ensures
            final(self).spec_name() == old(self).spec_name(),
            final(self).spec_id() == old(self).spec_id(),
            final(self).spec_required() == old(self).spec_required(),
            final(self).spec_source_name() == old(self).spec_source_name(),
            final(self).spec_report().level == PluginReportLevel::Error,
            final(self).spec_report().messages == old(self).spec_report().messages.push(
                load_error(old(self).spec_source_name()),
            ),
            match r {
                Ok(()) => !old(self).spec_required(),
                Err(e) => old(self).spec_required() && e@ == load_error(
                    old(self).spec_source_name(),
                ),
            },
    {
        let mut msg = String::from_str(
            "Dynamic plugin loading is not available on wasm32-unknown-unknown: ",
        );
        msg.append(self.source_name());
        self.report.add_error(msg.clone());
        if self.required {
            Err(msg)
        } else {
            Ok(())
        }
    }
}

} // verus!
