//! The host application: the state the two consumer tasks mutate, and every
//! decision they take.
//!
//! The surrounding process owns the event loop, the watcher thread and the
//! dynamic-library loader; it feeds this state machine the outcomes (scan
//! results, constructor results, parse results, stylesheet source) and
//! carries its decisions out.

use vstd::prelude::*;

use crate::bus::UiServerCommand;
use crate::config::Config;
use crate::layout::{without_activity, ActivityEntry, LayoutState};
use crate::loader;
use crate::loader::FileScan;
use crate::registry::{Module, ProducerRuntime, Registry};
use crate::style::StyleState;
use crate::table;

verus! {

/// A command for the backend consumer, enqueued by the watcher thread.
pub enum BackendServerCommand {
    ReloadConfig(),
}

/// A freshly constructed module: nothing pushed, not initialized, producers
/// not yet started.
pub open spec fn module_is_fresh(m: Module) -> bool {
    &&& m.stored_config is None
    &&& !m.inited
    &&& !m.producers.running
}

/// The host: configuration, registry, load order, layout record and active
/// style.
pub struct App {
    pub config: Config,
    pub registry: Registry,
    /// The deterministic load order, kept apart from the lookup structure
    /// and stable across reloads.
    pub module_order: Vec<String>,
    pub layout: LayoutState,
    pub style: StyleState,
}

impl App {
    /// Configuration entries are uniquely keyed, no name is registered
    /// twice, and the load order lists exactly the registered names.
    pub open spec fn wf(self) -> bool {
        &&& self.config.wf()
        &&& self.registry.wf()
        &&& loader::name_views(self.module_order@) == self.registry.names()
    }

    /// A fresh host: compiled-in default configuration, nothing registered,
    /// no user style installed.
    pub fn new(layout_name: String) -> (app: App)
        ensures
            app.wf(),
            app.config.loaded_modules is All,
            app.config.module_config@.len() == 0,
            app.config.layout_configs@.len() == 0,
            app.config.general_style_config.minimal_height == 0,
            app.config.general_style_config.blur_radius_bits == 0,
            app.registry.entries@.len() == 0,
            app.module_order@.len() == 0,
            app.layout.name == layout_name,
            app.layout.active_config is None,
            app.layout.activities@.len() == 0,
            app.style.active_css is None,
    {
        let app = App {
            config: Config::default(),
            registry: Registry::new(),
            module_order: Vec::new(),
            layout: LayoutState::new(layout_name),
            style: StyleState::new(),
        };
        proof {
            assert(loader::name_views(app.module_order@) =~= app.registry.names());
        }
        app
    }

    /// Decide which modules to construct and in what order, from the scan
    /// outcomes and the configured mode: every discovered module in "load
    /// all" mode, else the configured list in its written order, keeping
    /// each discovered name once and skipping absent names without error.
    pub fn plan_modules(&self, scans: &Vec<FileScan>) -> (plan: Vec<String>)
        ensures
            forall|i: int, j: int| 0 <= i < j < plan@.len() ==> plan@[i]@ != plan@[j]@,
            self.config.loaded_modules is All ==> (forall|n: Seq<char>|
                #[trigger] loader::name_views(plan@).contains(n) <==> loader::discovered(
                    scans@,
                    n,
                )),
            self.config.loaded_modules matches crate::config::LoadedModules::List(req) ==> ((
            forall|i: int, j: int| 0 <= i < j < req@.len() ==> req@[i]@ != req@[j]@) ==> (
            loader::name_views(plan@) == loader::discovered_filter(
                loader::name_views(req@),
                scans@,
            ))),
    {
        let map = loader::build_constructor_map(scans);
        match &self.config.loaded_modules {
            crate::config::LoadedModules::All => {
                let plan = loader::plan_all(&map);
                proof {
                    loader::lemma_map_keys_are_discovered(scans@, map@);
                    assert forall|n: Seq<char>|
                        loader::name_views(plan@).contains(n) implies loader::discovered(
                        scans@,
                        n,
                    ) by {
                        let k = choose|k: int|
                            0 <= k < loader::name_views(plan@).len() && loader::name_views(
                                plan@,
                            )[k] == n;
                        assert(plan@[k]@ == n);
                        assert(map@[k].0@ == n);
                        assert(table::has_key(map@, n));
                    }
                    assert forall|n: Seq<char>|
                        loader::discovered(scans@, n) implies loader::name_views(
                        plan@,
                    ).contains(n) by {
                        assert(table::has_key(map@, n));
                        let k = choose|k: int| 0 <= k < map@.len() && map@[k].0@ == n;
                        assert(plan@[k]@ == n);
                        assert(loader::name_views(plan@)[k] == n);
                    }
                }
                plan
            },
            crate::config::LoadedModules::List(req) => {
                let plan = loader::plan_explicit(req, &map);
                proof {
                    if forall|i: int, j: int| 0 <= i < j < req@.len() ==> req@[i]@ != req@[j]@ {
                        assert forall|i: int, j: int|
                            0 <= i < j < loader::name_views(req@).len() implies loader::name_views(
                            req@,
                        )[i] != loader::name_views(req@)[j] by {
                            assert(loader::name_views(req@)[i] == req@[i]@);
                            assert(loader::name_views(req@)[j] == req@[j]@);
                        }
                        loader::lemma_explicit_plan_is_filter(loader::name_views(req@), map@);
                        loader::lemma_present_filter_by_discovery(
                            loader::name_views(req@),
                            map@,
                            scans@,
                        );
                    }
                }
                plan
            },
        }
    }

    /// Construct and register the planned modules. The constructor outcomes
    /// come back aligned with the plan by position; a constructor that
    /// failed is logged by the caller and its module is excluded from the
    /// registry and the order, while loading continues with the rest.
    pub fn load_modules(&mut self, plan: &Vec<String>, construct_ok: &Vec<bool>)
        requires
            old(self).wf(),
            old(self).registry.entries@.len() == 0,
            old(self).module_order@.len() == 0,
            forall|i: int, j: int| 0 <= i < j < plan@.len() ==> plan@[i]@ != plan@[j]@,
            construct_ok@.len() == plan@.len(),
        ensures
            final(self).wf(),
            loader::name_views(final(self).module_order@) == loader::mask(
                loader::name_views(plan@),
                construct_ok@,
            ),
            final(self).registry.names() == loader::name_views(final(self).module_order@),
            forall|i: int| #![trigger final(self).registry.entries@[i]]
                0 <= i < final(self).registry.entries@.len() ==> module_is_fresh(
                    final(self).registry.entries@[i],
                ),
            final(self).config == old(self).config,
            final(self).layout == old(self).layout,
            final(self).style == old(self).style,
    {
        let n = plan.len();
        let mut i: usize = 0;
        proof {
            assert(loader::name_views(plan@.take(0)) =~= Seq::<Seq<char>>::empty());
        }
        while i < n
            invariant
                n == plan@.len(),
                n == construct_ok@.len(),
                i <= n,
                forall|p: int, q: int| 0 <= p < q < plan@.len() ==> plan@[p]@ != plan@[q]@,
                self.registry.wf(),
                loader::name_views(self.module_order@) == loader::mask(
                    loader::name_views(plan@.take(i as int)),
                    construct_ok@,
                ),
                self.registry.names() == loader::name_views(self.module_order@),
                forall|k: int| #![trigger self.registry.entries@[k]]
                    0 <= k < self.registry.entries@.len() ==> module_is_fresh(
                        self.registry.entries@[k],
                    ),
                self.config == old(self).config,
                self.layout == old(self).layout,
                self.style == old(self).style,
            decreases n - i,
        {
            let ghost prev = loader::name_views(plan@.take(i as int));
            let ghost cur = loader::name_views(plan@.take(i + 1));
            assert(cur.drop_last() =~= prev);
            assert(cur.last() == plan@[i as int]@);
            if construct_ok[i] {
                proof {
                    if self.registry.has_module(plan@[i as int]@) {
                        let e = choose|e: int|
                            0 <= e < self.registry.entries@.len()
                                && self.registry.entries@[e].name@ == plan@[i as int]@;
                        assert(self.registry.names()[e] == plan@[i as int]@);
                        assert(loader::mask(prev, construct_ok@).contains(plan@[i as int]@));
                        loader::lemma_mask_elements(prev, construct_ok@, plan@[i as int]@);
                        let j = choose|j: int| 0 <= j < prev.len() && prev[j] == plan@[i as int]@;
                        assert(plan@[j]@ == plan@[i as int]@);
                        assert(false);
                    }
                }
                let ghost names_pre = self.registry.names();
                let m = Module::new(plan[i].clone());
                self.registry.insert(m);
                self.module_order.push(plan[i].clone());
                proof {
                    assert(self.registry.names() =~= names_pre.push(plan@[i as int]@));
                    assert(loader::name_views(self.module_order@) =~= loader::mask(
                        prev,
                        construct_ok@,
                    ).push(plan@[i as int]@));
                }
            }
            i += 1;
            assert(loader::name_views(plan@.take(i as int)) == cur);
        }
        assert(plan@.take(n as int) =~= plan@);
    }

    /// Steps one and two of the reload sequence: adopt the newly parsed
    /// configuration — or, when parsing failed, keep the previous one fully
    /// intact — and push every registered module its configuration blob. A
    /// module without an entry is skipped without error.
    pub fn load_configs(&mut self, parsed: Option<Config>)
        requires
            old(self).wf(),
            parsed matches Some(c) ==> c.wf(),
        ensures
            final(self).wf(),
            parsed matches Some(c) ==> final(self).config == c,
            parsed is None ==> final(self).config == old(self).config,
            final(self).module_order == old(self).module_order,
            final(self).layout == old(self).layout,
            final(self).style == old(self).style,
            final(self).registry.entries@.len() == old(self).registry.entries@.len(),
            forall|i: int| #![trigger final(self).registry.entries@[i]]
                0 <= i < final(self).registry.entries@.len() ==> {
                    let pre = old(self).registry.entries@[i];
                    let post = final(self).registry.entries@[i];
                    &&& post.name == pre.name
                    &&& post.inited == pre.inited
                    &&& post.producers == pre.producers
                    &&& match table::spec_lookup(final(self).config.module_config@, pre.name@) {
                        Some(b) => post.stored_config == Some(b),
                        None => post.stored_config == pre.stored_config,
                    }
                },
    {
        match parsed {
            Some(c) => {
                self.config = c;
            },
            None => {},
        }
        self.registry.push_configs(&self.config);
        proof {
            assert(self.registry.names() =~= old(self).registry.names());
        }
    }

    /// Step three: re-apply the general style values to every activity
    /// currently registered with the layout.
    pub fn update_general_configs(&mut self)
        requires
            old(self).wf(),
        ensures
            final(self).wf(),
            final(self).config == old(self).config,
            final(self).registry == old(self).registry,
            final(self).module_order == old(self).module_order,
            final(self).style == old(self).style,
            final(self).layout.name == old(self).layout.name,
            final(self).layout.active_config == old(self).layout.active_config,
            final(self).layout.activities@.len() == old(self).layout.activities@.len(),
            forall|i: int| #![trigger final(self).layout.activities@[i]]
                0 <= i < final(self).layout.activities@.len() ==> {
                    let pre = old(self).layout.activities@[i];
                    let post = final(self).layout.activities@[i];
                    &&& post.id == pre.id
                    &&& post.widget == pre.widget
                    &&& post.applied_style == final(self).config.general_style_config
                },
    {
        let style = self.config.general_style_config;
        self.layout.update_all_styles(style);
    }

    /// The layout's configuration sub-tree under its own name, if the
    /// configuration carries one.
    pub fn layout_config_blob(&self) -> (r: Option<&String>)
        requires
            self.wf(),
        ensures
            match r {
                Some(b) => table::spec_lookup(self.config.layout_configs@, self.layout.name@)
                    == Some(*b),
                None => table::spec_lookup(self.config.layout_configs@, self.layout.name@)
                    is None,
            },
    {
        match table::lookup_index(&self.config.layout_configs, &self.layout.name) {
            Some(k) => Some(&self.config.layout_configs[k].1),
            None => None,
        }
    }

    /// Step four: record the outcome of handing the layout its configuration
    /// sub-tree. Without an entry there is nothing to parse and the layout
    /// keeps its defaults; on a parse failure it keeps its previous
    /// configuration, and the failure is only logged.
    pub fn load_layout_config(&mut self, parse_ok: bool)
        requires
            old(self).wf(),
        ensures
            final(self).wf(),
            final(self).config == old(self).config,
            final(self).registry == old(self).registry,
            final(self).module_order == old(self).module_order,
            final(self).style == old(self).style,
            final(self).layout.name == old(self).layout.name,
            final(self).layout.activities == old(self).layout.activities,
            match table::spec_lookup(old(self).config.layout_configs@, old(self).layout.name@) {
                Some(b) => final(self).layout.active_config == (if parse_ok {
                    Some(b)
                } else {
                    old(self).layout.active_config
                }),
                None => final(self).layout.active_config == old(self).layout.active_config,
            },
    {
        match table::lookup_index(&self.config.layout_configs, &self.layout.name) {
            Some(k) => {
                if parse_ok {
                    self.layout.active_config = Some(self.config.layout_configs[k].1.clone());
                }
            },
            None => {},
        }
    }

    /// Step five: install the outcome of the stylesheet compile, which the
    /// surrounding process runs (the compiler resolves imports from disk, so
    /// compiling is an I/O edge). On a failed compile the previously
    /// installed style stays active, and the failure is only logged.
    pub fn load_css(&mut self, compiled: Option<String>) -> (r: bool)
        requires
            old(self).wf(),
        ensures
            final(self).wf(),
            final(self).config == old(self).config,
            final(self).registry == old(self).registry,
            final(self).module_order == old(self).module_order,
            final(self).layout == old(self).layout,
            match compiled {
                Some(css) => r && final(self).style.active_css == Some(css),
                None => !r && final(self).style == old(self).style,
            },
    {
        self.style.apply_compiled(compiled)
    }

    /// Step six: restart every registered module's producers, in registry
    /// order, against the freshly pushed configuration.
    pub fn restart_producer_rt(&mut self)
        requires
            old(self).wf(),
        ensures
            final(self).wf(),
            final(self).config == old(self).config,
            final(self).module_order == old(self).module_order,
            final(self).layout == old(self).layout,
            final(self).style == old(self).style,
            final(self).registry.entries@.len() == old(self).registry.entries@.len(),
            forall|i: int| #![trigger final(self).registry.entries@[i]]
                0 <= i < final(self).registry.entries@.len() ==> {
                    let pre = old(self).registry.entries@[i];
                    let post = final(self).registry.entries@[i];
                    &&& post.name == pre.name
                    &&& post.stored_config == pre.stored_config
                    &&& post.inited == pre.inited
                    &&& ProducerRuntime::restart_step(pre.producers, post.producers)
                    &&& post.producers.live_runs() == set![post.producers.generation@]
                },
    {
        self.registry.restart_all();
        proof {
            assert(self.registry.names() =~= old(self).registry.names());
        }
    }

    /// Run `init` on every registered module, in load order, each exactly
    /// once, after the first configuration push: modules observe valid
    /// configuration before `init` runs.
    pub fn init_loaded_modules(&mut self)
        requires
            old(self).wf(),
            forall|i: int|
                0 <= i < old(self).registry.entries@.len()
                    ==> !old(self).registry.entries@[i].inited,
        ensures
            final(self).wf(),
            final(self).config == old(self).config,
            final(self).module_order == old(self).module_order,
            final(self).layout == old(self).layout,
            final(self).style == old(self).style,
            final(self).registry.entries@.len() == old(self).registry.entries@.len(),
            forall|i: int| #![trigger final(self).registry.entries@[i]]
                0 <= i < final(self).registry.entries@.len() ==> {
                    let pre = old(self).registry.entries@[i];
                    let post = final(self).registry.entries@[i];
                    &&& post.name == pre.name
                    &&& post.stored_config == pre.stored_config
                    &&& post.producers == pre.producers
                    &&& post.inited
                },
    {
        self.registry.init_all();
        proof {
            assert(self.registry.names() =~= old(self).registry.names());
        }
    }

    /// The UI consumer's handling of one command, on the thread that owns
    /// UI state: adding an activity records it with the current general
    /// style applied to it; removing an activity forgets it.
    pub fn handle_ui_command(&mut self, cmd: UiServerCommand)
        requires
            old(self).wf(),
        ensures
            final(self).wf(),
            final(self).config == old(self).config,
            final(self).registry == old(self).registry,
            final(self).module_order == old(self).module_order,
            final(self).style == old(self).style,
            final(self).layout.name == old(self).layout.name,
            final(self).layout.active_config == old(self).layout.active_config,
            match cmd {
                UiServerCommand::AddActivity { activity, widget } => final(self)
                    .layout.activities@ == without_activity(
                    old(self).layout.activities@,
                    activity.module@,
                    activity.activity@,
                ).push(
                    ActivityEntry {
                        id: activity,
                        widget,
                        applied_style: old(self).config.general_style_config,
                    },
                ),
                UiServerCommand::RemoveActivity { activity } => final(self).layout.activities@
                    == without_activity(
                    old(self).layout.activities@,
                    activity.module@,
                    activity.activity@,
                ),
            },
    {
        match cmd {
            UiServerCommand::AddActivity { activity, widget } => {
                let style = self.config.general_style_config;
                self.layout.add_activity(activity, widget, style);
            },
            UiServerCommand::RemoveActivity { activity } => {
                self.layout.remove_activity(&activity);
            },
        }
    }

    /// The backend consumer's handling of one command: the full reload
    /// sequence, run to completion, in order — configuration, per-module
    /// config, general style, layout config, stylesheet, producer restart.
    /// A failed configuration parse aborts everything after step one: the
    /// remaining steps are skipped and the whole prior state stays intact.
    pub fn handle_server_command(
        &mut self,
        cmd: BackendServerCommand,
        parsed: Option<Config>,
        layout_parse_ok: bool,
        compiled_css: Option<String>,
    )
        requires
            old(self).wf(),
            parsed matches Some(c) ==> c.wf(),
        ensures
            final(self).wf(),
            parsed is None ==> *final(self) == *old(self),
            parsed matches Some(c) ==> final(self).config == c,
            final(self).module_order == old(self).module_order,
            parsed is Some ==> match compiled_css {
                Some(css) => final(self).style.active_css == Some(css),
                None => final(self).style == old(self).style,
            },
            final(self).layout.name == old(self).layout.name,
            parsed is Some ==> match table::spec_lookup(
                final(self).config.layout_configs@,
                old(self).layout.name@,
            ) {
                Some(b) => final(self).layout.active_config == (if layout_parse_ok {
                    Some(b)
                } else {
                    old(self).layout.active_config
                }),
                None => final(self).layout.active_config == old(self).layout.active_config,
            },
            final(self).registry.entries@.len() == old(self).registry.entries@.len(),
            parsed is Some ==> (forall|i: int| #![trigger final(self).registry.entries@[i]]
                0 <= i < final(self).registry.entries@.len() ==> {
                    let pre = old(self).registry.entries@[i];
                    let post = final(self).registry.entries@[i];
                    &&& post.name == pre.name
                    &&& post.inited == pre.inited
                    &&& ProducerRuntime::restart_step(pre.producers, post.producers)
                    &&& match table::spec_lookup(final(self).config.module_config@, pre.name@) {
                        Some(b) => post.stored_config == Some(b),
                        None => post.stored_config == pre.stored_config,
                    }
                }),
            parsed is Some ==> (forall|i: int| #![trigger final(self).layout.activities@[i]]
                0 <= i < final(self).layout.activities@.len() ==> final(self)
                    .layout.activities@[i].applied_style
                    == final(self).config.general_style_config),
    {
        match cmd {
            BackendServerCommand::ReloadConfig() => {
                match parsed {
                    Some(c) => {
                        self.load_configs(Some(c));
                        self.update_general_configs();
                        self.load_layout_config(layout_parse_ok);
                        self.load_css(compiled_css);
                        self.restart_producer_rt();
                    },
                    None => {
                        // Failed parse: the reload aborts here; every later
                        // step is skipped and prior state is kept. The
                        // caller has already logged the failure.
                    },
                }
            },
        }
    }

    /// Startup: register the planned modules, hand the layout its
    /// configuration, push the initial configuration to every module, load
    /// the stylesheet, run every `init` (each exactly once, after the
    /// configuration push), then start the producers.
    pub fn initialize_server(
        &mut self,
        parsed: Option<Config>,
        plan: &Vec<String>,
        construct_ok: &Vec<bool>,
        layout_parse_ok: bool,
        compiled_css: Option<String>,
    )
        requires
            old(self).wf(),
            old(self).registry.entries@.len() == 0,
            old(self).module_order@.len() == 0,
            forall|i: int, j: int| 0 <= i < j < plan@.len() ==> plan@[i]@ != plan@[j]@,
            construct_ok@.len() == plan@.len(),
            parsed matches Some(c) ==> c.wf(),
        ensures
            final(self).wf(),
            loader::name_views(final(self).module_order@) == loader::mask(
                loader::name_views(plan@),
                construct_ok@,
            ),
            final(self).registry.names() == loader::name_views(final(self).module_order@),
            parsed matches Some(c) ==> final(self).config == c,
            parsed is None ==> final(self).config == old(self).config,
            match compiled_css {
                Some(css) => final(self).style.active_css == Some(css),
                None => final(self).style == old(self).style,
            },
            final(self).layout.name == old(self).layout.name,
            match table::spec_lookup(old(self).config.layout_configs@, old(self).layout.name@) {
                Some(b) => final(self).layout.active_config == (if layout_parse_ok {
                    Some(b)
                } else {
                    old(self).layout.active_config
                }),
                None => final(self).layout.active_config == old(self).layout.active_config,
            },
            forall|i: int| #![trigger final(self).registry.entries@[i]]
                0 <= i < final(self).registry.entries@.len() ==> {
                    let post = final(self).registry.entries@[i];
                    &&& post.inited
                    &&& post.producers.running
                    &&& match table::spec_lookup(final(self).config.module_config@, post.name@) {
                        Some(b) => post.stored_config == Some(b),
                        None => post.stored_config is None,
                    }
                },
    {
        self.load_modules(plan, construct_ok);
        self.load_layout_config(layout_parse_ok);
        self.load_configs(parsed);
        self.load_css(compiled_css);
        self.init_loaded_modules();
        self.restart_producer_rt();
    }
}

impl Default for App {
    /// A fresh host with the built-in simple layout and the compiled-in
    /// default configuration: load-all mode, no blobs, zeroed style values.
    fn default() -> (app: App)
        ensures
            app.wf(),
            app.config.loaded_modules is All,
            app.config.module_config@.len() == 0,
            app.config.layout_configs@.len() == 0,
            app.config.general_style_config.minimal_height == 0,
            app.config.general_style_config.blur_radius_bits == 0,
            app.registry.entries@.len() == 0,
            app.module_order@.len() == 0,
            app.layout.name@ == "simple"@,
            app.layout.active_config is None,
            app.layout.activities@.len() == 0,
            app.style.active_css is None,
    {
        App::new("simple".to_owned())
    }
}

/// In "all" mode with every constructor succeeding, the registered names
/// are exactly the discovered names; only the order is arbitrary.
pub proof fn lemma_all_mode_order(
    scans: Seq<FileScan>,
    plan: Seq<Seq<char>>,
    ok: Seq<bool>,
)
    requires
        forall|n: Seq<char>| #[trigger] plan.contains(n) <==> loader::discovered(scans, n),
        plan.len() <= ok.len(),
        forall|k: int| 0 <= k < ok.len() ==> ok[k],
    ensures
        forall|n: Seq<char>| #[trigger]
            loader::mask(plan, ok).contains(n) <==> loader::discovered(scans, n),
{
    loader::lemma_mask_all_true(plan, ok);
}

/// In explicit-list mode with pairwise-distinct configured names and every
/// constructor succeeding, the module order is exactly the configured list
/// filtered to discovered names, in configured order.
pub proof fn lemma_explicit_mode_order(
    req: Seq<Seq<char>>,
    scans: Seq<FileScan>,
    plan: Seq<Seq<char>>,
    ok: Seq<bool>,
)
    requires
        plan == loader::discovered_filter(req, scans),
        plan.len() <= ok.len(),
        forall|k: int| 0 <= k < ok.len() ==> ok[k],
    ensures
        loader::mask(plan, ok) == loader::discovered_filter(req, scans),
{
    loader::lemma_mask_all_true(plan, ok);
}

} // verus!
