//! The module registry: the constructed module instances, keyed by name.
//!
//! Exactly one instance per name exists at a time. The registry's own vector
//! order is the deterministic load order; the lookup path and the iteration
//! path therefore agree by construction.

use vstd::prelude::*;

use crate::config::Config;
use crate::table;

verus! {

/// A module's background work. A run is the work started by one call to
/// [`ProducerRuntime::restart`]; restarting hard-stops the current run and
/// starts the next, so at most one run is ever live.
#[derive(Clone, Copy)]
pub struct ProducerRuntime {
    /// Whether a run is currently live.
    pub running: bool,
    /// How many runs have been started so far; the live run, if any, is the
    /// one started last.
    pub generation: Ghost<nat>,
}

impl ProducerRuntime {
    /// The set of live runs, each named by the count at its start.
    pub open spec fn live_runs(self) -> Set<nat> {
        if self.running {
            set![self.generation@]
        } else {
            Set::empty()
        }
    }

    /// How one restart changes the runtime: the next run is live and every
    /// earlier one has been abandoned.
    pub open spec fn restart_step(pre: ProducerRuntime, post: ProducerRuntime) -> bool {
        &&& post.running
        &&& post.generation@ == pre.generation@ + 1
    }

    pub fn new() -> (p: ProducerRuntime)
        ensures
            !p.running,
            p.generation@ == 0,
            p.live_runs() == Set::<nat>::empty(),
    {
        ProducerRuntime { running: false, generation: Ghost(0) }
    }

    /// Stop whatever run is live and start the next one against the current
    /// configuration.
    pub fn restart(&mut self)
        ensures
            ProducerRuntime::restart_step(*old(self), *final(self)),
            final(self).live_runs() == set![final(self).generation@],
    {
        self.generation = Ghost(self.generation@ + 1);
        self.running = true;
    }
}

/// Two restarts in a row never leave two overlapping runs live: the second
/// call fully supersedes the first, whose run is no longer live.
pub proof fn lemma_restart_twice_supersedes(
    p0: ProducerRuntime,
    p1: ProducerRuntime,
    p2: ProducerRuntime,
)
    requires
        ProducerRuntime::restart_step(p0, p1),
        ProducerRuntime::restart_step(p1, p2),
    ensures
        p2.live_runs() == set![p2.generation@],
        !p2.live_runs().contains(p1.generation@),
        forall|r: nat| p2.live_runs().contains(r) ==> r == p2.generation@,
{
}

/// One constructed module instance, as the host sees it: the name from its
/// descriptor, the configuration blob it last accepted, whether `init` has
/// run, and its producer runtime.
pub struct Module {
    pub name: String,
    /// The blob last pushed through [`Module::update_config`]. Interpreting
    /// the blob's contents is the module's own business, not the host's.
    pub stored_config: Option<String>,
    pub inited: bool,
    pub producers: ProducerRuntime,
}

impl Module {
    /// What [`Module::get_config`] yields.
    pub open spec fn spec_config(self) -> Option<String> {
        self.stored_config
    }

    /// How one [`Module::update_config`] call changes a module: the blob is
    /// stored and everything else is kept.
    pub open spec fn updated_with(pre: Module, post: Module, blob: String) -> bool {
        &&& post.stored_config == Some(blob)
        &&& post.name == pre.name
        &&& post.inited == pre.inited
        &&& post.producers == pre.producers
    }

    pub fn new(name: String) -> (m: Module)
        ensures
            m.name == name,
            m.stored_config is None,
            !m.inited,
            !m.producers.running,
            m.producers.generation@ == 0,
    {
        Module { name, stored_config: None, inited: false, producers: ProducerRuntime::new() }
    }

    /// Hand the module its serialized configuration blob.
    pub fn update_config(&mut self, blob: String)
        ensures
            Module::updated_with(*old(self), *final(self), blob),
    {
        self.stored_config = Some(blob);
    }

    /// The configuration the module is currently running with.
    pub fn get_config(&self) -> (r: &Option<String>)
        ensures
            *r == self.spec_config(),
    {
        &self.stored_config
    }
}

/// Round trip: once a blob has gone through [`Module::update_config`],
/// [`Module::get_config`] yields exactly that blob.
pub proof fn lemma_update_config_round_trip(pre: Module, post: Module, blob: String)
    requires
        Module::updated_with(pre, post, blob),
    ensures
        post.spec_config() == Some(blob),
{
}

/// The set of constructed module instances. The vector order is the load
/// order; names are pairwise distinct.
pub struct Registry {
    pub entries: Vec<Module>,
}

impl Registry {
    /// The registered names, in load order.
    pub open spec fn names(self) -> Seq<Seq<char>> {
        self.entries@.map_values(|m: Module| m.name@)
    }

    pub open spec fn has_module(self, n: Seq<char>) -> bool {
        exists|i: int| 0 <= i < self.entries@.len() && self.entries@[i].name@ == n
    }

    /// A module name is never registered twice.
    pub open spec fn wf(self) -> bool {
        forall|i: int, j: int|
            0 <= i < j < self.entries@.len() ==> self.entries@[i].name@ != self.entries@[j].name@
    }

    pub fn new() -> (r: Registry)
        ensures
            r.wf(),
            r.entries@.len() == 0,
    {
        Registry { entries: Vec::new() }
    }

    pub fn len(&self) -> (n: usize)
        ensures
            n == self.entries@.len(),
    {
        self.entries.len()
    }

    /// Register a newly constructed instance under its name.
    pub fn insert(&mut self, m: Module)
        requires
            old(self).wf(),
            !old(self).has_module(m.name@),
        ensures
            final(self).wf(),
            final(self).entries@ == old(self).entries@.push(m),
    {
        self.entries.push(m);
    }

    /// The instance registered under `name`, if any.
    pub fn get(&self, name: &String) -> (r: Option<&Module>)
        requires
            self.wf(),
        ensures
            match r {
                Some(m) => exists|i: int|
                    0 <= i < self.entries@.len() && self.entries@[i] == *m && m.name@ == name@,
                None => !self.has_module(name@),
            },
    {
        let n = self.entries.len();
        let mut i: usize = 0;
        while i < n
            invariant
                n == self.entries@.len(),
                i <= n,
                forall|j: int| 0 <= j < i ==> self.entries@[j].name@ != name@,
            decreases n - i,
        {
            if self.entries[i].name == *name {
                return Some(&self.entries[i]);
            }
            i += 1;
        }
        None
    }

    /// Push each module its entry from the configuration's `module_config`;
    /// a module without an entry keeps what it had, since modules may rely on
    /// their own defaults.
    pub fn push_configs(&mut self, cfg: &Config)
        requires
            old(self).wf(),
            cfg.wf(),
        ensures
            final(self).wf(),
            final(self).entries@.len() == old(self).entries@.len(),
            forall|i: int| #![trigger final(self).entries@[i]]
                0 <= i < final(self).entries@.len() ==> {
                    let pre = old(self).entries@[i];
                    let post = final(self).entries@[i];
                    &&& post.name == pre.name
                    &&& post.inited == pre.inited
                    &&& post.producers == pre.producers
                    &&& match table::spec_lookup(cfg.module_config@, pre.name@) {
                        Some(b) => post.stored_config == Some(b),
                        None => post.stored_config == pre.stored_config,
                    }
                },
    {
        let n = self.entries.len();
        let mut out: Vec<Module> = Vec::new();
        let mut i: usize = 0;
        while i < n
            invariant
                *self == *old(self),
                n == self.entries@.len(),
                i <= n,
                old(self).wf(),
                cfg.wf(),
                out@.len() == i,
                forall|j: int| #![trigger out@[j]]
                    0 <= j < i ==> {
                        let pre = old(self).entries@[j];
                        let post = out@[j];
                        &&& post.name == pre.name
                        &&& post.inited == pre.inited
                        &&& post.producers == pre.producers
                        &&& match table::spec_lookup(cfg.module_config@, pre.name@) {
                            Some(b) => post.stored_config == Some(b),
                            None => post.stored_config == pre.stored_config,
                        }
                    },
            decreases n - i,
        {
            let stored = match table::lookup_index(&cfg.module_config, &self.entries[i].name) {
                Some(k) => Some(cfg.module_config[k].1.clone()),
                None => match &self.entries[i].stored_config {
                    Some(s) => Some(s.clone()),
                    None => None,
                },
            };
            out.push(
                Module {
                    name: self.entries[i].name.clone(),
                    stored_config: stored,
                    inited: self.entries[i].inited,
                    producers: self.entries[i].producers,
                },
            );
            i += 1;
        }
        self.entries = out;
    }

    /// Run `init` on every module, in load order. The precondition says no
    /// module has been initialized yet, so each `init` runs exactly once.
    pub fn init_all(&mut self)
        requires
            old(self).wf(),
            forall|i: int| 0 <= i < old(self).entries@.len() ==> !old(self).entries@[i].inited,
        ensures
            final(self).wf(),
            final(self).entries@.len() == old(self).entries@.len(),
            forall|i: int| #![trigger final(self).entries@[i]]
                0 <= i < final(self).entries@.len() ==> {
                    let pre = old(self).entries@[i];
                    let post = final(self).entries@[i];
                    &&& post.name == pre.name
                    &&& post.stored_config == pre.stored_config
                    &&& post.producers == pre.producers
                    &&& post.inited
                },
    {
        let n = self.entries.len();
        let mut out: Vec<Module> = Vec::new();
        let mut i: usize = 0;
        while i < n
            invariant
                *self == *old(self),
                n == self.entries@.len(),
                i <= n,
                out@.len() == i,
                forall|j: int| #![trigger out@[j]]
                    0 <= j < i ==> {
                        let pre = old(self).entries@[j];
                        let post = out@[j];
                        &&& post.name == pre.name
                        &&& post.stored_config == pre.stored_config
                        &&& post.producers == pre.producers
                        &&& post.inited
                    },
            decreases n - i,
        {
            let stored = match &self.entries[i].stored_config {
                Some(s) => Some(s.clone()),
                None => None,
            };
            out.push(
                Module {
                    name: self.entries[i].name.clone(),
                    stored_config: stored,
                    inited: true,
                    producers: self.entries[i].producers,
                },
            );
            i += 1;
        }
        self.entries = out;
    }

    /// Restart every module's producers, in registry order: each module's
    /// current run is abandoned and the next one starts against the freshly
    /// pushed configuration.
    pub fn restart_all(&mut self)
        requires
            old(self).wf(),
        ensures
            final(self).wf(),
            final(self).entries@.len() == old(self).entries@.len(),
            forall|i: int| #![trigger final(self).entries@[i]]
                0 <= i < final(self).entries@.len() ==> {
                    let pre = old(self).entries@[i];
                    let post = final(self).entries@[i];
                    &&& post.name == pre.name
                    &&& post.stored_config == pre.stored_config
                    &&& post.inited == pre.inited
                    &&& ProducerRuntime::restart_step(pre.producers, post.producers)
                    &&& post.producers.live_runs() == set![post.producers.generation@]
                },
    {
        let n = self.entries.len();
        let mut out: Vec<Module> = Vec::new();
        let mut i: usize = 0;
        while i < n
            invariant
                *self == *old(self),
                n == self.entries@.len(),
                i <= n,
                out@.len() == i,
                forall|j: int| #![trigger out@[j]]
                    0 <= j < i ==> {
                        let pre = old(self).entries@[j];
                        let post = out@[j];
                        &&& post.name == pre.name
                        &&& post.stored_config == pre.stored_config
                        &&& post.inited == pre.inited
                        &&& ProducerRuntime::restart_step(pre.producers, post.producers)
                        &&& post.producers.live_runs() == set![post.producers.generation@]
                    },
            decreases n - i,
        {
            let stored = match &self.entries[i].stored_config {
                Some(s) => Some(s.clone()),
                None => None,
            };
            let mut producers = self.entries[i].producers;
            producers.restart();
            out.push(
                Module {
                    name: self.entries[i].name.clone(),
                    stored_config: stored,
                    inited: self.entries[i].inited,
                    producers,
                },
            );
            i += 1;
        }
        self.entries = out;
    }
}

} // verus!
