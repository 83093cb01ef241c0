//! The shell's on-disk configuration, in memory.
//!
//! The configuration is reconstructed wholesale on every reload; a parse
//! failure leaves the previous value fully intact. Per-module and per-layout
//! sub-trees are carried as opaque serialized blobs: the host never interprets
//! module-specific fields, it only hands them on.

use vstd::prelude::*;

use crate::table;

verus! {

/// Which modules the operator asked to load: an explicit ordered list of
/// names, or every module that discovery finds.
pub enum LoadedModules {
    All,
    List(Vec<String>),
}

/// Style values applied uniformly to every activity widget.
#[derive(Clone, Copy)]
pub struct GeneralConfig {
    pub minimal_height: u32,
    /// Bit pattern of the blur radius. The host hands the value through to
    /// the toolkit untouched, so it is carried as raw bits.
    pub blur_radius_bits: u64,
}

/// The whole configuration file.
pub struct Config {
    pub loaded_modules: LoadedModules,
    /// Serialized configuration blob per module name.
    pub module_config: Vec<(String, String)>,
    /// Serialized configuration blob per layout name.
    pub layout_configs: Vec<(String, String)>,
    pub general_style_config: GeneralConfig,
}

impl Config {
    /// Entry keys are pairwise distinct, so each name maps to one blob.
    pub open spec fn wf(self) -> bool {
        &&& table::keys_unique(self.module_config@)
        &&& table::keys_unique(self.layout_configs@)
    }

    /// Runtime counterpart of `wf`, for callers that receive a configuration
    /// from outside verified code.
    pub fn check_wf(&self) -> (r: bool)
        ensures
            r == self.wf(),
    {
        let a = table::check_keys_unique(&self.module_config);
        let b = table::check_keys_unique(&self.layout_configs);
        a && b
    }
}

impl Default for Config {
    /// The compiled-in default: load every discovered module, no per-module
    /// or per-layout blobs, zeroed style values.
    fn default() -> (c: Config)
        ensures
            c.wf(),
            c.loaded_modules is All,
            c.module_config@.len() == 0,
            c.layout_configs@.len() == 0,
            c.general_style_config.minimal_height == 0,
            c.general_style_config.blur_radius_bits == 0,
    {
        Config {
            loaded_modules: LoadedModules::All,
            module_config: Vec::new(),
            layout_configs: Vec::new(),
            general_style_config: GeneralConfig { minimal_height: 0, blur_radius_bits: 0 },
        }
    }
}

impl LoadedModules {
    /// Interpret the raw name list from the configuration file: the sentinel
    /// name `all` anywhere in the list means "every discovered module".
    pub fn from_raw(raw: Vec<String>) -> (r: LoadedModules)
        ensures
            (exists|i: int| 0 <= i < raw@.len() && raw@[i]@ == "all"@) ==> r is All,
            !(exists|i: int| 0 <= i < raw@.len() && raw@[i]@ == "all"@) ==> r == LoadedModules::List(
                raw,
            ),
    {
        let sentinel: String = "all".to_owned();
        let n = raw.len();
        let mut i: usize = 0;
        while i < n
            invariant
                n == raw@.len(),
                i <= n,
                sentinel@ == "all"@,
                forall|j: int| 0 <= j < i ==> raw@[j]@ != "all"@,
            decreases n - i,
        {
            if raw[i] == sentinel {
                return LoadedModules::All;
            }
            i += 1;
        }
        LoadedModules::List(raw)
    }
}

} // verus!
