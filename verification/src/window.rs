//! Window plugins and the container of application resources.

use vstd::prelude::*;
use std::collections::HashMap;

verus! {

/// Application resources, one per kind, the kind given by a key.
#[derive(Debug)]
pub struct AppResourceContainer<V> {
    res: HashMap<u64, V>,
}

impl<V> AppResourceContainer<V> {
    /// The resources by kind.
    pub closed spec fn resources(&self) -> Map<u64, V> {
        self.res@
    }

    pub fn new() -> (r: Self)
        ensures
            r.resources() == Map::<u64, V>::empty(),
    {
        AppResourceContainer { res: HashMap::new() }
    }

    /// The resource of kind `key`, if one is registered.
    pub fn get(&self, key: u64) -> (r: Option<&V>)
        ensures
            match r {
                Some(v) => self.resources().contains_key(key) && *v == self.resources()[key],
                None => !self.resources().contains_key(key),
            },
    {
        broadcast use vstd::std_specs::hash::group_hash_axioms;
        self.res.get(&key)
    }

    /// Registers `t` as the resource of kind `key`, replacing an earlier one.
    pub fn register(&mut self, key: u64, t: V)
        ensures
            final(self).resources() == old(self).resources().insert(key, t),
    {
        broadcast use vstd::std_specs::hash::group_hash_axioms;
        self.res.insert(key, t);
    }
}

/// What a plugin says of itself.
#[derive(Debug, Clone)]
pub struct PluginInfo {
    pub name: String,
    pub version: String,
    pub has_looper: bool,
}

/// The factory of the hardware render plugin.
#[derive(Debug, Default)]
pub struct HardwareRenderPluginFactory;

impl HardwareRenderPluginFactory {
    pub fn info(&self) -> (r: PluginInfo)
        ensures
            r.name@ == "HardwareRenderPlugin"@,
            r.version@ == "0.1.0"@,
            !r.has_looper,
    {
        PluginInfo {
            name: String::from_str("HardwareRenderPlugin"),
            version: String::from_str("0.1.0"),
            has_looper: false,
        }
    }
}

#[derive(Debug, Clone, Copy, PartialEq, Eq, Structural)]
pub enum Theme {
    Light,
    Dark,
}

/// The multisample count.
#[derive(Debug, Default, Clone, Copy, PartialEq, Eq, Structural)]
pub struct Msaa(pub u32);

/// The window plugin.
pub struct WindowPlugin;

} // verus!
