//! The configuration of a resolution: the cache name and the enabled tiers.
use vstd::prelude::*;

verus! {

/// What a `CacheDirConfig` holds, with strings as character sequences.
pub struct ConfigV {
    pub name: Seq<char>,
    pub app_path: Option<Seq<char>>,
    pub app: bool,
    pub user: bool,
    pub system: bool,
    pub temporary: bool,
    pub memory: bool,
}

/// The tiers a resolution attempts, after the default-tier rule.
#[derive(Clone, Copy, Debug, PartialEq, Eq, Structural)]
pub struct TierSelection {
    pub application: bool,
    pub user: bool,
    pub system: bool,
    pub temporary: bool,
    pub memory: bool,
}

/// Whether no tier at all was asked for.
pub open spec fn nothing_enabled(c: ConfigV) -> bool {
    !c.app && !c.user && !c.system && !c.temporary && !c.memory
}

/// The default-tier rule: the tiers asked for, or the user tier alone when none was.
pub open spec fn effective(c: ConfigV) -> TierSelection {
    TierSelection {
        application: c.app,
        user: c.user || nothing_enabled(c),
        system: c.system,
        temporary: c.temporary,
        memory: c.memory,
    }
}

/// Describes where a cache directory should be looked for.
///
/// Tiers are attempted in the order application, user, system, temporary,
/// memory; tiers that are not enabled are skipped. When no tier is enabled, the
/// user tier is attempted alone.
pub struct CacheDirConfig {
    pub cache_name: String,
    pub app_cache_path: Option<String>,
    pub app_cache: bool,
    pub user_cache: bool,
    pub sys_cache: bool,
    pub tmp_cache: bool,
    pub mem_cache: bool,
}

impl View for CacheDirConfig {
    type V = ConfigV;

    open spec fn view(&self) -> ConfigV {
        ConfigV {
            name: self.cache_name@,
            app_path: match self.app_cache_path {
                Some(p) => Some(p@),
                None => None,
            },
            app: self.app_cache,
            user: self.user_cache,
            system: self.sys_cache,
            temporary: self.tmp_cache,
            memory: self.mem_cache,
        }
    }
}

impl CacheDirConfig {
    /// A configuration for the cache directory `cache_name` (a relative path),
    /// with no tier enabled.
    pub fn new(cache_name: &str) -> (r: CacheDirConfig)
        ensures
            r@ == (ConfigV {
                name: cache_name@,
                app_path: None,
                app: false,
                user: false,
                system: false,
                temporary: false,
                memory: false,
            }),
    {
        CacheDirConfig {
            cache_name: cache_name.to_string(),
            app_cache_path: None,
            app_cache: false,
            user_cache: false,
            sys_cache: false,
            tmp_cache: false,
            mem_cache: false,
        }
    }

    /// Sets the application tier's location, and enables that tier.
    pub fn app_cache_path(&mut self, path: &str) -> (r: &mut CacheDirConfig)
        ensures
            r@ == (ConfigV { app_path: Some(path@), app: true, ..old(self)@ }),
            final(self)@ == final(r)@,
    {
        self.app_cache_path = Some(path.to_string());
        self.app_cache = true;
        self
    }

    /// Enables or disables the application tier; its location is kept.
    pub fn app_cache(&mut self, value: bool) -> (r: &mut CacheDirConfig)
        ensures
            r@ == (ConfigV { app: value, ..old(self)@ }),
            final(self)@ == final(r)@,
    {
        self.app_cache = value;
        self
    }

    /// Enables or disables the user tier.
    pub fn user_cache(&mut self, value: bool) -> (r: &mut CacheDirConfig)
        ensures
            r@ == (ConfigV { user: value, ..old(self)@ }),
            final(self)@ == final(r)@,
    {
        self.user_cache = value;
        self
    }

    /// Enables or disables the system tier.
    pub fn sys_cache(&mut self, value: bool) -> (r: &mut CacheDirConfig)
        ensures
            r@ == (ConfigV { system: value, ..old(self)@ }),
            final(self)@ == final(r)@,
    {
        self.sys_cache = value;
        self
    }

    /// Enables or disables the temporary tier.
    pub fn tmp_cache(&mut self, value: bool) -> (r: &mut CacheDirConfig)
        ensures
            r@ == (ConfigV { temporary: value, ..old(self)@ }),
            final(self)@ == final(r)@,
    {
        self.tmp_cache = value;
        self
    }

    /// Enables or disables the memory tier.
    pub fn mem_cache(&mut self, value: bool) -> (r: &mut CacheDirConfig)
        ensures
            r@ == (ConfigV { memory: value, ..old(self)@ }),
            final(self)@ == final(r)@,
    {
        self.mem_cache = value;
        self
    }

    /// Enables the user, system, temporary and memory tiers, and the
    /// application tier only when its location was set.
    pub fn try_all_caches(&mut self) -> (r: &mut CacheDirConfig)
        ensures
            r@ == (ConfigV {
                app: old(self)@.app || old(self)@.app_path is Some,
                user: true,
                system: true,
                temporary: true,
                memory: true,
                ..old(self)@
            }),
            final(self)@ == final(r)@,
    {
        if self.app_cache_path.is_some() {
            self.app_cache = true;
        }
        self.user_cache = true;
        self.sys_cache = true;
        self.tmp_cache = true;
        self.mem_cache = true;
        self
    }

    /// The cache name.
    pub fn cache_name(&self) -> (r: &str)
        ensures
            r@ == self@.name,
    {
        self.cache_name.as_str()
    }

    /// The application tier's location, when one was set.
    pub fn app_path(&self) -> (r: Option<&str>)
        ensures
            match r {
                Some(s) => self@.app_path == Some(s@),
                None => self@.app_path is None,
            },
    {
        match &self.app_cache_path {
            Some(p) => Some(p.as_str()),
            None => None,
        }
    }

    /// The tiers that a resolution attempts (see `effective`).
    pub fn selection(&self) -> (r: TierSelection)
        ensures
            r == effective(self@),
    {
        let none = !self.app_cache && !self.user_cache && !self.sys_cache && !self.tmp_cache
            && !self.mem_cache;
        TierSelection {
            application: self.app_cache,
            user: self.user_cache || none,
            system: self.sys_cache,
            temporary: self.tmp_cache,
            memory: self.mem_cache,
        }
    }
}

} // verus!
