//! The engine's configuration and its builders.
use vstd::prelude::*;

verus! {

/// Whether the engine picks its own tuning or takes it from the caller.
#[derive(Clone, Copy, Debug, PartialEq, Eq, Structural)]
pub enum CfgMode {
    Auto,
    Advanced,
}

/// The tuning of an engine in advanced mode.
#[derive(Clone, Copy, Debug, PartialEq, Eq, Structural)]
pub struct AdvancedConfig {
    pub consumer_threads: usize,
    pub persistence_threads: usize,
}

impl Default for AdvancedConfig {
    fn default() -> (r: AdvancedConfig)
        ensures
            r.consumer_threads == 8,
            r.persistence_threads == 1,
    {
        AdvancedConfig { consumer_threads: 8, persistence_threads: 1 }
    }
}

/// The engine's configuration.
#[derive(Debug)]
pub struct Config {
    pub cfg_mode: CfgMode,
    pub plugin_dir: Option<String>,
    pub cfg_detail: Option<AdvancedConfig>,
}

impl Config {
    /// A builder that starts from the default configuration.
    pub fn build() -> (r: ConfigBuilder)
        ensures
            r.0.cfg_mode == CfgMode::Auto,
            r.0.plugin_dir.is_none(),
            r.0.cfg_detail.is_none(),
    {
        ConfigBuilder(Config::default())
    }
}

impl Default for Config {
    fn default() -> (r: Config)
        ensures
            r.cfg_mode == CfgMode::Auto,
            r.plugin_dir.is_none(),
            r.cfg_detail.is_none(),
    {
        Config { cfg_mode: CfgMode::Auto, plugin_dir: None, cfg_detail: None }
    }
}

/// Builds a configuration in automatic mode.
#[derive(Debug)]
pub struct ConfigBuilder(pub Config);

impl ConfigBuilder {
    pub fn finish(self) -> (r: Config)
        ensures
            r == self.0,
    {
        self.0
    }

    pub fn plugin_dir(self, dir: &str) -> (r: ConfigBuilder)
        ensures
            r.0.plugin_dir matches Some(d) && d@ == dir@,
            r.0.cfg_mode == self.0.cfg_mode,
            r.0.cfg_detail == self.0.cfg_detail,
    {
        let mut c = self.0;
        c.plugin_dir = Some(dir.to_owned());
        ConfigBuilder(c)
    }

    /// Switches to advanced mode, with the default tuning.
    pub fn advanced(self) -> (r: AdvancedConfigBuilder)
        ensures
            r.0.cfg_mode == CfgMode::Advanced,
            r.0.cfg_detail == Some(AdvancedConfig { consumer_threads: 8, persistence_threads: 1 }),
            r.0.plugin_dir == self.0.plugin_dir,
    {
        AdvancedConfigBuilder::new(self)
    }
}

/// Builds a configuration in advanced mode.
#[derive(Debug)]
pub struct AdvancedConfigBuilder(pub Config);

impl AdvancedConfigBuilder {
    fn new(val: ConfigBuilder) -> (r: AdvancedConfigBuilder)
        ensures
            r.0.cfg_mode == CfgMode::Advanced,
            r.0.cfg_detail == Some(AdvancedConfig { consumer_threads: 8, persistence_threads: 1 }),
            r.0.plugin_dir == val.0.plugin_dir,
    {
        let mut cfg = val.0;
        cfg.cfg_mode = CfgMode::Advanced;
        cfg.cfg_detail = Some(AdvancedConfig::default());
        AdvancedConfigBuilder(cfg)
    }

    pub fn finish(self) -> (r: Config)
        ensures
            r == self.0,
    {
        self.0
    }

    pub fn plugin_dir(self, dir: &str) -> (r: AdvancedConfigBuilder)
        ensures
            r.0.plugin_dir matches Some(d) && d@ == dir@,
            r.0.cfg_mode == self.0.cfg_mode,
            r.0.cfg_detail == self.0.cfg_detail,
    {
        let mut c = self.0;
        c.plugin_dir = Some(dir.to_owned());
        AdvancedConfigBuilder(c)
    }

    pub fn consumer_threads(self, threads: usize) -> (r: AdvancedConfigBuilder)
        ensures
            r.0.cfg_mode == self.0.cfg_mode,
            r.0.plugin_dir == self.0.plugin_dir,
            r.0.cfg_detail == match self.0.cfg_detail {
                Some(d) => Some(AdvancedConfig { consumer_threads: threads, ..d }),
                None => Some(AdvancedConfig { consumer_threads: threads, persistence_threads: 1 }),
            },
    {
        let mut c = self.0;
        let d = match c.cfg_detail {
            Some(d) => d,
            None => AdvancedConfig::default(),
        };
        c.cfg_detail = Some(AdvancedConfig { consumer_threads: threads, ..d });
        AdvancedConfigBuilder(c)
    }

    pub fn persistence_threads(self, threads: usize) -> (r: AdvancedConfigBuilder)
        ensures
            r.0.cfg_mode == self.0.cfg_mode,
            r.0.plugin_dir == self.0.plugin_dir,
            r.0.cfg_detail == match self.0.cfg_detail {
                Some(d) => Some(AdvancedConfig { persistence_threads: threads, ..d }),
                None => Some(AdvancedConfig { consumer_threads: 8, persistence_threads: threads }),
            },
    {
        let mut c = self.0;
        let d = match c.cfg_detail {
            Some(d) => d,
            None => AdvancedConfig::default(),
        };
        c.cfg_detail = Some(AdvancedConfig { persistence_threads: threads, ..d });
        AdvancedConfigBuilder(c)
    }
}

} // verus!
