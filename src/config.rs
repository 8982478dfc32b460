//! User configuration: the default model, the shell allowlist and provider keys.
use std::collections::HashMap;
use vstd::prelude::*;

verus! {

/// Allowlist rules for shell commands, one rule per permitted invocation shape.
#[derive(Clone, Debug)]
pub struct BashConfig {
    pub allow: Vec<String>,
}

impl Default for BashConfig {
    fn default() -> (r: Self)
        ensures
            r.allow@.len() == 0,
    {
        BashConfig { allow: Vec::new() }
    }
}

/// Permission settings.
#[derive(Clone, Debug)]
pub struct Permissions {
    pub bash: BashConfig,
}

impl Default for Permissions {
    fn default() -> (r: Self)
        ensures
            r.bash.allow@.len() == 0,
    {
        Permissions { bash: BashConfig::default() }
    }
}

impl Permissions {
    /// Combines two permission settings: the overlay's rules come first, then this
    /// one's.
    pub fn merge(self, overlay: Self) -> (r: Self)
        ensures
            r.bash.allow@ == overlay.bash.allow@ + self.bash.allow@,
    {
        let mut mine = self;
        let mut allowlist = overlay.bash.allow;
        allowlist.append(&mut mine.bash.allow);
        Permissions { bash: BashConfig { allow: allowlist } }
    }
}

/// The user's configuration.
#[derive(Clone, Debug)]
pub struct Config {
    pub default_model: Option<String>,
    pub permissions: Permissions,
}

impl Default for Config {
    fn default() -> (r: Self)
        ensures
            r.default_model is None,
            r.permissions.bash.allow@.len() == 0,
    {
        Config { default_model: None, permissions: Permissions::default() }
    }
}

impl Config {
    /// Lays `overlay` over this configuration: its model wins when it names one, and
    /// its allowlist rules come after this one's.
    pub fn merge(self, overlay: Self) -> (r: Self)
        ensures
            r.default_model == (match overlay.default_model {
                Some(m) => Some(m),
                None => self.default_model,
            }),
            r.permissions.bash.allow@ == self.permissions.bash.allow@
                + overlay.permissions.bash.allow@,
    {
        let default_model = match overlay.default_model {
            Some(m) => Some(m),
            None => self.default_model,
        };
        Config { default_model, permissions: overlay.permissions.merge(self.permissions) }
    }
}

/// The project-level settings file: only permissions.
#[derive(Clone, Debug)]
pub struct EnchantJson {
    pub permissions: Permissions,
}

/// An API key for one model provider.
#[derive(Clone, Debug)]
pub enum ProviderKey {
    OpenAI { api_key: String },
    Anthropic { api_key: String },
}

/// The loaded configuration together with the provider keys, by provider name.
#[derive(Clone, Debug)]
pub struct ConfigState {
    pub base: Config,
    pub api_keys: HashMap<String, ProviderKey>,
}

} // verus!
