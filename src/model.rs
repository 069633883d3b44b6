use vstd::prelude::*;

verus! {

/// One configured service: the manager's unit identifier (with its type suffix,
/// e.g. `web.service`), a label to show, and whether its log may be shown.
pub struct ServiceConfig {
    pub service_name: String,
    pub friendly_name: String,
    pub show_logs: bool,
}

impl ServiceConfig {
    pub fn new(service_name: String, friendly_name: String, show_logs: bool) -> (r: ServiceConfig)
        ensures
            r.service_name == service_name,
            r.friendly_name == friendly_name,
            r.show_logs == show_logs,
    {
        ServiceConfig { service_name, friendly_name, show_logs }
    }

    /// A field-by-field copy.
    pub fn duplicate(&self) -> (r: ServiceConfig)
        ensures
            r == *self,
    {
        ServiceConfig {
            service_name: self.service_name.clone(),
            friendly_name: self.friendly_name.clone(),
            show_logs: self.show_logs,
        }
    }
}

/// The configured services, in configuration order.
pub struct Config {
    pub service: Vec<ServiceConfig>,
}

/// Whether the manager could load a unit's definition.
#[derive(Clone, Copy, Debug, PartialEq, Eq, Structural)]
pub enum LoadState {
    Loaded,
    Masked,
    Unknown,
}

/// The label under which a load state is shown.
pub open spec fn load_label(s: LoadState) -> Seq<char> {
    match s {
        LoadState::Loaded => seq!['L', 'o', 'a', 'd', 'e', 'd'],
        LoadState::Masked => seq!['M', 'a', 's', 'k', 'e', 'd'],
        LoadState::Unknown => seq!['U', 'n', 'k', 'n', 'o', 'w', 'n'],
    }
}

impl LoadState {
    pub fn label(&self) -> (r: String)
        ensures
            r@ == load_label(*self),
    {
        proof {
            reveal_strlit("Loaded");
            reveal_strlit("Masked");
            reveal_strlit("Unknown");
        }
        match self {
            LoadState::Loaded => String::from_str("Loaded"),
            LoadState::Masked => String::from_str("Masked"),
            LoadState::Unknown => String::from_str("Unknown"),
        }
    }
}

/// Whether a unit starts by itself: at every boot, for the current boot only,
/// not at all, or in some other way (static, generated, indirect, ...).
#[derive(Clone, Copy, Debug, PartialEq, Eq, Structural)]
pub enum AutoStart {
    Enabled,
    EnabledRuntime,
    Disabled,
    Other,
}

/// A unit counts as enabled when it starts at boot, persistently or for this boot.
pub open spec fn enabled_spec(a: AutoStart) -> bool {
    a == AutoStart::Enabled || a == AutoStart::EnabledRuntime
}

impl AutoStart {
    pub fn is_enabled(&self) -> (r: bool)
        ensures
            r == enabled_spec(*self),
    {
        match self {
            AutoStart::Enabled | AutoStart::EnabledRuntime => true,
            _ => false,
        }
    }
}

/// What the manager reports of one unit: its name without the type suffix, its
/// load state, whether it is active, and how it starts.
pub struct UnitState {
    pub name: String,
    pub load_state: LoadState,
    pub active: bool,
    pub auto_start: AutoStart,
}

/// The status of one configured service, as the dashboard shows it.
pub struct ServiceInfo {
    pub config: ServiceConfig,
    pub status: String,
    pub active: bool,
    pub enabled: bool,
    pub running: bool,
    pub pid: Option<u64>,
    pub status_code: Option<u8>,
    pub uptime: String,
}

/// The status report and recent log of one service, both as markup.
pub struct ServiceDetail {
    pub config: ServiceConfig,
    pub status_text: String,
    pub log_text: String,
}

} // verus!
