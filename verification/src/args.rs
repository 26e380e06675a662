use vstd::prelude::*;

verus! {

/// The configuration the previewer is started with: the sandbox root path,
/// the listen port and bind host, and the optional feature toggles for
/// auto-reload and for the legend. The process's argument parser fills this
/// in; both toggles default to on when left unset.
pub struct DocsmanArguments {
    pub path: String,
    pub port: u16,
    pub host: String,
    pub autoreload: Option<bool>,
    pub legend: Option<bool>,
}

impl DocsmanArguments {
    /// The effective auto-reload setting: as given, on by default.
    pub open spec fn autoreload_setting(&self) -> bool {
        match self.autoreload {
            Some(v) => v,
            None => true,
        }
    }

    /// The effective legend setting: as given, on by default.
    pub open spec fn legend_setting(&self) -> bool {
        match self.legend {
            Some(v) => v,
            None => true,
        }
    }

    /// Whether auto-reload is enabled.
    pub fn autoreload_enabled(&self) -> (b: bool)
        ensures
            b == self.autoreload_setting(),
    {
        match self.autoreload {
            Some(v) => v,
            None => true,
        }
    }

    /// Whether the legend feature is enabled.
    pub fn legend_enabled(&self) -> (b: bool)
        ensures
            b == self.legend_setting(),
    {
        match self.legend {
            Some(v) => v,
            None => true,
        }
    }
}

} // verus!
