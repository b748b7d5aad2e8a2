use vstd::prelude::*;

verus! {

/// Settings of the SteamVR plugin: whether it registers the overlay with SteamVR.
#[derive(Clone, Debug)]
pub struct SteamVRConfig {
    pub register: bool,
}

impl Default for SteamVRConfig {
    /// Registration is on unless turned off.
    fn default() -> (r: Self)
        ensures
            r.register,
    {
        SteamVRConfig { register: true }
    }
}

/// Localized name and description of an application.
#[derive(Clone, Debug)]
pub struct Strings {
    pub name: String,
    pub description: String,
}

/// One application entry of a SteamVR manifest.
#[derive(Clone, Debug)]
pub struct Applications {
    pub app_key: String,
    pub launch_type: String,
    pub binary_path_windows: String,
    pub is_dashboard_overlay: bool,
    /// Texts by locale; each locale appears once.
    pub strings: Vec<(String, Strings)>,
}

/// A SteamVR application manifest.
#[derive(Clone, Debug)]
pub struct Manifest {
    pub source: String,
    pub applications: Vec<Applications>,
}

impl Applications {
    /// Each locale has at most one entry.
    pub open spec fn wf(&self) -> bool {
        forall|i: int, j: int|
            0 <= i < j < self.strings@.len() ==> self.strings@[i].0@ != self.strings@[j].0@
    }
}

impl Manifest {
    /// Every application's locales are distinct.
    pub open spec fn wf(&self) -> bool {
        forall|i: int| 0 <= i < self.applications@.len() ==> #[trigger] self.applications@[i].wf()
    }
}

impl Default for Manifest {
    /// The built-in manifest: the OSC overlay, launched as a binary and shown
    /// as a dashboard overlay, with English texts.
    fn default() -> (r: Self)
        ensures
            r.wf(),
            r.source@ == "builtin"@,
            r.applications@.len() == 1,
            r.applications@[0].app_key@ == "com.shaybox.vrc-osc"@,
            r.applications@[0].launch_type@ == "binary"@,
            r.applications@[0].binary_path_windows@ == "vrc-osc.exe"@,
            r.applications@[0].is_dashboard_overlay,
            r.applications@[0].strings@.len() == 1,
            r.applications@[0].strings@[0].0@ == "en_us"@,
            r.applications@[0].strings@[0].1.name@ == "VRC-OSC"@,
            r.applications@[0].strings@[0].1.description@ == "VRChat OSC Overlay"@,
    {
        let english = Strings {
            name: String::from_str("VRC-OSC"),
            description: String::from_str("VRChat OSC Overlay"),
        };
        let app = Applications {
            app_key: String::from_str("com.shaybox.vrc-osc"),
            launch_type: String::from_str("binary"),
            binary_path_windows: String::from_str("vrc-osc.exe"),
            is_dashboard_overlay: true,
            strings: vec![(String::from_str("en_us"), english)],
        };
        Manifest { source: String::from_str("builtin"), applications: vec![app] }
    }
}

} // verus!
