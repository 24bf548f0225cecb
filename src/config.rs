use vstd::prelude::*;

verus! {

/// The persisted settings: the ids skipped while cycling, and the hotkey
/// that triggers a cycle, in accelerator syntax.
#[derive(Clone, Debug)]
pub struct Config {
    pub excluded_device_ids: Vec<String>,
    pub hotkey: Option<String>,
}

/// The hotkey bound on first run.
pub open spec fn default_hotkey() -> Seq<char> {
    "CommandOrControl+Shift+A"@
}

impl Default for Config {
    /// No device excluded, and the hotkey of first run.
    fn default() -> (r: Config)
        ensures
            r.excluded_device_ids@.len() == 0,
            r.hotkey matches Some(h) && h@ == default_hotkey(),
    {
        Config {
            excluded_device_ids: Vec::new(),
            hotkey: Some(String::from_str("CommandOrControl+Shift+A")),
        }
    }
}

impl Config {
    /// The same settings with the exclusion list replaced by `ids`.
    pub fn with_excluded_devices(self, ids: Vec<String>) -> (r: Config)
        ensures
            r.excluded_device_ids == ids,
            r.hotkey == self.hotkey,
    {
        Config { excluded_device_ids: ids, hotkey: self.hotkey }
    }
}

} // verus!
