//! The records a snapshot is made of, apart from geometry.

use vstd::prelude::*;

use crate::string_map::StringMap;

verus! {

/// The application that owns a window.
pub struct ApplicationInfo {
    pub pid: i32,
    pub name: Option<String>,
    pub bundle_id: Option<String>,
}

impl Clone for ApplicationInfo {
    fn clone(&self) -> (c: Self)
        ensures
            c == *self,
    {
        ApplicationInfo { pid: self.pid, name: self.name.clone(), bundle_id: self.bundle_id.clone() }
    }
}

impl Default for ApplicationInfo {
    fn default() -> (a: Self)
        ensures
            a.pid == 0,
            a.name is None,
            a.bundle_id is None,
    {
        ApplicationInfo { pid: 0, name: None, bundle_id: None }
    }
}

/// What a snapshot records of a window, apart from its bounds and alpha.
pub struct WindowRecord {
    pub window_id: u32,
    /// Position in the front-to-back order of the reported windows.
    pub z_order: usize,
    pub owner: ApplicationInfo,
    pub title: Option<String>,
    pub role: Option<String>,
    pub subrole: Option<String>,
    /// The display the window belongs to, in a multi-display snapshot.
    pub display_id: Option<u32>,
    pub layer: i32,
    pub is_onscreen: bool,
    pub is_minimized: Option<bool>,
    pub is_main: Option<bool>,
    pub is_frontmost_app: bool,
    pub is_focused: bool,
    /// Accessibility failures by attribute (`-vv`).
    pub ax_errors: Option<StringMap>,
    /// Raw window-server details (`-vv`).
    pub raw: Option<StringMap>,
}

} // verus!
