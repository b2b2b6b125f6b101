//! The records that flow from the window list to the session store.
use vstd::prelude::*;

verus! {

/// A window as the window manager lists it, before its process is resolved.
#[derive(Debug, Clone, PartialEq, Eq)]
pub struct RawWindowEntry {
    pub window_id: String,
    pub pid: String,
    pub window_title: String,
}

/// A window together with the command line that started its process.
#[derive(Debug, Clone, PartialEq, Eq)]
pub struct AppWindow {
    pub window_id: String,
    pub app_command: String,
    pub window_title: String,
}

/// The text of a listed window.
pub struct EntryModel {
    pub window_id: Seq<char>,
    pub pid: Seq<char>,
    pub window_title: Seq<char>,
}

/// The text of a captured window record.
pub struct WindowModel {
    pub window_id: Seq<char>,
    pub app_command: Seq<char>,
    pub window_title: Seq<char>,
}

impl View for RawWindowEntry {
    type V = EntryModel;

    open spec fn view(&self) -> EntryModel {
        EntryModel { window_id: self.window_id@, pid: self.pid@, window_title: self.window_title@ }
    }
}

impl View for AppWindow {
    type V = WindowModel;

    open spec fn view(&self) -> WindowModel {
        WindowModel {
            window_id: self.window_id@,
            app_command: self.app_command@,
            window_title: self.window_title@,
        }
    }
}

/// The models of a sequence of records.
pub open spec fn models(v: Seq<AppWindow>) -> Seq<WindowModel> {
    v.map_values(|w: AppWindow| w@)
}

/// The models of a sequence of listed windows.
pub open spec fn entry_models(v: Seq<RawWindowEntry>) -> Seq<EntryModel> {
    v.map_values(|e: RawWindowEntry| e@)
}

impl AppWindow {
    pub fn new(window_id: String, app_command: String, window_title: String) -> (r: AppWindow)
        ensures
            r.window_id == window_id,
            r.app_command == app_command,
            r.window_title == window_title,
    {
        AppWindow { window_id, app_command, window_title }
    }
}

} // verus!
