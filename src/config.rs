//! Application settings and the clipboard history. Reading and writing them
//! on disk is left to the caller.

use vstd::prelude::*;

verus! {

/// Application configuration
#[derive(Debug, Clone)]
pub struct Config {
    /// Whether to start with the system
    pub start_with_system: bool,
    /// Whether to start minimized to tray
    pub start_minimized: bool,
    /// Whether to show notifications
    pub show_notifications: bool,
    /// Whether to play sounds on transformation
    pub play_sounds: bool,
    /// Clipboard polling interval in milliseconds
    pub poll_interval_ms: u64,
    /// Whether to enable automatic transformation
    pub auto_transform: bool,
    /// Global hotkey to toggle transformation
    pub toggle_hotkey: Option<String>,
    /// Global hotkey to open quick menu
    pub quick_menu_hotkey: Option<String>,
    /// Global hotkey to open dashboard
    pub dashboard_hotkey: Option<String>,
    /// Theme: "dark", "light", or "system"
    pub theme: String,
    /// Keep clipboard history
    pub keep_history: bool,
    /// Maximum history size
    pub max_history_size: usize,
    /// ID of the currently active recipe (UUID as string)
    pub active_recipe_id: Option<String>,
}

impl Default for Config {
    fn default() -> (r: Config)
        ensures
            !r.start_with_system,
            r.start_minimized,
            r.show_notifications,
            !r.play_sounds,
            r.poll_interval_ms == 250,
            r.auto_transform,
            r.toggle_hotkey matches Some(h) && h@ == "Ctrl+Shift+T"@,
            r.quick_menu_hotkey matches Some(h) && h@ == "Ctrl+Shift+V"@,
            r.dashboard_hotkey matches Some(h) && h@ == "Ctrl+Shift+D"@,
            r.theme@ == "system"@,
            r.keep_history,
            r.max_history_size == 100,
            r.active_recipe_id is None,
    {
        Config {
            start_with_system: false,
            start_minimized: true,
            show_notifications: true,
            play_sounds: false,
            poll_interval_ms: 250,
            auto_transform: true,
            toggle_hotkey: Some("Ctrl+Shift+T".to_owned()),
            quick_menu_hotkey: Some("Ctrl+Shift+V".to_owned()),
            dashboard_hotkey: Some("Ctrl+Shift+D".to_owned()),
            theme: "system".to_owned(),
            keep_history: true,
            max_history_size: 100,
            active_recipe_id: None,
        }
    }
}

/// Clipboard history entry
#[derive(Debug, Clone)]
pub struct HistoryEntry {
    /// Original text before transformation
    pub original: String,
    /// Transformed text (if any)
    pub transformed: Option<String>,
    /// Recipe ID used for transformation
    pub recipe_id: Option<String>,
    /// Recipe name used for transformation
    pub recipe_name: Option<String>,
    /// Time of the entry, in milliseconds since the Unix epoch
    pub timestamp: i64,
}

/// `entries` cut to at most `max` of them, keeping the first.
pub open spec fn capped(entries: Seq<HistoryEntry>, max: nat) -> Seq<HistoryEntry> {
    if entries.len() > max {
        entries.take(max as int)
    } else {
        entries
    }
}

/// Clipboard history, newest first, kept to a maximum size.
pub struct HistoryManager {
    entries: Vec<HistoryEntry>,
    max_size: usize,
}

impl HistoryManager {
    /// The entries, newest first.
    pub closed spec fn entries(&self) -> Seq<HistoryEntry> {
        self.entries@
    }

    /// The most entries kept.
    pub closed spec fn max_size(&self) -> nat {
        self.max_size as nat
    }

    /// A history holding the stored entries, or none where nothing was
    /// stored.
    pub fn new(max_size: usize, stored: Option<Vec<HistoryEntry>>) -> (r: HistoryManager)
        ensures
            r.max_size() == max_size,
            stored matches Some(v) ==> r.entries() == v@,
            stored is None ==> r.entries().len() == 0,
    {
        match stored {
            Some(v) => HistoryManager { entries: v, max_size },
            None => HistoryManager { entries: Vec::new(), max_size },
        }
    }

    /// Puts an entry first and drops the oldest ones beyond the maximum
    /// size.
    pub fn add(&mut self, entry: HistoryEntry)
        ensures
            final(self).entries() == capped(seq![entry] + old(self).entries(), old(self).max_size()),
            final(self).max_size() == old(self).max_size(),
    {
        let ghost before = self.entries@;
        let ghost e = entry;
        self.entries.insert(0, entry);
        assert(self.entries@ == seq![e] + before);
        if self.entries.len() > self.max_size {
            self.entries.truncate(self.max_size);
        }
    }

    /// All entries, newest first.
    pub fn get_all(&self) -> (r: &[HistoryEntry])
        ensures
            r@ == self.entries(),
    {
        self.entries.as_slice()
    }

    /// Removes every entry.
    pub fn clear(&mut self)
        ensures
            final(self).entries().len() == 0,
            final(self).max_size() == old(self).max_size(),
    {
        self.entries.clear();
    }
}

} // verus!
