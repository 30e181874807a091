//! The commands of the system tray menu, and the tray's run flag. The icon
//! and its menu are drawn by the caller.

use crate::recipe::RecipeId;
use vstd::prelude::*;

verus! {

/// Commands that can be triggered from the tray menu
#[derive(Debug, Clone, Copy, PartialEq, Eq, Structural)]
pub enum TrayCommand {
    /// Open the dashboard
    OpenDashboard,
    /// Toggle transformation on/off
    ToggleTransformation,
    /// Apply a specific recipe
    ApplyRecipe(RecipeId),
    /// Show quick menu
    ShowQuickMenu,
    /// Quit the application
    Quit,
}

/// System tray manager
pub struct TrayManager {
    running: bool,
}

impl TrayManager {
    /// Whether the tray is meant to stay up.
    pub closed spec fn running(&self) -> bool {
        self.running
    }

    /// A tray that is not shown yet.
    pub fn new() -> (r: TrayManager)
        ensures
            !r.running(),
    {
        TrayManager { running: false }
    }

    /// Marks the tray running, as its loop starts.
    pub fn start(&mut self)
        ensures
            final(self).running(),
    {
        self.running = true;
    }

    /// Asks the tray loop to end.
    pub fn stop(&mut self)
        ensures
            !final(self).running(),
    {
        self.running = false;
    }

    /// Whether the tray is meant to stay up.
    pub fn is_running(&self) -> (r: bool)
        ensures
            r == self.running(),
    {
        self.running
    }
}

impl Default for TrayManager {
    fn default() -> (r: TrayManager)
        ensures
            !r.running(),
    {
        TrayManager::new()
    }
}

} // verus!
