//! Decisions of the desktop window: starting hidden at log-in, and what
//! closing the main window does.
use vstd::prelude::*;

use crate::text::text_eq;

verus! {

/// Whether the program was started at log-in (one argument is `--autostart`).
pub fn is_autostart(args: &Vec<String>) -> (r: bool)
    ensures
        r == exists|i: int| 0 <= i < args@.len() && #[trigger] args@[i]@ == "--autostart"@,
{
    let mut i: usize = 0;
    while i < args.len()
        invariant
            i <= args@.len(),
            forall|k: int| 0 <= k < i ==> args@[k]@ != "--autostart"@,
        decreases args.len() - i,
    {
        if text_eq(args[i].as_str(), "--autostart") {
            return true;
        }
        i += 1;
    }
    false
}

/// What closing the main window does.
#[derive(Clone, Copy, Debug, PartialEq, Eq, Structural)]
pub enum CloseAction {
    /// Keep the window and ask whether to minimise to the tray.
    AskToMinimize,
    /// Hide the window to the tray.
    HideToTray,
}

/// Closing the main window hides it to the tray once the user has chosen
/// that; until then the window stays and the user is asked.
pub fn on_close_requested(minimize_to_tray: bool) -> (r: CloseAction)
    ensures
        r == (if minimize_to_tray {
            CloseAction::HideToTray
        } else {
            CloseAction::AskToMinimize
        }),
{
    if minimize_to_tray {
        CloseAction::HideToTray
    } else {
        CloseAction::AskToMinimize
    }
}

} // verus!
