//! The tray icon's words. The app lives in the tray while a game or a model
//! run has the machine: the icon and tooltip say whether Quiet Mode is on,
//! the menu toggles it, and Quit is the one real exit (the window's close
//! hides).
//!
//! The menu names the current state and the action separately: a single
//! "Toggle" item said neither.

use vstd::prelude::*;
use crate::journal::Summary;
use crate::shell::engine::EngineState;
use crate::shell::error::AppError;
use crate::text::{contains, decimal, push_decimal};

verus! {

/// Menu ids. Handlers match on these strings, so they must not change.
pub const ID_TOGGLE: &'static str = "tray-toggle";
pub const ID_SHOW: &'static str = "tray-show";
pub const ID_QUIT: &'static str = "tray-quit";

#[derive(Debug, Clone, Copy, PartialEq, Eq, Structural)]
pub enum MenuAction {
    Toggle,
    Show,
    Quit,
}

/// Routes a tray menu id to its action; unknown ids do nothing.
pub fn menu_action(id: &str) -> (r: Option<MenuAction>)
    ensures
        r == if id@ == "tray-toggle"@ {
            Some(MenuAction::Toggle)
        } else if id@ == "tray-show"@ {
            Some(MenuAction::Show)
        } else if id@ == "tray-quit"@ {
            Some(MenuAction::Quit)
        } else {
            None
        },
{
    let id = String::from_str(id);
    if id == String::from_str(ID_TOGGLE) {
        Some(MenuAction::Toggle)
    } else if id == String::from_str(ID_SHOW) {
        Some(MenuAction::Show)
    } else if id == String::from_str(ID_QUIT) {
        Some(MenuAction::Quit)
    } else {
        None
    }
}

/// How the tray looks in one state.
#[derive(Debug, Clone)]
pub struct TrayLook {
    /// The Quiet Mode icon rather than the idle one.
    pub quiet_icon: bool,
    pub tooltip: String,
    /// The text of the toggle item: what pressing it does.
    pub toggle_label: String,
}

/// The icon, tooltip and toggle text that keep the tray in step with the
/// engine.
pub fn tray_look(quiet: bool) -> (r: TrayLook)
    ensures
        r.quiet_icon == quiet,
        r.tooltip@ == if quiet { "CompuQuiet — Quiet Mode on"@ } else { "CompuQuiet — idle"@ },
        r.toggle_label@ == if quiet { "Put everything back"@ } else { "Free up this PC"@ },
{
    if quiet {
        TrayLook {
            quiet_icon: true,
            tooltip: String::from_str("CompuQuiet — Quiet Mode on"),
            toggle_label: String::from_str("Put everything back"),
        }
    } else {
        TrayLook {
            quiet_icon: false,
            tooltip: String::from_str("CompuQuiet — idle"),
            toggle_label: String::from_str("Free up this PC"),
        }
    }
}

/// The state item of the menu.
pub fn status_label(active: bool) -> (r: &'static str)
    ensures
        r@ == if active { "Game Mode: ON"@ } else { "Game Mode: OFF"@ },
{
    if active {
        "Game Mode: ON"
    } else {
        "Game Mode: OFF"
    }
}

/// The action item of the menu: what pressing it does, not the state it is
/// in.
pub fn toggle_label(active: bool) -> (r: &'static str)
    ensures
        r@ == if active { "Turn off & restore"@ } else { "Turn on Game Mode"@ },
{
    if active {
        "Turn off & restore"
    } else {
        "Turn on Game Mode"
    }
}

/// The tooltip of the Game Mode tray.
pub fn game_tooltip(active: bool) -> (r: &'static str)
    ensures
        r@ == if active { "GameQuiet — Game Mode ON"@ } else { "GameQuiet — Game Mode OFF"@ },
{
    if active {
        "GameQuiet — Game Mode ON"
    } else {
        "GameQuiet — Game Mode OFF"
    }
}

/// The state and action items never say the same thing, the state item says
/// ON or OFF, and the action item says what pressing it turns on or off.
pub proof fn lemma_tray_names_state_and_action(active: bool)
    ensures
        status_label_text(active) != toggle_label_text(active),
        contains(status_label_text(active), if active { "ON"@ } else { "OFF"@ }),
        contains(toggle_label_text(active), if active { "off"@ } else { "on"@ }),
{
    reveal_strlit("Game Mode: ON");
    reveal_strlit("Game Mode: OFF");
    reveal_strlit("Turn off & restore");
    reveal_strlit("Turn on Game Mode");
    reveal_strlit("ON");
    reveal_strlit("OFF");
    reveal_strlit("off");
    reveal_strlit("on");
    assert(status_label_text(active)[0] != toggle_label_text(active)[0]);
    if active {
        let s = status_label_text(active);
        let t = toggle_label_text(active);
        assert(s.subrange(11, 11int + "ON"@.len()) =~= "ON"@);
        assert(t.subrange(5, 5int + "off"@.len()) =~= "off"@);
    } else {
        let s = status_label_text(active);
        let t = toggle_label_text(active);
        assert(s.subrange(11, 11int + "OFF"@.len()) =~= "OFF"@);
        assert(t.subrange(5, 5int + "on"@.len()) =~= "on"@);
    }
}

pub open spec fn status_label_text(active: bool) -> Seq<char> {
    if active { "Game Mode: ON"@ } else { "Game Mode: OFF"@ }
}

pub open spec fn toggle_label_text(active: bool) -> Seq<char> {
    if active { "Turn off & restore"@ } else { "Turn on Game Mode"@ }
}

/// A left click on the icon hides the window when it is visible and in
/// front, and shows it otherwise.
pub fn click_hides_window(visible: bool, focused: bool) -> (r: bool)
    ensures
        r == (visible && focused),
{
    visible && focused
}

/// What a Quit from the tray does.
#[derive(Debug, Clone, Copy, PartialEq, Eq, Structural)]
pub enum TrayQuit {
    /// A run is in progress: ignore the request.
    Ignore,
    /// Restore first; leave only if that finishes.
    RestoreFirst,
    Exit,
}

/// Quit from the tray respects the restore-on-quit preference.
pub fn tray_quit(busy: bool, quiet: bool, restore_on_quit: bool) -> (r: TrayQuit)
    ensures
        r == if busy {
            TrayQuit::Ignore
        } else if quiet && restore_on_quit {
            TrayQuit::RestoreFirst
        } else {
            TrayQuit::Exit
        },
{
    if busy {
        TrayQuit::Ignore
    } else if quiet && restore_on_quit {
        TrayQuit::RestoreFirst
    } else {
        TrayQuit::Exit
    }
}

/// What the notification says after a toggle from the tray.
pub open spec fn notification_text(outcome: Result<EngineState, AppError>, quiet: bool) -> Seq<char> {
    match outcome {
        Ok(state) => if quiet {
            "Quiet Mode on: "@ + decimal(state.summary.services_stopped as nat) + " services stopped, "@ + decimal(
                (state.summary.processes_suspended + state.summary.processes_closed) as nat,
            ) + " processes parked."@
        } else if !state.quiet {
            "Everything is back."@
        } else {
            "Some changes could not be restored. Open the window."@
        },
        Err(e) => e.message@,
    }
}

/// The body of the notification shown after a toggle from the tray while
/// the window is hidden.
pub fn notification_body(outcome: &Result<EngineState, AppError>, quiet: bool) -> (r: String)
    requires
        outcome matches Ok(state) ==> state.summary.processes_suspended + state.summary.processes_closed <= u64::MAX,
    ensures
        r@ == notification_text(*outcome, quiet),
{
    match outcome {
        Ok(state) => {
            if quiet {
                let s: &Summary = &state.summary;
                let mut r = String::from_str("Quiet Mode on: ");
                push_decimal(&mut r, s.services_stopped as u64);
                r.append(" services stopped, ");
                push_decimal(&mut r, (s.processes_suspended as u64) + (s.processes_closed as u64));
                r.append(" processes parked.");
                proof {
                    reveal_strlit("Quiet Mode on: ");
                    reveal_strlit(" services stopped, ");
                    reveal_strlit(" processes parked.");
                }
                r
            } else if !state.quiet {
                String::from_str("Everything is back.")
            } else {
                String::from_str("Some changes could not be restored. Open the window.")
            }
        },
        Err(e) => e.message.clone(),
    }
}

} // verus!
