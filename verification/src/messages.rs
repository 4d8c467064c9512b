//! Routing decisions for incoming X events that need no connection: how
//! a window presenting itself is classified, what an EWMH client message
//! asks for, and how a window is asked to close.

use crate::effect::{Effect, Effects};
use crate::ewmh_manager::AtomTable;
use crate::state::WindowType;
use vstd::prelude::*;

verus! {

/// What an EWMH client message asks the manager to do.
#[derive(Debug, Clone, Copy, PartialEq, Eq, Structural)]
pub enum ClientMessageAction {
    /// `_NET_CURRENT_DESKTOP`: switch to the named workspace.
    SwitchWorkspace(u32),
    /// `_NET_ACTIVE_WINDOW`: focus the sender's window.
    ActivateWindow(u32),
    /// `_NET_CLOSE_WINDOW`: close the sender's window.
    CloseRequest(u32),
    /// Anything else.
    Ignore,
}

/// Routes an EWMH client message: the message type atom picks the
/// action, the first data word names the desktop for a switch.
pub fn classify_client_message(
    atoms: &AtomTable,
    message_type: u32,
    window: u32,
    data0: u32,
) -> (r: ClientMessageAction)
    ensures
        r == if message_type == atoms.current_desktop {
            ClientMessageAction::SwitchWorkspace(data0)
        } else if message_type == atoms.active_window {
            ClientMessageAction::ActivateWindow(window)
        } else if message_type == atoms.close_window {
            ClientMessageAction::CloseRequest(window)
        } else {
            ClientMessageAction::Ignore
        },
{
    if message_type == atoms.current_desktop {
        ClientMessageAction::SwitchWorkspace(data0)
    } else if message_type == atoms.active_window {
        ClientMessageAction::ActivateWindow(window)
    } else if message_type == atoms.close_window {
        ClientMessageAction::CloseRequest(window)
    } else {
        ClientMessageAction::Ignore
    }
}

/// How a window presenting itself to the manager is treated: a dock
/// window type wins over everything, an override-redirect flag opts the
/// window out, and a failed attribute query (`None`) is treated
/// permissively as manageable.
pub fn classify_window(has_dock_type: bool, override_redirect: Option<bool>) -> (r: WindowType)
    ensures
        r == if has_dock_type {
            WindowType::Dock
        } else if override_redirect == Some(true) {
            WindowType::Unmanaged
        } else {
            WindowType::Managed
        },
{
    if has_dock_type {
        WindowType::Dock
    } else {
        match override_redirect {
            Some(true) => WindowType::Unmanaged,
            _ => WindowType::Managed,
        }
    }
}

/// How a window is asked to close: cooperatively when its protocols
/// list `WM_DELETE_WINDOW`, forcibly otherwise.
pub fn close_window_effects(window: u32, supports_wm_delete: bool) -> (r: Effects)
    ensures
        supports_wm_delete ==> r@ =~= seq![Effect::SendWmDelete(window)],
        !supports_wm_delete ==> r@ =~= seq![Effect::KillClient(window)],
{
    let mut out: Effects = Vec::new();
    if supports_wm_delete {
        out.push(Effect::SendWmDelete(window));
    } else {
        out.push(Effect::KillClient(window));
    }
    out
}

} // verus!
