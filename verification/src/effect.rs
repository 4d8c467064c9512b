//! Declarative descriptions of X server mutations. Reducers produce
//! effects; the adapter that owns the connection performs them. Effects
//! carry plain values only and never reference live server state.

use vstd::prelude::*;

verus! {

/// One X-server-observable mutation. Windows, atoms and pixels are the
/// raw 32-bit X resource identifiers and values.
#[derive(Debug, Clone, PartialEq, Eq)]
pub enum Effect {
    MapWindow(u32),
    Unmap(u32),
    Focus(u32),
    Raise(u32),
    Configure { window: u32, x: i32, y: i32, w: u32, h: u32, border: u32 },
    ConfigurePositionSize { window: u32, x: i32, y: i32, w: u32, h: u32 },
    SetBorder { window: u32, pixel: u32, width: u32 },
    SetCardinal32 { window: u32, atom: u32, value: u32 },
    SetCardinal32List { window: u32, atom: u32, values: Vec<u32> },
    SetAtomList { window: u32, atom: u32, values: Vec<u32> },
    SetUtf8String { window: u32, atom: u32, value: String },
    SetWindowProperty { window: u32, atom: u32, values: Vec<u32> },
    KillClient(u32),
    SendWmDelete(u32),
    GrabKey { keycode: u8, modifiers: u32, grab_window: u32 },
    GrabButton(u32),
    SubscribeEnterNotify(u32),
}

/// A batch of effects, applied to the server in list order.
pub type Effects = Vec<Effect>;

} // verus!
