//! Window identities, the window events, and the settings a window can take.

use vstd::prelude::*;

verus! {

/// The id of the primary window.
pub const PRIMARY_ID: usize = 0;

/// Identifies a window.
#[derive(Debug, Clone, Copy, Hash, PartialEq, Eq, Structural)]
pub struct WindowId(pub usize);

impl WindowId {
    /// The id of a window other than the primary one.
    pub fn new(id: usize) -> (r: WindowId)
        requires
            id != PRIMARY_ID,
        ensures
            r.0 == id,
    {
        WindowId(id)
    }

    /// The primary window's id.
    pub fn primary() -> (r: WindowId)
        ensures
            r.0 == PRIMARY_ID,
    {
        WindowId(PRIMARY_ID)
    }

    pub fn is_primary(&self) -> (r: bool)
        ensures
            r == (self.0 == PRIMARY_ID),
    {
        self.0 == PRIMARY_ID
    }
}

/// How a window is to be made.
#[derive(Debug, Clone, Copy)]
pub struct WindowDescriptor {}

impl Default for WindowDescriptor {
    fn default() -> (r: WindowDescriptor) {
        WindowDescriptor {  }
    }
}

/// A window is to be created.
pub struct CreateWindow {
    pub id: WindowId,
    pub desc: WindowDescriptor,
}

/// A window was created.
pub struct WindowCreated {
    pub id: WindowId,
}

/// A redraw was asked for.
pub struct RequestRedraw;

/// A window gained or lost focus.
pub struct FocusChanged {
    pub window_id: WindowId,
    pub focused: bool,
}

/// The cursor entered a window.
pub struct CursorEntered {
    pub window_id: WindowId,
}

/// The cursor left a window.
pub struct CursorLeft {
    pub window_id: WindowId,
}

/// How a window sits on the screen.
#[derive(Debug, Clone, Copy, PartialEq, Eq, Structural)]
pub enum WindowMode {
    /// At the given size.
    Windowed,
    /// Borderless, over the whole screen.
    BorderlessFullscreen,
    /// Fullscreen at the supported size closest to the given one.
    SizedFullscreen,
    /// Fullscreen at the largest supported size.
    Fullscreen,
}

/// When a finished frame is shown.
#[derive(Debug, Clone, Copy, Hash, PartialEq, Eq, Structural)]
pub enum PresentMode {
    /// At once, maybe tearing.
    Immediate,
    /// At the next vertical blank, without waiting to submit.
    Mailbox,
    /// At the next vertical blank, frames capped at the refresh rate.
    Fifo,
}

/// The shape of the mouse cursor.
#[derive(Debug, Clone, Copy, Hash, PartialEq, Eq, Structural)]
pub enum CursorIcon {
    Default,
    Crosshair,
    Hand,
    Arrow,
    Move,
    Text,
    Wait,
    Help,
    Progress,
    NotAllowed,
    ContextMenu,
    Cell,
    VerticalText,
    Alias,
    Copy,
    NoDrop,
    Grab,
    Grabbing,
    AllScroll,
    ZoomIn,
    ZoomOut,
    EResize,
    NResize,
    NeResize,
    NwResize,
    SResize,
    SeResize,
    SwResize,
    WResize,
    EwResize,
    NsResize,
    NeswResize,
    NwseResize,
    ColResize,
    RowResize,
}

} // verus!
