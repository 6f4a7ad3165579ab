//! What the drawing area of an RDP session shows.

use vstd::prelude::*;

verus! {

/// What is known of a session's picture.
#[derive(Clone, Copy, Debug, PartialEq, Eq, Structural)]
pub struct Frame {
    /// Whether this process draws the session.
    pub embedded: bool,
    pub connected: bool,
    /// The size of the picture, in pixels.
    pub width: u32,
    pub height: u32,
    /// Whether any pixel has arrived.
    pub has_data: bool,
    /// Whether the picture can be handed to the renderer.
    pub has_surface: bool,
    /// Whether the picture may be older than it looks.
    pub stale: bool,
}

/// What is drawn.
#[derive(Clone, Copy, Debug, PartialEq, Eq, Structural)]
pub enum Drawing {
    /// The picture, washed out where it may be old.
    Picture { washed_out: bool },
    /// Nothing new.
    Unchanged,
    /// The state of the connection, on a dark ground.
    Status,
}

/// What is drawn for a frame.
pub open spec fn drawing_of(frame: Frame) -> Drawing {
    if frame.embedded && frame.connected && frame.width > 0 && frame.height > 0 && frame.has_data {
        if frame.has_surface {
            Drawing::Picture { washed_out: frame.stale }
        } else {
            Drawing::Unchanged
        }
    } else {
        Drawing::Status
    }
}

/// Chooses what is drawn.
pub fn choose_drawing(frame: Frame) -> (r: Drawing)
    ensures
        r == drawing_of(frame),
{
    if frame.embedded && frame.connected && frame.width > 0 && frame.height > 0 && frame.has_data {
        if frame.has_surface {
            Drawing::Picture { washed_out: frame.stale }
        } else {
            Drawing::Unchanged
        }
    } else {
        Drawing::Status
    }
}

/// A picture that may be old is never shown as if it were live.
pub proof fn law_old_picture_is_washed_out(frame: Frame)
    requires
        frame.stale,
    ensures
        drawing_of(frame) != (Drawing::Picture { washed_out: false }),
{
}

/// A picture is drawn exactly where this process draws the session, it is connected, a picture of some
/// size has arrived and can be handed on; where it cannot be, what is there stays; otherwise the state
/// is shown. It is washed out exactly where it may be old.
pub proof fn law_picture_is_drawn_where_there_is_one(frame: Frame, r: Drawing)
    requires
        call_ensures(choose_drawing, (frame,), r),
    ensures
        r is Status <==> !(frame.embedded && frame.connected && frame.has_data) || frame.width == 0
            || frame.height == 0,
        r is Picture ==> frame.has_surface,
        r is Unchanged ==> !frame.has_surface,
        r matches Drawing::Picture { washed_out } ==> (washed_out <==> frame.stale),
{
}

} // verus!
