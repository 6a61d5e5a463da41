//! Text layout and event routing for a desktop GUI toolkit.
//!
//! Text is laid out in four steps: measured characters are broken into lines,
//! the lines are aligned inside a bounding rectangle, each line is given the
//! origin at which its glyphs are shaped, and cursor ranges are mapped onto
//! rectangles of selected characters. Events travel through an ordered queue
//! and reach the handlers registered for their address and type.
//!
//! All coordinates are integers in one fixed-point unit chosen by the caller.

pub mod text;
pub mod line;
pub mod geometry;
pub mod layout;
pub mod glyph;
pub mod event;
pub mod dispatch;
pub mod drawable;
pub mod button;
