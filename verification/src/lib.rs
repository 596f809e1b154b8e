//! Frame grabbing logic for a viewer that mirrors an X display into a window:
//! pixel decoding, frame pacing and capture planning.

pub mod capture;
pub mod pacing;
pub mod pixel;
