//! Local music browsing: directory entries, their ordering and selection,
//! and the reshaping of a listing into a playback queue.
use vstd::prelude::*;

pub mod local;
pub mod text;
pub mod ui;

verus! {

} // verus!
