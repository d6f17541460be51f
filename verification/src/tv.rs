//! The visualizer window.

use vstd::prelude::*;

verus! {

/// A visualizer that hands the frame's samples to the window as they are.
#[derive(Clone, Copy, Debug, PartialEq, Eq)]
pub struct BasicVisualizer {}

} // verus!
