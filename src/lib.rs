//! Fixed-point arcade vehicle controller: raycast suspension, drive and
//! steering forces, heading extraction and a follow camera.
use vstd::prelude::*;

pub mod fixed;
pub mod camera;
pub mod orientation;
pub mod vehicle;

verus! {

} // verus!
