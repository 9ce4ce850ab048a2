//! Screenshot and screen-recording helpers: the pure logic behind capture
//! geometry, MP4 post-processing, filename templates, settings fields and
//! configuration rendering.

#![allow(unused_imports)]

use vstd::prelude::*;

pub mod geometry;
pub mod mp4;
pub mod text;
pub mod filename;
pub mod localkey;
pub mod update;
pub mod textfield;
pub mod ui;
pub mod snap;
pub mod settings;
pub mod store;
pub mod session;
pub mod capture;
pub mod icons;
pub mod hotkey;
pub mod export;

verus! {

} // verus!
