//! Theme content.

use vstd::prelude::*;

verus! {

/// The appearance of a theme in serialized content.
#[derive(Debug, PartialEq, Clone, Copy)]
pub enum AppearanceContent {
    Light,
    Dark,
}

} // verus!
