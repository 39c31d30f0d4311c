//! The actions that a menu or a key binding can ask for.

use vstd::prelude::*;

verus! {

/// Quit the application.
#[derive(Debug, Clone, Copy, PartialEq, Eq, Structural)]
pub struct Quit;

/// Toggle the always-on-top floating usage ball.
#[derive(Debug, Clone, Copy, PartialEq, Eq, Structural)]
pub struct ToggleFloatingWindow;

} // verus!
