//! A menu over a list of displayable options, driven by a behaviour that
//! supplies them.

use std::fmt::Display;

use vstd::prelude::*;

verus! {

/// A menu: its behaviour, the selected option, and the options.
pub struct Menu<B: MenuBehavior, O: Display> {
    behavior: B,
    selection: usize,
    options: Vec<O>,
}

/// What a menu asks of the code that drives it.
pub trait MenuBehavior {
    /// The options the menu offers.
    fn get_options(&self) -> Vec<Box<dyn Display>>;
}

} // verus!
