//! Default values: a pizza order where everything not chosen falls back to
//! the standard, written out by hand so the fallback is part of the contract.

use vstd::prelude::*;

verus! {

/// The kinds of crust the kitchen offers.
#[derive(Debug, PartialEq, Eq, Structural, Clone, Copy)]
pub enum CrustType {
    Thin,
    Thick,
}

impl Default for CrustType {
    /// The standard crust is the thin one.
    fn default() -> (r: Self)
        ensures
            r == CrustType::Thin,
    {
        CrustType::Thin
    }
}

/// A pizza order, every part of which may be left to its default.
pub struct PizzaConfig {
    pub wants_cheese: bool,
    pub number_of_olives: i32,
    pub special_message: String,
    pub crust_type: CrustType,
}

impl Default for PizzaConfig {
    /// The standard order: no cheese, no olives, no message, thin crust.
    fn default() -> (r: Self)
        ensures
            r.wants_cheese == false,
            r.number_of_olives == 0,
            r.special_message@ == Seq::<char>::empty(),
            r.crust_type == CrustType::Thin,
    {
        PizzaConfig {
            wants_cheese: false,
            number_of_olives: 0,
            special_message: String::new(),
            crust_type: CrustType::Thin,
        }
    }
}

} // verus!
