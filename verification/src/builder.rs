//! The builder pattern: a `BurgerBuilder` collects every configurable option,
//! starting from the standard values, and `build` assembles a `Burger` —
//! rejecting the one combination the kitchen cannot serve.

use vstd::prelude::*;

verus! {

/// All the options a burger can be configured with.
pub struct BurgerBuilder {
    pub patty_count: i32,
    pub vegetarian: bool,
    pub cheese: bool,
    pub bacon: bool,
    pub salad: bool,
}

/// A burger as it was built.
pub struct Burger {
    pub patty_count: i32,
    pub vegetarian: bool,
    pub cheese: bool,
    pub bacon: bool,
    pub salad: bool,
}

impl BurgerBuilder {
    /// A builder holding the standard burger: one patty, salad, nothing else.
    pub fn new() -> (r: Self)
        ensures
            r == (BurgerBuilder {
                patty_count: 1,
                vegetarian: false,
                cheese: false,
                bacon: false,
                salad: true,
            }),
    {
        Self { patty_count: 1, vegetarian: false, cheese: false, bacon: false, salad: true }
    }

    /// Sets how many patties the burger gets.
    pub fn patty_count(self, val: i32) -> (r: Self)
        ensures
            r == (BurgerBuilder { patty_count: val, ..self }),
    {
        BurgerBuilder { patty_count: val, ..self }
    }

    /// Sets whether the burger is vegetarian.
    pub fn vegetarian(self, val: bool) -> (r: Self)
        ensures
            r == (BurgerBuilder { vegetarian: val, ..self }),
    {
        BurgerBuilder { vegetarian: val, ..self }
    }

    /// Sets whether the burger gets cheese.
    pub fn cheese(self, val: bool) -> (r: Self)
        ensures
            r == (BurgerBuilder { cheese: val, ..self }),
    {
        BurgerBuilder { cheese: val, ..self }
    }

    /// Sets whether the burger gets bacon.
    pub fn bacon(self, val: bool) -> (r: Self)
        ensures
            r == (BurgerBuilder { bacon: val, ..self }),
    {
        BurgerBuilder { bacon: val, ..self }
    }

    /// Sets whether the burger gets salad.
    pub fn salad(self, val: bool) -> (r: Self)
        ensures
            r == (BurgerBuilder { salad: val, ..self }),
    {
        BurgerBuilder { salad: val, ..self }
    }

    /// Assembles the burger with exactly the configured options. The one
    /// invalid configuration — vegetarian bacon — is refused, with a word of
    /// apology; every other configuration builds.
    pub fn build(&self) -> (r: Result<Burger, String>)
        ensures
            r is Ok <==> !(self.vegetarian && self.bacon),
            r matches Ok(b) ==> b == (Burger {
                patty_count: self.patty_count,
                vegetarian: self.vegetarian,
                cheese: self.cheese,
                bacon: self.bacon,
                salad: self.salad,
            }),
            r matches Err(m) ==> m@ == "Sorry, but we don't server vegetarian bacon yet"@,
    {
        let burger = Burger {
            patty_count: self.patty_count,
            vegetarian: self.vegetarian,
            cheese: self.cheese,
            bacon: self.bacon,
            salad: self.salad,
        };
        if burger.vegetarian && burger.bacon {
            Err("Sorry, but we don't server vegetarian bacon yet".to_owned())
        } else {
            Ok(burger)
        }
    }
}

} // verus!
