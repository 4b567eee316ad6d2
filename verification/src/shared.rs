//! Shared ownership: a ball kept alive by reference counting, so a kid can
//! carry a handle to it while other handles come and go.

use std::rc::Rc;
use vstd::prelude::*;

verus! {

/// The one ball everybody plays with.
pub struct Ball;

/// A kid holding a shared handle to the ball.
pub struct Kid {
    pub ball: Rc<Ball>,
}

/// Relies on Rc::clone: the new handle refers to the same allocation, so it
/// carries the same value, and the allocation lives until the last handle is
/// dropped.
#[verifier::external_body]
pub fn share_ball(ball: &Rc<Ball>) -> (r: Rc<Ball>)
    ensures
        r == *ball,
{
    Rc::clone(ball)
}

/// Creates a ball and a kid holding a handle to it. The handle the kid keeps
/// is a clone; the original handle going out of scope here does not destroy
/// the ball, because the clone still counts.
pub fn spawn_kid_with_new_ball() -> (k: Kid)
    ensures
        k.ball == Ball,
{
    let ball = Rc::new(Ball);
    Kid { ball: share_ball(&ball) }
}

} // verus!
