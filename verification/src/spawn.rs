//! The one whole-number choice made when a circle is placed: which way it
//! starts to move along an axis.

use vstd::prelude::*;
use rand::Rng;

verus! {

/// The sign that a drawn number stands for: an even draw points backward
/// (`-1`), an odd one forward (`1`).
pub open spec fn sign_for(draw: i32) -> int {
    if draw % 2 == 0 {
        -1
    } else {
        1
    }
}

/// The sign of a velocity component, decided by the parity of a drawn number.
pub fn sign_of_draw(draw: i32) -> (sign: i32)
    ensures
        sign == sign_for(draw),
{
    if draw % 2 == 0 {
        -1
    } else {
        1
    }
}

/// Draws a number with `rand::Rng::gen::<i32>` from the generator that
/// `rand::thread_rng` hands out. Nothing is claimed of the number drawn.
#[verifier::external_body]
fn draw_word() -> i32 {
    rand::thread_rng().gen::<i32>()
}

/// A sign chosen by a fresh random draw. Whatever is drawn, it is `-1` or
/// `1`.
pub fn random_sign() -> (sign: i32)
    ensures
        sign == -1 || sign == 1,
{
    sign_of_draw(draw_word())
}

} // verus!
