//! The die: a random integer between one and the number of faces.

use vstd::prelude::*;

verus! {

/// Why a die could not be rolled.
#[derive(Clone, Copy, Debug, PartialEq, Eq, Structural)]
pub enum DieError {
    /// The die was asked to have fewer than one face.
    InvalidArgument,
}

/// Whether `value` is a face of a die with `faces` faces.
pub open spec fn is_face(value: int, faces: int) -> bool {
    1 <= value <= faces
}

/// The generator of `fastrand`, carried as an opaque value.
#[verifier::external_type_specification]
#[verifier::external_body]
pub struct ExRng(fastrand::Rng);

/// `fastrand::Rng::new` hands out a fresh generator. Trusted: it returns on
/// every call; nothing is claimed about the generator it returns.
pub assume_specification[ fastrand::Rng::new ]() -> (rng: fastrand::Rng);

/// Draws from `rng` through `fastrand::Rng::i32` on the range `low..=high`.
///
/// Trusted: the generator panics on an empty range, which `requires` rules
/// out, and otherwise returns a member of the range. Nothing is claimed about
/// which member comes back, nor about how likely each one is.
#[verifier::external_body]
fn i32_between(rng: &mut fastrand::Rng, low: i32, high: i32) -> (value: i32)
    requires
        low <= high,
    ensures
        low <= value <= high,
{
    rng.i32(low..=high)
}

/// Draws one face of a die with `faces` faces from a fresh generator.
pub(crate) fn draw(faces: i32) -> (face: i32)
    requires
        faces >= 1,
    ensures
        is_face(face as int, faces as int),
{
    let mut rng = fastrand::Rng::new();
    i32_between(&mut rng, 1, faces)
}

/// Rolls a die with `faces` faces.
///
/// A die needs at least one face; fewer is rejected and nothing is drawn.
/// Otherwise the result is one of the faces `1..=faces`.
pub fn roll(faces: i32) -> (rolled: Result<i32, DieError>)
    ensures
        faces < 1 <==> rolled is Err,
        rolled matches Err(e) ==> e == DieError::InvalidArgument,
        rolled matches Ok(face) ==> is_face(face as int, faces as int),
{
    if faces < 1 {
        Err(DieError::InvalidArgument)
    } else {
        Ok(draw(faces))
    }
}

} // verus!
