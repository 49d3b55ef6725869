//! The stable 128-bit identifier that names a stage.

use vstd::prelude::*;

verus! {

/// A stable, collision-free 128-bit identity value. Stage registrations made
/// by independently compiled modules match each other by this value alone,
/// never by a shared reference.
#[derive(Clone, Copy, Debug, PartialEq, Eq, Structural)]
pub struct Ulid(pub u128);

} // verus!
