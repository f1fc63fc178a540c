//! Laws of the search: what a raw point stands for, and how evaluations are numbered.

use crate::search::{decoded_point, evaluation_seed, iteration_at, Dimension};
use crate::scalar::Scalar;
use vstd::prelude::*;

verus! {

/// Each value of a point is read by its own dimension, and changing one value of a raw point
/// changes no other.
pub proof fn values_are_read_one_by_one(
    dimensions: Seq<Dimension>,
    raw: Seq<Scalar>,
    i: int,
    other: Scalar,
    j: int,
)
    requires
        0 <= i < raw.len(),
        0 <= j < raw.len(),
    ensures
        decoded_point(dimensions, raw).len() == raw.len(),
        i < dimensions.len() ==> decoded_point(dimensions, raw)[i] == dimensions[i].decoded(raw[i]),
        i >= dimensions.len() ==> decoded_point(dimensions, raw)[i] == raw[i],
        i != j ==> decoded_point(dimensions, raw.update(j, other))[i] == decoded_point(
            dimensions,
            raw,
        )[i],
{
}

/// The evaluations of the initial design belong to iteration zero; those after it are numbered
/// from one, without a gap.
pub proof fn evaluations_are_numbered(place: nat, design: usize)
    ensures
        iteration_at(place, design) == 0 <==> place < design,
        iteration_at(design as nat, design) == 1,
        place >= design ==> iteration_at(place + 1, design) == iteration_at(place, design) + 1,
{
}

/// The seed of iteration zero is the master seed, and that of the next iteration is the
/// following number, with zero after the largest; so different iterations have different seeds.
pub proof fn every_iteration_has_its_seed(master: u64, a: u64, b: u64)
    ensures
        evaluation_seed(master, 0) == master,
        a < u64::MAX && evaluation_seed(master, a) < u64::MAX ==> evaluation_seed(
            master,
            (a + 1) as u64,
        ) == evaluation_seed(master, a) + 1,
        a < u64::MAX && evaluation_seed(master, a) == u64::MAX ==> evaluation_seed(
            master,
            (a + 1) as u64,
        ) == 0,
        a != b ==> evaluation_seed(master, a) != evaluation_seed(master, b),
{
}

} // verus!
