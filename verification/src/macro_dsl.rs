//! Scenarios in one expression.

use crate::faults::any::AnyFault;
use crate::scenario::{ChaosScenario, ChaosScenarioBuilder};
use crate::topology::Topology;
use crate::types::BifurcationProfile;
use vstd::prelude::*;

verus! {

/// A scenario of the given faults, with a graph attached if there is one. It is the
/// one that the builder gives.
pub fn inline_scenario(
    name: &str,
    seed: u64,
    profile: BifurcationProfile,
    topology: Option<Topology>,
    faults: Vec<AnyFault>,
) -> (r: ChaosScenario)
    ensures
        r.title() == name@,
        r.shared_seed() == seed,
        r.stability() == profile,
        r.graph() == topology,
        r.members() == faults@,
{
    ChaosScenarioBuilder {
        name: Some(name.to_owned()),
        seed: Some(seed),
        faults,
        profile: Some(profile),
        topology,
    }.build()
}

} // verus!
