//! Vessel identity and per-class configuration.

use vstd::prelude::*;

use crate::vec3::{Vec3r, Vec3v};

verus! {

/// Mathematical value of an acceleration profile.
pub ghost struct Propsv {
    pub linear_acceleration: Vec3v,
    pub angular_acceleration: Vec3v,
}

/// The player a vessel belongs to.
#[derive(Clone, Copy, Debug, PartialEq, Eq, Structural)]
pub enum Player {
    Host,
}

/// Stable identity of a vessel: owning player plus an index.
#[derive(Clone, Copy, Debug, PartialEq, Eq, Structural)]
pub struct VesselID {
    pub player: Player,
    pub id: u32,
}

/// Hull class of a vessel.
#[derive(Clone, Copy, Debug)]
pub enum VesselClass {
    Cruiser,
}

/// Allegiance of a vessel.
#[derive(Clone, Copy, Debug)]
pub enum Faction {
    Greek,
}

/// Acceleration profile of a vessel class, fixed at spawn time.
#[derive(Clone, Copy, Debug)]
pub struct MovementProperties {
    pub linear_acceleration: Vec3r,
    pub angular_acceleration: Vec3r,
}

impl View for MovementProperties {
    type V = Propsv;

    open spec fn view(&self) -> Propsv {
        Propsv {
            linear_acceleration: self.linear_acceleration@,
            angular_acceleration: self.angular_acceleration@,
        }
    }
}

/// Static description of a vessel: class, allegiance, model asset and how
/// it accelerates.
#[derive(Clone, Debug)]
pub struct VesselDefinition {
    pub class: VesselClass,
    pub faction: Faction,
    pub model_path: String,
    pub movement_properties: MovementProperties,
}

} // verus!
