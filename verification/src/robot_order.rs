//! The order of robot ids: by their number.
use vstd::prelude::*;
use std::cmp::Ordering;
use vstd::std_specs::cmp::PartialOrdSpec;
use crate::distributed::RobotId;

verus! {

impl PartialOrd for RobotId {
    fn partial_cmp(&self, other: &Self) -> (r: Option<Ordering>) {
        if self.0 < other.0 {
            Some(Ordering::Less)
        } else if self.0 == other.0 {
            Some(Ordering::Equal)
        } else {
            Some(Ordering::Greater)
        }
    }
}

impl vstd::std_specs::cmp::PartialOrdSpecImpl for RobotId {
    open spec fn obeys_partial_cmp_spec() -> bool {
        true
    }

    open spec fn partial_cmp_spec(&self, other: &Self) -> Option<Ordering> {
        if self.0 < other.0 {
            Some(Ordering::Less)
        } else if self.0 == other.0 {
            Some(Ordering::Equal)
        } else {
            Some(Ordering::Greater)
        }
    }
}

/// Robot ids are ordered as their numbers are: `a < b` exactly when
/// `a.0 < b.0`, and they compare equal exactly when the numbers are equal.
pub proof fn law_robot_id_order(a: RobotId, b: RobotId)
    ensures
        (a.partial_cmp_spec(&b) == Some(Ordering::Less)) <==> a.0 < b.0,
        (a.partial_cmp_spec(&b) == Some(Ordering::Equal)) <==> a.0 == b.0,
        (a.partial_cmp_spec(&b) == Some(Ordering::Greater)) <==> a.0 > b.0,
{
}

} // verus!
