//! Structural core of the follower (retailer) solver: the active-set
//! patterns tried for the two inequality constraints, the layout of the KKT
//! decision vector, and the admissibility rule for the multipliers.
//!
//! The KKT vector for one retailer holds one price slot per active product,
//! then one ad-spend slot per active product, then one slot per multiplier
//! that the attempted active set declares: the volume constraint (TVR)
//! first, the ad-budget constraint (Ta) second.

use vstd::prelude::*;

verus! {

#[derive(Copy, Clone)]
pub struct RRGameConstraints {
    pub TVR_active: bool,
    pub Ta_active: bool,
}

impl RRGameConstraints {
    /// Length of the KKT decision vector for one retailer.
    pub fn array_len(&self, product_count: usize) -> (n: usize)
        requires
            product_count <= (usize::MAX - 2) / 2,
        ensures
            n == 2 * product_count + (if self.TVR_active {
                1int
            } else {
                0int
            }) + (if self.Ta_active {
                1int
            } else {
                0int
            }),
    {
        let mut result: usize = product_count * 2;
        if self.TVR_active {
            result += 1;
        }
        if self.Ta_active {
            result += 1;
        }
        result
    }

    /// Positions of the two multipliers in the KKT vector: the slot of the
    /// volume-constraint multiplier, then of the ad-budget one; `None` for a
    /// constraint the attempt leaves inactive.
    pub fn lambda_positions(&self, product_count: usize) -> (r: (Option<usize>, Option<usize>))
        requires
            product_count <= (usize::MAX - 2) / 2,
        ensures
            r.0 == (if self.TVR_active {
                Some((2 * product_count) as usize)
            } else {
                None::<usize>
            }),
            r.1 == (if self.Ta_active {
                Some((2 * product_count + (if self.TVR_active {
                    1int
                } else {
                    0int
                })) as usize)
            } else {
                None::<usize>
            }),
    {
        let base = product_count * 2;
        let tvr = if self.TVR_active {
            Some(base)
        } else {
            None
        };
        let ta = if self.Ta_active {
            if self.TVR_active {
                Some(base + 1)
            } else {
                Some(base)
            }
        } else {
            None
        };
        (tvr, ta)
    }

    /// Dual feasibility of a solved KKT system: every multiplier that the
    /// attempt declared active must have come out non-negative.
    pub fn multipliers_admissible(&self, TVR_nonnegative: bool, Ta_nonnegative: bool) -> (ok: bool)
        ensures
            ok == ((self.TVR_active ==> TVR_nonnegative) && (self.Ta_active ==> Ta_nonnegative)),
    {
        if self.TVR_active && !TVR_nonnegative {
            return false;
        }
        if self.Ta_active && !Ta_nonnegative {
            return false;
        }
        true
    }
}

/// The four active-set patterns a follower solve attempts, in the order they
/// are tried: no constraint, the volume constraint alone, the ad budget
/// alone, then both.
pub fn active_set_schedule() -> (r: Vec<RRGameConstraints>)
    ensures
        r@.len() == 4,
        r@[0] == (RRGameConstraints { TVR_active: false, Ta_active: false }),
        r@[1] == (RRGameConstraints { TVR_active: true, Ta_active: false }),
        r@[2] == (RRGameConstraints { TVR_active: false, Ta_active: true }),
        r@[3] == (RRGameConstraints { TVR_active: true, Ta_active: true }),
{
    let mut r: Vec<RRGameConstraints> = Vec::new();
    r.push(RRGameConstraints { TVR_active: false, Ta_active: false });
    r.push(RRGameConstraints { TVR_active: true, Ta_active: false });
    r.push(RRGameConstraints { TVR_active: false, Ta_active: true });
    r.push(RRGameConstraints { TVR_active: true, Ta_active: true });
    r
}

} // verus!
