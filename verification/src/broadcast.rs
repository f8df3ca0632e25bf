use crate::error::MatmulError;
use vstd::prelude::*;

verus! {

/// The broadcasting decision for one batched multiplication: the output
/// batch size, and whether each side replicates its single batch slice.
#[derive(Clone, Copy, Debug, PartialEq, Eq, Structural)]
pub struct BroadcastPlan {
    pub effective_batch: usize,
    pub lhs_broadcasts: bool,
    pub rhs_broadcasts: bool,
}

/// The restricted broadcasting rule: the two collapsed batch sizes agree, or
/// the side that differs from the larger one is exactly 1.
pub open spec fn broadcast_ok(b1: int, b2: int) -> bool {
    b1 == b2 || b1 == 1 || b2 == 1
}

/// The effective output batch size: the larger of the two.
pub open spec fn effective_batch(b1: int, b2: int) -> int {
    if b1 > b2 {
        b1
    } else {
        b2
    }
}

/// Derives the broadcast plan for two collapsed batch sizes, or reports the
/// pair as unsupported. A side broadcasts exactly when its batch size is 1
/// while the effective batch size is larger.
pub fn resolve_broadcast(lhs_batch: usize, rhs_batch: usize) -> (r: Result<
    BroadcastPlan,
    MatmulError,
>)
    requires
        lhs_batch >= 1,
        rhs_batch >= 1,
    ensures
        r is Ok <==> broadcast_ok(lhs_batch as int, rhs_batch as int),
        !broadcast_ok(lhs_batch as int, rhs_batch as int) ==> r == Err::<
            BroadcastPlan,
            MatmulError,
        >(MatmulError::UnsupportedBroadcast { lhs_batch, rhs_batch }),
        r is Ok ==> {
            let plan = r->Ok_0;
            &&& plan.effective_batch as int == effective_batch(lhs_batch as int, rhs_batch as int)
            &&& plan.lhs_broadcasts <==> (lhs_batch == 1 && plan.effective_batch > 1)
            &&& plan.rhs_broadcasts <==> (rhs_batch == 1 && plan.effective_batch > 1)
        },
{
    let max_batch = if lhs_batch > rhs_batch {
        lhs_batch
    } else {
        rhs_batch
    };
    if lhs_batch < max_batch && lhs_batch != 1 {
        return Err(MatmulError::UnsupportedBroadcast { lhs_batch, rhs_batch });
    }
    if rhs_batch < max_batch && rhs_batch != 1 {
        return Err(MatmulError::UnsupportedBroadcast { lhs_batch, rhs_batch });
    }
    Ok(
        BroadcastPlan {
            effective_batch: max_batch,
            lhs_broadcasts: lhs_batch == 1 && max_batch > 1,
            rhs_broadcasts: rhs_batch == 1 && max_batch > 1,
        },
    )
}

} // verus!
