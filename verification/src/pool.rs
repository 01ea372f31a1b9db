//! Construction-time validation for a pool of node generators: the
//! node-id assignment handed to a deployment must lie inside the
//! configured range and hold no id twice, else the deployment must not
//! enter service.

use vstd::prelude::*;

use crate::snowflake::{NodeId, NodeIdError, MAX_NODE_ID};

verus! {

/// Turns a proposed node-id assignment into validated identities.
/// Accepts exactly the assignments whose every id is inside the
/// 10-bit range and pairwise distinct; the validated ids come back in
/// the given order.
pub fn validate_node_ids(ids: &Vec<u16>) -> (r: Result<Vec<NodeId>, NodeIdError>)
    ensures
        r matches Ok(v) ==> {
            &&& v@.len() == ids@.len()
            &&& forall|i: int| 0 <= i < v@.len() ==> (#[trigger] v@[i].val()) == ids@[i]
        },
        r is Ok <==> {
            &&& forall|i: int| 0 <= i < ids@.len() ==> (#[trigger] ids@[i]) < MAX_NODE_ID
            &&& forall|i: int, j: int| 0 <= i < j < ids@.len() ==> ids@[i] != ids@[j]
        },
{
    let mut out: Vec<NodeId> = Vec::new();
    let mut k: usize = 0;
    while k < ids.len()
        invariant
            0 <= k <= ids@.len(),
            out@.len() == k,
            forall|i: int| 0 <= i < k ==> (#[trigger] out@[i].val()) == ids@[i],
            forall|i: int| 0 <= i < k ==> (#[trigger] ids@[i]) < MAX_NODE_ID,
            forall|i: int, j: int| 0 <= i < j < k ==> ids@[i] != ids@[j],
        decreases ids@.len() - k,
    {
        let mut m: usize = 0;
        while m < k
            invariant
                0 <= m <= k < ids@.len(),
                forall|i: int| 0 <= i < m ==> ids@[i] != ids@[k as int],
            decreases k - m,
        {
            if ids[m] == ids[k] {
                return Err(NodeIdError);
            }
            m += 1;
        }
        match NodeId::new(ids[k]) {
            Ok(id) => out.push(id),
            Err(e) => {
                return Err(e);
            }
        }
        k += 1;
    }
    Ok(out)
}

} // verus!
