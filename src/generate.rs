//! Initial node layout drawn at random.
use vstd::prelude::*;
use rand::Rng;
use crate::rg_rect::RgRect;
use crate::viewport::ZOOM_UNIT;

verus! {

/// Relies on rand's `thread_rng().gen_range(low..high)`: a value drawn
/// uniformly from `[low, high)`. It panics on an empty range, which
/// `requires` rules out.
#[verifier::external_body]
fn random_in(low: i64, high: i64) -> (r: i64)
    requires
        low < high,
    ensures
        low <= r < high,
{
    rand::thread_rng().gen_range(low..high)
}

/// `n` fresh nodes with ids `0..n`, each at a random position in
/// `[50, 700) x [50, 500)` with a random size in `[80, 200) x [60, 150)`.
pub fn generate_nodes(n: usize) -> (r: Vec<RgRect>)
    ensures
        r@.len() == n,
        forall|i: int|
            #![trigger r@[i]]
            0 <= i < n ==> {
                let node = r@[i];
                &&& node.wf() && node.idle()
                &&& node.id == i
                &&& 50 <= node.x < 700 && 50 <= node.y < 500
                &&& 80 <= node.width < 200 && 60 <= node.height < 150
                &&& !node.selected && node.show_handles
                &&& node.zoom == ZOOM_UNIT && node.pan == (0i64, 0i64)
            },
{
    let mut nodes: Vec<RgRect> = Vec::new();
    let mut i: usize = 0;
    while i < n
        invariant
            0 <= i <= n,
            nodes@.len() == i,
            forall|j: int|
                #![trigger nodes@[j]]
                0 <= j < i ==> {
                    let node = nodes@[j];
                    &&& node.wf() && node.idle()
                    &&& node.id == j
                    &&& 50 <= node.x < 700 && 50 <= node.y < 500
                    &&& 80 <= node.width < 200 && 60 <= node.height < 150
                    &&& !node.selected && node.show_handles
                    &&& node.zoom == ZOOM_UNIT && node.pan == (0i64, 0i64)
                },
        decreases n - i,
    {
        let x = random_in(50, 700);
        let y = random_in(50, 500);
        let width = random_in(80, 200);
        let height = random_in(60, 150);
        nodes.push(RgRect::new(i as u64, x, y, width, height));
        i += 1;
    }
    nodes
}

} // verus!
