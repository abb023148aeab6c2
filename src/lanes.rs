use vstd::prelude::*;

verus! {

/// Width of a lane batch.
pub const LANES: usize = 4;

/// Number of fillers that bring `n` items up to a multiple of the lane width.
pub open spec fn padding(n: int) -> int {
    if n % 4 == 0 { 0 } else { 4 - n % 4 }
}

/// `items` followed by as many copies of `filler` as make its length a
/// multiple of the lane width.
pub open spec fn padded<T>(items: Seq<T>, filler: T) -> Seq<T> {
    items + Seq::new(padding(items.len() as int) as nat, |_i: int| filler)
}

/// The items of `batches`, batch after batch, lane after lane.
pub open spec fn flatten_lanes<T>(batches: Seq<[T; 4]>) -> Seq<T> {
    Seq::new(4 * batches.len(), |k: int| batches[k / 4]@[k % 4])
}

/// Groups `items` into batches of four in order, filling the last batch with
/// `filler`, which marks an empty lane.
pub fn pack_lanes<T: Copy>(items: &Vec<T>, filler: T) -> (r: Vec<[T; 4]>)
    ensures
        flatten_lanes(r@) == padded(items@, filler),
        r.len() == (items.len() + padding(items.len() as int)) / 4,
{
    let ghost full = padded(items@, filler);
    let n = items.len();
    let mut batches: Vec<[T; 4]> = Vec::new();
    let mut i: usize = 0;
    while i < n
        invariant
            n == items.len(),
            full == padded(items@, filler),
            i <= n,
            i % 4 == 0 || i == n,
            batches.len() == (i + padding(i as int)) / 4,
            i == n ==> (i + padding(i as int)) == n + padding(n as int),
            forall|k: int| 0 <= k < 4 * batches.len() ==> #[trigger] flatten_lanes(batches@)[k] == full[k],
        decreases n - i,
    {
        let rest = n - i;
        let a = items[i];
        let b = if rest > 1 { items[i + 1] } else { filler };
        let c = if rest > 2 { items[i + 2] } else { filler };
        let d = if rest > 3 { items[i + 3] } else { filler };
        let ghost before = batches@;
        batches.push([a, b, c, d]);
        proof {
            assert forall|k: int| 0 <= k < 4 * batches.len() implies #[trigger] flatten_lanes(batches@)[k] == full[k] by {
                if k < 4 * before.len() {
                    assert(flatten_lanes(before)[k] == full[k]);
                    assert(batches@[k / 4] == before[k / 4]);
                } else {
                    assert(k / 4 == before.len());
                }
            }
        }
        i = if rest > 4 { i + 4 } else { n };
    }
    assert(flatten_lanes(batches@) =~= full);
    batches
}

} // verus!
