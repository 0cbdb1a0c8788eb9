//! Small reusable functions on vectors.

use vstd::prelude::*;

verus! {

/// Empties a vector and returns its former content.
pub fn take<T>(v: &mut Vec<T>) -> (r: Vec<T>)
    ensures
        r@ == old(v)@,
        final(v)@ == Seq::<T>::empty(),
{
    let mut r: Vec<T> = Vec::new();
    std::mem::swap(&mut r, v);
    r
}

/// Appends `items` to `dest`, in order.
pub fn push_all(dest: &mut Vec<usize>, items: &Vec<usize>)
    ensures
        final(dest)@ == old(dest)@ + items@,
{
    let mut i: usize = 0;
    let ghost d0 = dest@;
    while i < items.len()
        invariant
            i <= items.len(),
            dest@ == d0 + items@.subrange(0, i as int),
        decreases items.len() - i,
    {
        dest.push(items[i]);
        proof {
            assert(items@.subrange(0, i + 1) =~= items@.subrange(0, i as int).push(items@[i as int]));
        }
        i = i + 1;
    }
    assert(items@.subrange(0, items.len() as int) =~= items@);
}

/// The first components of a sequence of pairs.
pub open spec fn firsts(s: Seq<(usize, usize)>) -> Seq<usize> {
    s.map_values(|p: (usize, usize)| p.0)
}

/// The second components of a sequence of pairs.
pub open spec fn seconds(s: Seq<(usize, usize)>) -> Seq<usize> {
    s.map_values(|p: (usize, usize)| p.1)
}

/// Appends one component of each pair of `items` to `dest`, in order: the
/// second one when `second` holds, the first one otherwise.
pub fn push_all_pairs(dest: &mut Vec<usize>, items: &Vec<(usize, usize)>, second: bool)
    ensures
        !second ==> final(dest)@ == old(dest)@ + firsts(items@),
        second ==> final(dest)@ == old(dest)@ + seconds(items@),
{
    let mut i: usize = 0;
    let ghost d0 = dest@;
    let ghost sel = if second { seconds(items@) } else { firsts(items@) };
    while i < items.len()
        invariant
            i <= items.len(),
            sel == (if second { seconds(items@) } else { firsts(items@) }),
            sel.len() == items@.len(),
            forall|j: int| 0 <= j < items@.len() ==> #[trigger] sel[j] == (if second { items@[j].1 } else { items@[j].0 }),
            dest@ == d0 + sel.subrange(0, i as int),
        decreases items.len() - i,
    {
        let p = items[i];
        if second {
            dest.push(p.1);
        } else {
            dest.push(p.0);
        }
        proof {
            assert(sel.subrange(0, i + 1) =~= sel.subrange(0, i as int).push(sel[i as int]));
        }
        i = i + 1;
    }
    assert(sel.subrange(0, items.len() as int) =~= sel);
}

/// Left circular permutation of three values: `x` takes the value of `y`,
/// `y` the one of `z`, and `z` the one of `x`.
pub fn swap3<T>(x: &mut T, y: &mut T, z: &mut T)
    ensures
        *final(x) == *old(y),
        *final(y) == *old(z),
        *final(z) == *old(x),
{
    std::mem::swap(x, y);
    std::mem::swap(y, z);
}

/// Hint to the processor that the thread is spinning; the sequential
/// runtime never spins, so there is nothing to do.
pub fn cpu_pause() {
}

} // verus!
