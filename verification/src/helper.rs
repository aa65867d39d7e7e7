use vstd::prelude::*;

verus! {

/// Returns a copy of `arr` with the element at `index` removed.
pub fn remove_index<T: Copy>(arr: &[T], index: usize) -> (r: Vec<T>)
    requires
        index < arr@.len(),
    ensures
        r@ == arr@.subrange(0, index as int) + arr@.subrange(index as int + 1, arr@.len() as int),
{
    let mut new_vec: Vec<T> = Vec::new();
    let mut i: usize = 0;
    proof {
        assert(new_vec@ =~= arr@.subrange(0, 0));
    }
    while i < arr.len()
        invariant
            i <= arr@.len(),
            index < arr@.len(),
            r_prefix_ok(new_vec@, arr@, i as int, index as int),
        decreases arr@.len() - i,
    {
        if i != index {
            new_vec.push(arr[i]);
        }
        i = i + 1;
        proof {
            if i <= index {
                assert(new_vec@ =~= arr@.subrange(0, i as int));
            } else {
                assert(new_vec@ =~= arr@.subrange(0, index as int) + arr@.subrange(
                    index as int + 1,
                    i as int,
                ));
            }
        }
    }
    proof {
        assert(new_vec@ =~= arr@.subrange(0, index as int) + arr@.subrange(
            index as int + 1,
            arr@.len() as int,
        ));
    }
    new_vec
}

spec fn r_prefix_ok<T>(out: Seq<T>, src: Seq<T>, i: int, index: int) -> bool {
    if i <= index {
        out == src.subrange(0, i)
    } else {
        out == src.subrange(0, index) + src.subrange(index + 1, i)
    }
}

} // verus!
