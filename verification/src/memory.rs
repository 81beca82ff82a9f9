use vstd::prelude::*;

verus! {

/// Sets every word of `mem` to `value`.
pub fn primative_memset(mem: &mut [u32], value: u32)
    ensures
        final(mem)@ == Seq::new(old(mem)@.len(), |i: int| value),
{
    let mut i: usize = 0;
    while i < mem.len()
        invariant
            i <= mem@.len(),
            mem@.len() == old(mem)@.len(),
            forall|k: int| 0 <= k < i ==> mem@[k] == value,
        decreases mem@.len() - i,
    {
        mem[i] = value;
        i = i + 1;
    }
    assert(mem@ =~= Seq::new(old(mem)@.len(), |i: int| value));
}

} // verus!
