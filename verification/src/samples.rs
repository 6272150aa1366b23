//! Moving samples about. A sample is any `Copy` value: nothing here looks
//! inside one.

use vstd::prelude::*;

verus! {

/// The last `n` elements, or all of them when there are fewer.
pub open spec fn last_n<S>(s: Seq<S>, n: int) -> Seq<S> {
    if s.len() <= n {
        s
    } else {
        s.subrange(s.len() - n, s.len() as int)
    }
}

/// Appends a copy of every sample of `tail`.
pub fn extend<S: Copy>(buffer: &mut Vec<S>, tail: &[S])
    ensures
        final(buffer)@ == old(buffer)@ + tail@,
{
    let mut i: usize = 0;
    while i < tail.len()
        invariant
            i <= tail@.len(),
            buffer@ == old(buffer)@ + tail@.subrange(0, i as int),
        decreases tail@.len() - i,
    {
        buffer.push(tail[i]);
        i += 1;
        assert(tail@.subrange(0, i as int) =~= tail@.subrange(0, i - 1).push(tail@[i - 1]));
        assert(buffer@ =~= old(buffer)@ + tail@.subrange(0, i as int));
    }
    assert(tail@.subrange(0, tail@.len() as int) =~= tail@);
}

/// A copy of `s[from..to]`.
pub fn copy_range<S: Copy>(s: &[S], from: usize, to: usize) -> (r: Vec<S>)
    requires
        from <= to <= s@.len(),
    ensures
        r@ == s@.subrange(from as int, to as int),
{
    let mut out: Vec<S> = Vec::with_capacity(to - from);
    let mut i: usize = from;
    while i < to
        invariant
            from <= i <= to <= s@.len(),
            out@ == s@.subrange(from as int, i as int),
        decreases to - i,
    {
        out.push(s[i]);
        i += 1;
        assert(s@.subrange(from as int, i as int) =~= s@.subrange(from as int, i - 1).push(
            s@[i - 1],
        ));
    }
    out
}

/// Takes the first `n` samples out of `buffer`.
pub fn drain_front<S: Copy>(buffer: &mut Vec<S>, n: usize) -> (r: Vec<S>)
    requires
        n <= old(buffer)@.len(),
    ensures
        r@ == old(buffer)@.subrange(0, n as int),
        final(buffer)@ == old(buffer)@.subrange(n as int, old(buffer)@.len() as int),
{
    let mut rest: Vec<S> = buffer.split_off(n);
    std::mem::swap(buffer, &mut rest);
    rest
}

} // verus!
