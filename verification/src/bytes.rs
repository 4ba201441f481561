//! Work on buffers that the encoders share.

use vstd::prelude::*;

verus! {

/// Append `tail` to `sink`.
pub fn extend<T: Copy>(sink: &mut Vec<T>, tail: &[T])
    ensures
        final(sink)@ == old(sink)@ + tail@,
{
    let mut i: usize = 0;
    while i < tail.len()
        invariant
            i <= tail@.len(),
            sink@ == old(sink)@ + tail@.subrange(0, i as int),
        decreases tail@.len() - i,
    {
        sink.push(tail[i]);
        i += 1;
        assert(sink@ =~= old(sink)@ + tail@.subrange(0, i as int));
    }
    assert(tail@.subrange(0, tail@.len() as int) =~= tail@);
}

/// Reverse the part of `sink` that starts at `start`, in place.
pub fn reverse_from(sink: &mut Vec<u8>, start: usize)
    requires
        start <= old(sink)@.len(),
    ensures
        final(sink)@ == old(sink)@.subrange(0, start as int) + old(sink)@.subrange(
            start as int,
            old(sink)@.len() as int,
        ).reverse(),
{
    let n = sink.len();
    let mut lo: usize = start;
    let mut hi: usize = n;
    while hi - lo > 1
        invariant
            start <= lo <= hi <= n,
            lo - start == n - hi,
            sink@.len() == n,
            n == old(sink)@.len(),
            forall|i: int| 0 <= i < start ==> sink@[i] == old(sink)@[i],
            forall|i: int| lo <= i < hi ==> sink@[i] == old(sink)@[i],
            forall|i: int|
                (start <= i < lo || hi <= i < n) ==> sink@[i] == old(sink)@[start + n - 1 - i],
        decreases hi - lo,
    {
        let a = sink[lo];
        let b = sink[hi - 1];
        sink[lo] = b;
        sink[hi - 1] = a;
        lo += 1;
        hi -= 1;
    }
    assert(sink@ =~= old(sink)@.subrange(0, start as int) + old(sink)@.subrange(
        start as int,
        n as int,
    ).reverse());
}

/// Reversing twice gives the sequence back.
pub proof fn lemma_reverse_twice(s: Seq<u8>)
    ensures
        s.reverse().reverse() == s,
{
    assert(s.reverse().reverse() =~= s);
}

/// The reverse of two sequences, one after the other, is the reverse of the second and then
/// that of the first.
pub proof fn lemma_reverse_concat(a: Seq<u8>, b: Seq<u8>)
    ensures
        (a + b).reverse() == b.reverse() + a.reverse(),
{
    assert((a + b).reverse() =~= b.reverse() + a.reverse());
}

/// The list of one item.
pub fn list1<T>(a: T) -> (v: Vec<T>)
    ensures
        v@ == seq![a],
{
    let mut v = Vec::new();
    v.push(a);
    v
}

/// The list of two items.
pub fn list2<T>(a: T, b: T) -> (v: Vec<T>)
    ensures
        v@ == seq![a, b],
{
    let mut v = Vec::new();
    v.push(a);
    v.push(b);
    v
}

/// The list of three items.
pub fn list3<T>(a: T, b: T, c: T) -> (v: Vec<T>)
    ensures
        v@ == seq![a, b, c],
{
    let mut v = Vec::new();
    v.push(a);
    v.push(b);
    v.push(c);
    v
}

/// The list of four items.
pub fn list4<T>(a: T, b: T, c: T, d: T) -> (v: Vec<T>)
    ensures
        v@ == seq![a, b, c, d],
{
    let mut v = Vec::new();
    v.push(a);
    v.push(b);
    v.push(c);
    v.push(d);
    v
}

/// The list of six items.
pub fn list6<T>(a: T, b: T, c: T, d: T, e: T, f: T) -> (v: Vec<T>)
    ensures
        v@ == seq![a, b, c, d, e, f],
{
    let mut v = Vec::new();
    v.push(a);
    v.push(b);
    v.push(c);
    v.push(d);
    v.push(e);
    v.push(f);
    v
}

/// The list of eight items.
pub fn list8<T>(a: T, b: T, c: T, d: T, e: T, f: T, g: T, h: T) -> (v: Vec<T>)
    ensures
        v@ == seq![a, b, c, d, e, f, g, h],
{
    let mut v = Vec::new();
    v.push(a);
    v.push(b);
    v.push(c);
    v.push(d);
    v.push(e);
    v.push(f);
    v.push(g);
    v.push(h);
    v
}

} // verus!
