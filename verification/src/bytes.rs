//! Numbers and zero-ended names in byte strings.

use vstd::prelude::*;

verus! {

/// The number in the four bytes at `at`.
pub open spec fn word(b: Seq<u8>, at: int) -> int {
    b[at] + 256 * b[at + 1] + 65536 * b[at + 2] + 16777216 * b[at + 3]
}

pub fn word_at(b: &[u8], at: usize) -> (r: u32)
    requires
        at + 4 <= b.len(),
    ensures
        r == word(b@, at as int),
{
    (b[at] as u32) + 256 * (b[at + 1] as u32) + 65536 * (b[at + 2] as u32) + 16777216 * (b[at
        + 3] as u32)
}

/// The number in the eight bytes at `at`.
pub open spec fn wide(b: Seq<u8>, at: int) -> int {
    word(b, at) + 4294967296 * word(b, at + 4)
}

pub fn wide_at(b: &[u8], at: usize) -> (r: u64)
    requires
        at + 8 <= b.len(),
    ensures
        r == wide(b@, at as int),
{
    (word_at(b, at) as u64) + 4294967296 * (word_at(b, at + 4) as u64)
}

/// The bytes before the first zero.
pub open spec fn until_zero(b: Seq<u8>) -> Seq<u8>
    decreases b.len(),
{
    if b.len() == 0 || b[0] == 0 {
        Seq::empty()
    } else {
        seq![b[0]] + until_zero(b.skip(1))
    }
}

/// The bytes from `from` to the first zero, or to `to` where there is none.
pub fn take_until_zero(b: &[u8], from: usize, to: usize) -> (r: Vec<u8>)
    requires
        from <= to <= b.len(),
    ensures
        r@ == until_zero(b@.subrange(from as int, to as int)),
{
    let ghost all = b@.subrange(from as int, to as int);
    let mut out: Vec<u8> = Vec::new();
    let mut i: usize = from;
    assert(all.skip(0) =~= all);
    assert(out@ + until_zero(all) =~= until_zero(all));
    while i < to && b[i] != 0
        invariant
            from <= i <= to <= b.len(),
            all == b@.subrange(from as int, to as int),
            until_zero(all) == out@ + until_zero(all.skip(i - from)),
        decreases to - i,
    {
        let ghost k = i - from;
        let ghost done = out@;
        out.push(b[i]);
        proof {
            assert(all.skip(k)[0] == b@[i as int]);
            assert(all.skip(k).skip(1) =~= all.skip(k + 1));
            assert(done + (seq![b@[i as int]] + until_zero(all.skip(k + 1))) =~= out@ + until_zero(
                all.skip(k + 1),
            ));
        }
        i = i + 1;
    }
    proof {
        let rest = all.skip(i - from);
        assert(rest.len() == 0 || rest[0] == 0);
        assert(out@ + until_zero(rest) =~= out@);
    }
    out
}

} // verus!
