//! Little-endian unsigned integers of one to four bytes: what a run of bytes
//! denotes, the run that denotes a number, and the two executable primitives
//! that every fixed-width field of the container goes through.

use vstd::prelude::*;

verus! {

/// The number whose little-endian base-256 digits are `s`.
pub open spec fn le_value(s: Seq<u8>) -> nat
    decreases s.len(),
{
    if s.len() == 0 {
        0
    } else {
        s[0] as nat + 256 * le_value(s.drop_first())
    }
}

/// The `width` low little-endian base-256 digits of `x`.
pub open spec fn le_digits(x: nat, width: nat) -> Seq<u8>
    decreases width,
{
    if width == 0 {
        Seq::empty()
    } else {
        seq![(x % 256) as u8] + le_digits(x / 256, (width - 1) as nat)
    }
}

/// 256 to the power `width`: one more than the largest number of `width` bytes.
pub open spec fn le_limit(width: nat) -> nat
    decreases width,
{
    if width == 0 {
        1
    } else {
        256 * le_limit((width - 1) as nat)
    }
}

/// The field of `width` bytes that starts at `off` in `bytes`, as a number.
pub open spec fn le_field(bytes: Seq<u8>, off: int, width: int) -> nat {
    le_value(bytes.subrange(off, off + width))
}

/// The limits of the widths from zero to four bytes.
pub proof fn lemma_le_limit_values()
    ensures
        le_limit(0) == 1,
        le_limit(1) == 0x100,
        le_limit(2) == 0x1_0000,
        le_limit(3) == 0x100_0000,
        le_limit(4) == 0x1_0000_0000,
{
    reveal_with_fuel(le_limit, 5);
}

/// `le_digits` yields exactly `width` bytes.
pub proof fn lemma_le_digits_len(x: nat, width: nat)
    ensures
        le_digits(x, width).len() == width,
    decreases width,
{
    if width > 0 {
        lemma_le_digits_len(x / 256, (width - 1) as nat);
    }
}

/// A run of bytes denotes a number below `256^len`.
pub proof fn lemma_le_value_bound(s: Seq<u8>)
    ensures
        le_value(s) < le_limit(s.len()),
    decreases s.len(),
{
    if s.len() > 0 {
        lemma_le_value_bound(s.drop_first());
    }
}

/// Decoding the `width` digits of `x` gives `x` back when `x` fits in them.
pub proof fn lemma_le_value_of_digits(x: nat, width: nat)
    requires
        x < le_limit(width),
    ensures
        le_value(le_digits(x, width)) == x,
    decreases width,
{
    if width > 0 {
        let rest = le_digits(x / 256, (width - 1) as nat);
        let all = le_digits(x, width);
        lemma_le_value_of_digits(x / 256, (width - 1) as nat);
        assert(all.drop_first() =~= rest);
        assert(all[0] == (x % 256) as u8);
    }
}

/// Reads the little-endian unsigned integer of `width` bytes at `off`.
pub fn read_le(bytes: &[u8], off: usize, width: usize) -> (v: u32)
    requires
        width <= 4,
        off + width <= bytes@.len(),
    ensures
        v as nat == le_field(bytes@, off as int, width as int),
        (v as nat) < le_limit(width as nat),
{
    let n: usize = bytes.len();
    let mut v: u32 = 0;
    let mut i: usize = width;
    proof {
        assert(bytes@.subrange(off + width, off + width) =~= Seq::<u8>::empty());
    }
    while i > 0
        invariant
            i <= width <= 4,
            off + width <= n,
            n == bytes@.len(),
            v as nat == le_value(bytes@.subrange(off + i, off + width)),
        decreases i,
    {
        i = i - 1;
        let b: u8 = bytes[off + i];
        proof {
            let hi = bytes@.subrange(off + i + 1, off + width);
            let cur = bytes@.subrange(off + i, off + width);
            assert(cur.drop_first() =~= hi);
            assert(cur[0] == b);
            lemma_le_value_bound(hi);
            lemma_le_value_bound(cur);
            lemma_le_limit_values();
        }
        v = v * 256 + b as u32;
    }
    proof {
        lemma_le_value_bound(bytes@.subrange(off as int, off + width));
    }
    v
}

/// Appends the `width` low little-endian bytes of `value` to `out`.
pub fn push_le(out: &mut Vec<u8>, value: u32, width: usize)
    requires
        width <= 4,
    ensures
        final(out)@ == old(out)@ + le_digits(value as nat, width as nat),
{
    let mut rest: u32 = value;
    let mut i: usize = 0;
    let ghost done: Seq<u8> = Seq::empty();
    proof {
        assert(out@ =~= old(out)@ + done);
    }
    while i < width
        invariant
            i <= width <= 4,
            out@ == old(out)@ + done,
            done.len() == i,
            done + le_digits(rest as nat, (width - i) as nat) == le_digits(
                value as nat,
                width as nat,
            ),
        decreases width - i,
    {
        let b: u8 = (rest % 256) as u8;
        out.push(b);
        proof {
            let tail = le_digits((rest / 256) as nat, (width - i - 1) as nat);
            assert(le_digits(rest as nat, (width - i) as nat) =~= seq![b] + tail);
            assert(done.push(b) + tail =~= done + (seq![b] + tail));
            assert(out@ =~= old(out)@ + done.push(b));
            done = done.push(b);
        }
        rest = rest / 256;
        i = i + 1;
    }
    proof {
        assert(le_digits(rest as nat, 0) =~= Seq::<u8>::empty());
        assert(done + Seq::<u8>::empty() =~= done);
    }
}

} // verus!
