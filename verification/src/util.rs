//! Small verified helpers shared by the codec modules: big-endian integer
//! reads, byte-range copies, and decimal rendering of integers.

use vstd::prelude::*;

verus! {

/// The big-endian unsigned integer held by a byte sequence.
pub open spec fn spec_be_uint(data: Seq<u8>) -> nat
    decreases data.len(),
{
    if data.len() == 0 {
        0
    } else {
        spec_be_uint(data.drop_last()) * 256 + data.last() as nat
    }
}

/// An upper bound for `spec_be_uint`: `n` bytes hold less than `256^n`.
pub proof fn lemma_be_uint_bound(data: Seq<u8>)
    ensures
        spec_be_uint(data) < pow256(data.len()),
    decreases data.len(),
{
    if data.len() == 0 {
    } else {
        lemma_be_uint_bound(data.drop_last());
    }
}

/// `256^n`, used to bound big-endian reads.
pub open spec fn pow256(n: nat) -> nat
    decreases n,
{
    if n == 0 {
        1
    } else {
        256 * pow256((n - 1) as nat)
    }
}

/// The `size`-byte big-endian encoding of `n`, truncated to its low
/// `8 * size` bits.
pub open spec fn spec_be_bytes(n: nat, size: nat) -> Seq<u8>
    decreases size,
{
    if size == 0 {
        Seq::empty()
    } else {
        spec_be_bytes(n / 256, (size - 1) as nat) + seq![(n % 256) as u8]
    }
}

/// A `size`-byte encoding is `size` bytes long.
pub proof fn lemma_be_bytes_len(n: nat, size: nat)
    ensures
        spec_be_bytes(n, size).len() == size,
    decreases size,
{
    if size > 0 {
        lemma_be_bytes_len(n / 256, (size - 1) as nat);
    }
}

/// Reading back a big-endian encoding recovers the encoded value whenever
/// it fits in `size` bytes.
pub proof fn lemma_be_uint_of_be_bytes(n: nat, size: nat)
    requires
        n < pow256(size),
    ensures
        spec_be_uint(spec_be_bytes(n, size)) == n,
    decreases size,
{
    if size == 0 {
    } else {
        assert(n / 256 < pow256((size - 1) as nat)) by (nonlinear_arith)
            requires
                n < 256 * pow256((size - 1) as nat),
        ;
        lemma_be_uint_of_be_bytes(n / 256, (size - 1) as nat);
        assert(spec_be_bytes(n, size).drop_last() =~= spec_be_bytes(n / 256, (size - 1) as nat));
    }
}

/// Reads the big-endian integer held by `data[start..start + count]`.
/// With at most four bytes the result fits in a `u32` and far below
/// `u64::MAX`, so plain shifts cannot overflow.
pub fn read_be_uint(data: &[u8], start: usize, count: usize) -> (r: u64)
    requires
        count <= 4,
        start + count <= data@.len(),
    ensures
        r == spec_be_uint(data@.subrange(start as int, start as int + count as int)),
{
    let n: usize = data.len();
    let mut i: usize = 0;
    let mut acc: u64 = 0;
    proof {
        assert(data@.subrange(start as int, start as int) =~= Seq::<u8>::empty());
    }
    while i < count
        invariant
            i <= count,
            count <= 4,
            start + count <= n == data@.len(),
            acc == spec_be_uint(data@.subrange(start as int, start as int + i as int)),
            acc < pow256(i as nat),
        decreases count - i,
    {
        proof {
            assert(data@.subrange(start as int, start as int + (i + 1) as int).drop_last()
                =~= data@.subrange(start as int, start as int + i as int));
            reveal_with_fuel(pow256, 5);
            assert(pow256((i + 1) as nat) == 256 * pow256(i as nat));
        }
        acc = acc * 256 + data[start + i] as u64;
        i = i + 1;
    }
    acc
}

/// Copies `v[start..end]` into a fresh vector.
pub fn copy_range(v: &[u8], start: usize, end: usize) -> (r: Vec<u8>)
    requires
        start <= end <= v@.len(),
    ensures
        r@ == v@.subrange(start as int, end as int),
{
    let mut out: Vec<u8> = Vec::new();
    let mut i: usize = start;
    proof {
        assert(v@.subrange(start as int, start as int) =~= Seq::<u8>::empty());
    }
    while i < end
        invariant
            start <= i <= end <= v@.len(),
            out@ == v@.subrange(start as int, i as int),
        decreases end - i,
    {
        out.push(v[i]);
        proof {
            assert(v@.subrange(start as int, i + 1 as int)
                =~= v@.subrange(start as int, i as int).push(v@[i as int]));
        }
        i = i + 1;
    }
    out
}

/// The decimal digit character for `d < 10`.
pub open spec fn spec_digit_char(d: nat) -> char {
    if d == 0 {
        '0'
    } else if d == 1 {
        '1'
    } else if d == 2 {
        '2'
    } else if d == 3 {
        '3'
    } else if d == 4 {
        '4'
    } else if d == 5 {
        '5'
    } else if d == 6 {
        '6'
    } else if d == 7 {
        '7'
    } else if d == 8 {
        '8'
    } else {
        '9'
    }
}

/// The decimal rendering of `n`, most significant digit first.
pub open spec fn spec_decimal(n: nat) -> Seq<char>
    decreases n,
{
    if n < 10 {
        seq![spec_digit_char(n)]
    } else {
        spec_decimal(n / 10) + seq![spec_digit_char(n % 10)]
    }
}

fn digit_str(d: u64) -> (s: &'static str)
    requires
        d < 10,
    ensures
        s@ == seq![spec_digit_char(d as nat)],
{
    proof {
        reveal_strlit("0");
        reveal_strlit("1");
        reveal_strlit("2");
        reveal_strlit("3");
        reveal_strlit("4");
        reveal_strlit("5");
        reveal_strlit("6");
        reveal_strlit("7");
        reveal_strlit("8");
        reveal_strlit("9");
    }
    if d == 0 {
        "0"
    } else if d == 1 {
        "1"
    } else if d == 2 {
        "2"
    } else if d == 3 {
        "3"
    } else if d == 4 {
        "4"
    } else if d == 5 {
        "5"
    } else if d == 6 {
        "6"
    } else if d == 7 {
        "7"
    } else if d == 8 {
        "8"
    } else {
        "9"
    }
}

/// Appends the decimal rendering of `n` to `out`.
pub fn append_decimal(out: &mut String, n: u64)
    ensures
        final(out)@ == old(out)@ + spec_decimal(n as nat),
    decreases n,
{
    if n < 10 {
        out.append(digit_str(n));
    } else {
        append_decimal(out, n / 10);
        out.append(digit_str(n % 10));
    }
}

/// The decimal rendering of `n` as a fresh string.
pub fn decimal_string(n: u64) -> (s: String)
    ensures
        s@ == spec_decimal(n as nat),
{
    let mut out = String::new();
    append_decimal(&mut out, n);
    out
}

} // verus!
