//! The primitive layer of the wire format: little-endian integers, compact
//! integers and length-prefixed byte strings.
//!
//! Every encoder has a specification that gives the bytes it appends, every
//! decoder one that gives the value and the position behind it, and a lemma
//! shows that decoding what was encoded gives the value back.

use vstd::prelude::*;

verus! {

/// 256 to the power `n`.
pub open spec fn pow256(n: nat) -> nat
    decreases n,
{
    if n == 0 {
        1
    } else {
        256 * pow256((n - 1) as nat)
    }
}

/// The low `n` bytes of `v`, least significant first.
pub open spec fn le_bytes(v: nat, n: nat) -> Seq<u8>
    decreases n,
{
    if n == 0 {
        Seq::empty()
    } else {
        seq![(v % 256) as u8] + le_bytes(v / 256, (n - 1) as nat)
    }
}

/// The number spelled by the `n` bytes of `s` from `at`, least significant first.
pub open spec fn le_value(s: Seq<u8>, at: int, n: nat) -> nat
    decreases n,
{
    if n == 0 {
        0
    } else {
        s[at] as nat + 256 * le_value(s, at + 1, (n - 1) as nat)
    }
}

/// The number of bytes that `v` needs: the least `n >= 1` with `v < 256^n`.
pub open spec fn byte_width(v: nat) -> nat
    decreases v,
{
    if v < 256 {
        1
    } else {
        1 + byte_width(v / 256)
    }
}

/// `e` stands in `s` from position `at` on.
pub open spec fn holds_at(s: Seq<u8>, at: int, e: Seq<u8>) -> bool {
    &&& 0 <= at
    &&& at + e.len() <= s.len()
    &&& s.subrange(at, at + e.len()) == e
}

/// A fixed-width little-endian integer of `n` bytes at `at`.
pub open spec fn decode_le(s: Seq<u8>, at: int, n: nat) -> Option<(nat, int)> {
    if 0 <= at && at + n <= s.len() {
        Some((le_value(s, at, n), at + n))
    } else {
        None
    }
}

/// `n` raw bytes at `at`.
pub open spec fn decode_fixed(s: Seq<u8>, at: int, n: nat) -> Option<(Seq<u8>, int)> {
    if 0 <= at && at + n <= s.len() {
        Some((s.subrange(at, at + n), at + n))
    } else {
        None
    }
}

/// The compact form of `v`: one, two or four bytes with the mode in the two
/// low bits for values under 2^30, else a byte that gives the length and the
/// value's own bytes.
pub open spec fn encode_compact(v: nat) -> Seq<u8> {
    if v < 64 {
        le_bytes(4 * v, 1)
    } else if v < 16384 {
        le_bytes(4 * v + 1, 2)
    } else if v < 0x4000_0000 {
        le_bytes(4 * v + 2, 4)
    } else {
        seq![(3 + 4 * (byte_width(v) - 4)) as u8] + le_bytes(v, byte_width(v))
    }
}

/// A compact integer of at most `width` bytes at `at`. Only the shortest form
/// of a value is accepted.
pub open spec fn decode_compact(s: Seq<u8>, at: int, width: nat) -> Option<(nat, int)> {
    if at < 0 || at >= s.len() {
        None
    } else {
        let mode = s[at] % 4;
        if mode == 0 {
            Some(((s[at] / 4) as nat, at + 1))
        } else if mode == 1 {
            if at + 2 <= s.len() && le_value(s, at, 2) / 4 >= 64 {
                Some((le_value(s, at, 2) / 4, at + 2))
            } else {
                None
            }
        } else if mode == 2 {
            if at + 4 <= s.len() && le_value(s, at, 4) / 4 >= 16384 {
                Some((le_value(s, at, 4) / 4, at + 4))
            } else {
                None
            }
        } else {
            let n = (s[at] / 4 + 4) as nat;
            if n <= width && at + 1 + n <= s.len() && le_value(s, at + 1, n) >= 0x4000_0000
                && le_value(s, at + 1, n) >= pow256((n - 1) as nat) {
                Some((le_value(s, at + 1, n), at + 1 + n))
            } else {
                None
            }
        }
    }
}

/// A byte string: its length in compact form, then the bytes.
pub open spec fn encode_bytes(b: Seq<u8>) -> Seq<u8> {
    encode_compact(b.len()) + b
}

/// A length-prefixed byte string at `at`.
pub open spec fn decode_bytes(s: Seq<u8>, at: int) -> Option<(Seq<u8>, int)> {
    match decode_compact(s, at, 4) {
        Some((len, p)) => decode_fixed(s, p, len),
        None => None,
    }
}

/// The first powers of 256.
pub proof fn lemma_pow256_values()
    ensures
        pow256(0) == 1,
        pow256(1) == 0x100,
        pow256(2) == 0x1_0000,
        pow256(3) == 0x100_0000,
        pow256(4) == 0x1_0000_0000,
        pow256(8) == 0x1_0000_0000_0000_0000,
        pow256(15) == 0x100_0000_0000_0000_0000_0000_0000_0000,
        pow256(16) == 0x1_0000_0000_0000_0000_0000_0000_0000_0000,
{
    reveal_with_fuel(pow256, 17);
}

/// Powers of 256 grow with the exponent.
pub proof fn lemma_pow256_monotonic(a: nat, b: nat)
    requires
        a <= b,
    ensures
        1 <= pow256(a) <= pow256(b),
    decreases b,
{
    if b == 0 {
    } else if a == b {
        lemma_pow256_monotonic((a - 1) as nat, (b - 1) as nat);
    } else {
        lemma_pow256_monotonic(a, (b - 1) as nat);
    }
}

/// `byte_width` is the least sufficient number of bytes.
pub proof fn lemma_byte_width(v: nat)
    ensures
        byte_width(v) >= 1,
        v < pow256(byte_width(v)),
        v >= 256 ==> v >= pow256((byte_width(v) - 1) as nat),
    decreases v,
{
    reveal_with_fuel(pow256, 2);
    if v >= 256 {
        lemma_byte_width(v / 256);
    }
}

/// A value under `256^n` has a width of at most `n`.
pub proof fn lemma_byte_width_bound(v: nat, n: nat)
    requires
        n >= 1,
        v < pow256(n),
    ensures
        byte_width(v) <= n,
    decreases n,
{
    reveal_with_fuel(pow256, 2);
    if v >= 256 {
        if n == 1 {
            assert(false);
        } else {
            lemma_byte_width_bound(v / 256, (n - 1) as nat);
        }
    }
}

/// `le_bytes` gives `n` bytes.
pub proof fn lemma_le_bytes_len(v: nat, n: nat)
    ensures
        le_bytes(v, n).len() == n,
    decreases n,
{
    if n > 0 {
        lemma_le_bytes_len(v / 256, (n - 1) as nat);
    }
}

/// The value of `n` bytes is under `256^n`.
pub proof fn lemma_le_value_bound(s: Seq<u8>, at: int, n: nat)
    ensures
        le_value(s, at, n) < pow256(n),
    decreases n,
{
    if n > 0 {
        lemma_le_value_bound(s, at + 1, (n - 1) as nat);
    }
}

/// Reading the bytes of `v` where they stand gives `v` back.
pub proof fn lemma_le_roundtrip(s: Seq<u8>, at: int, v: nat, n: nat)
    requires
        holds_at(s, at, le_bytes(v, n)),
        v < pow256(n),
    ensures
        le_value(s, at, n) == v,
    decreases n,
{
    lemma_le_bytes_len(v, n);
    if n > 0 {
        let e = le_bytes(v, n);
        let rest = le_bytes(v / 256, (n - 1) as nat);
        lemma_le_bytes_len(v / 256, (n - 1) as nat);
        assert(s[at] == s.subrange(at, at + n)[0]);
        assert(e[0] == (v % 256) as u8);
        assert(s.subrange(at + 1, at + n) =~= rest) by {
            assert forall|i: int| 0 <= i < n - 1 implies s.subrange(at + 1, at + n)[i] == rest[i] by {
                assert(s.subrange(at, at + n)[i + 1] == e[i + 1]);
            }
        }
        lemma_le_roundtrip(s, at + 1, v / 256, (n - 1) as nat);
    }
}

/// What stands at the start of a concatenation stands there, and what follows
/// stands behind it.
pub proof fn lemma_holds_at_split(s: Seq<u8>, at: int, a: Seq<u8>, b: Seq<u8>)
    requires
        holds_at(s, at, a + b),
    ensures
        holds_at(s, at, a),
        holds_at(s, at + a.len(), b),
{
    let whole = s.subrange(at, at + (a + b).len());
    assert(s.subrange(at, at + a.len()) =~= a) by {
        assert forall|i: int| 0 <= i < a.len() implies s.subrange(at, at + a.len())[i] == a[i] by {
            assert(whole[i] == (a + b)[i]);
        }
    }
    assert(s.subrange(at + a.len(), at + a.len() + b.len()) =~= b) by {
        assert forall|i: int| 0 <= i < b.len() implies s.subrange(
            at + a.len(),
            at + a.len() + b.len(),
        )[i] == b[i] by {
            assert(whole[a.len() + i] == (a + b)[a.len() + i]);
        }
    }
}

/// A sequence holds itself from its start.
pub proof fn lemma_holds_at_whole(e: Seq<u8>)
    ensures
        holds_at(e, 0, e),
{
    assert(e.subrange(0, e.len() as int) =~= e);
}

/// Decoding the compact form of `v` gives `v` and the position behind it.
pub proof fn lemma_compact_roundtrip(s: Seq<u8>, at: int, v: nat, width: nat)
    requires
        holds_at(s, at, encode_compact(v)),
        4 <= width <= 16,
        v < pow256(width),
    ensures
        decode_compact(s, at, width) == Some((v, at + encode_compact(v).len())),
{
    lemma_pow256_values();
    lemma_pow256_monotonic(width, 16);
    let e = encode_compact(v);
    if v < 64 {
        lemma_le_bytes_len(4 * v, 1);
        lemma_le_roundtrip(s, at, 4 * v, 1);
        reveal_with_fuel(le_value, 2);
    } else if v < 16384 {
        lemma_le_bytes_len(4 * v + 1, 2);
        lemma_le_roundtrip(s, at, 4 * v + 1, 2);
        reveal_with_fuel(le_value, 3);
    } else if v < 0x4000_0000 {
        lemma_le_bytes_len(4 * v + 2, 4);
        lemma_le_roundtrip(s, at, 4 * v + 2, 4);
        reveal_with_fuel(le_value, 5);
    } else {
        let n = byte_width(v);
        lemma_byte_width(v);
        lemma_byte_width_bound(v, width);
        lemma_le_bytes_len(v, n);
        if n < 4 {
            lemma_pow256_monotonic(n, 3);
        }
        let head = seq![(3 + 4 * (n - 4)) as u8];
        lemma_holds_at_split(s, at, head, le_bytes(v, n));
        assert(s[at] == s.subrange(at, at + 1)[0]);
        assert(s[at] == (3 + 4 * (n - 4)) as u8);
        lemma_le_roundtrip(s, at + 1, v, n);
    }
}

/// Decoding the encoding of a byte string gives the string back.
pub proof fn lemma_bytes_roundtrip(s: Seq<u8>, at: int, b: Seq<u8>)
    requires
        holds_at(s, at, encode_bytes(b)),
        b.len() <= u32::MAX,
    ensures
        decode_bytes(s, at) == Some((b, at + encode_bytes(b).len())),
{
    lemma_pow256_values();
    lemma_holds_at_split(s, at, encode_compact(b.len()), b);
    lemma_compact_roundtrip(s, at, b.len(), 4);
}

/// A decoded compact integer ends behind where it starts, inside the input,
/// and is under `256^width`.
pub proof fn lemma_decode_compact_bounds(s: Seq<u8>, at: int, width: nat)
    requires
        4 <= width,
        decode_compact(s, at, width) is Some,
    ensures
        at < decode_compact(s, at, width).unwrap().1 <= s.len(),
        decode_compact(s, at, width).unwrap().0 < pow256(width),
{
    lemma_pow256_values();
    lemma_pow256_monotonic(4, width);
    let mode = s[at] % 4;
    if mode == 1 {
        lemma_le_value_bound(s, at, 2);
    } else if mode == 2 {
        lemma_le_value_bound(s, at, 4);
    } else if mode == 3 {
        let n = (s[at] / 4 + 4) as nat;
        lemma_le_value_bound(s, at + 1, n);
        lemma_pow256_monotonic(n, width);
    }
}

/// A stretch of the input is its first part followed by the rest.
pub proof fn lemma_subrange_join(s: Seq<u8>, from: int, mid: int, to: int)
    requires
        0 <= from <= mid <= to <= s.len(),
    ensures
        s.subrange(from, to) == s.subrange(from, mid) + s.subrange(mid, to),
{
    assert(s.subrange(from, to) =~= s.subrange(from, mid) + s.subrange(mid, to));
}

/// The bytes read from a place spell the value read from it.
pub proof fn lemma_le_bytes_of_value(s: Seq<u8>, at: int, n: nat)
    requires
        0 <= at,
        at + n <= s.len(),
    ensures
        le_bytes(le_value(s, at, n), n) == s.subrange(at, at + n),
    decreases n,
{
    if n == 0 {
        assert(s.subrange(at, at) =~= Seq::<u8>::empty());
    } else {
        let v = le_value(s, at, n);
        let tail = le_value(s, at + 1, (n - 1) as nat);
        lemma_le_bytes_of_value(s, at + 1, (n - 1) as nat);
        assert(v % 256 == s[at] as nat);
        assert(v / 256 == tail);
        assert(seq![s[at]] + s.subrange(at + 1, at + n) =~= s.subrange(at, at + n));
    }
}

/// A value between `256^(n-1)` and `256^n` needs exactly `n` bytes.
pub proof fn lemma_byte_width_exact(v: nat, n: nat)
    requires
        n >= 1,
        v < pow256(n),
        n == 1 || v >= pow256((n - 1) as nat),
    ensures
        byte_width(v) == n,
    decreases n,
{
    reveal_with_fuel(pow256, 3);
    if n == 1 {
    } else {
        lemma_pow256_monotonic(1, (n - 1) as nat);
        lemma_byte_width_exact(v / 256, (n - 1) as nat);
    }
}

/// What decodes as a compact integer is the compact form of what it decodes
/// to: every value has one wire form.
pub proof fn lemma_compact_canonical(s: Seq<u8>, at: int, width: nat)
    requires
        4 <= width,
        decode_compact(s, at, width) is Some,
    ensures
        s.subrange(at, decode_compact(s, at, width).unwrap().1) == encode_compact(
            decode_compact(s, at, width).unwrap().0,
        ),
{
    lemma_pow256_values();
    let (v, next) = decode_compact(s, at, width).unwrap();
    let mode = s[at] % 4;
    if mode == 0 {
        reveal_with_fuel(le_bytes, 2);
        assert(s.subrange(at, at + 1) =~= seq![s[at]]);
        assert(seq![s[at]] + Seq::<u8>::empty() =~= seq![s[at]]);
    } else if mode == 1 {
        reveal_with_fuel(le_value, 3);
        lemma_le_value_bound(s, at, 2);
        lemma_le_bytes_of_value(s, at, 2);
        assert(le_value(s, at, 2) == 4 * v + 1);
    } else if mode == 2 {
        reveal_with_fuel(le_value, 5);
        lemma_le_value_bound(s, at, 4);
        lemma_le_bytes_of_value(s, at, 4);
        assert(le_value(s, at, 4) == 4 * v + 2);
    } else {
        let n = (s[at] / 4 + 4) as nat;
        lemma_le_value_bound(s, at + 1, n);
        lemma_byte_width_exact(v, n);
        lemma_le_bytes_of_value(s, at + 1, n);
        lemma_subrange_join(s, at, at + 1, next);
        assert(s.subrange(at, at + 1) =~= seq![s[at]]);
        assert(s[at] == (3 + 4 * (n - 4)) as u8);
    }
}

/// What decodes as a byte string is the wire form of that string.
pub proof fn lemma_bytes_canonical(s: Seq<u8>, at: int)
    requires
        decode_bytes(s, at) is Some,
    ensures
        s.subrange(at, decode_bytes(s, at).unwrap().1) == encode_bytes(
            decode_bytes(s, at).unwrap().0,
        ),
{
    lemma_decode_compact_bounds(s, at, 4);
    lemma_compact_canonical(s, at, 4);
    let (len, p) = decode_compact(s, at, 4).unwrap();
    lemma_subrange_join(s, at, p, p + len);
}

/// What decodes as a compact 32-bit integer is its compact form.
pub proof fn lemma_compact_u32_canonical(s: Seq<u8>, at: int)
    requires
        decode_compact_u32(s, at) is Some,
    ensures
        s.subrange(at, decode_compact_u32(s, at).unwrap().1) == encode_compact(
            decode_compact_u32(s, at).unwrap().0 as nat,
        ),
{
    lemma_pow256_values();
    lemma_decode_compact_bounds(s, at, 4);
    lemma_compact_canonical(s, at, 4);
}

/// What decodes as a compact 64-bit integer is its compact form.
pub proof fn lemma_compact_u64_canonical(s: Seq<u8>, at: int)
    requires
        decode_compact_u64(s, at) is Some,
    ensures
        s.subrange(at, decode_compact_u64(s, at).unwrap().1) == encode_compact(
            decode_compact_u64(s, at).unwrap().0 as nat,
        ),
{
    lemma_pow256_values();
    lemma_decode_compact_bounds(s, at, 8);
    lemma_compact_canonical(s, at, 8);
}

/// What decodes as a compact 128-bit integer is its compact form.
pub proof fn lemma_compact_u128_canonical(s: Seq<u8>, at: int)
    requires
        decode_compact_u128(s, at) is Some,
    ensures
        s.subrange(at, decode_compact_u128(s, at).unwrap().1) == encode_compact(
            decode_compact_u128(s, at).unwrap().0 as nat,
        ),
{
    lemma_pow256_values();
    lemma_decode_compact_bounds(s, at, 16);
    lemma_compact_canonical(s, at, 16);
}

/// What decodes as an eight-byte integer is the eight bytes of that integer.
pub proof fn lemma_u64_canonical(s: Seq<u8>, at: int)
    requires
        decode_u64(s, at) is Some,
    ensures
        s.subrange(at, at + 8) == encode_u64(decode_u64(s, at).unwrap().0),
        decode_u64(s, at).unwrap().1 == at + 8,
{
    lemma_pow256_values();
    lemma_le_value_bound(s, at, 8);
    lemma_le_bytes_of_value(s, at, 8);
}

/// Appends the low `n` bytes of `v`, least significant first.
pub fn write_le(out: &mut Vec<u8>, v: u128, n: usize)
    ensures
        final(out)@ == old(out)@ + le_bytes(v as nat, n as nat),
{
    let mut rem: u128 = v;
    let mut i: usize = 0;
    while i < n
        invariant
            i <= n,
            out@ + le_bytes(rem as nat, (n - i) as nat) == old(out)@ + le_bytes(v as nat, n as nat),
        decreases n - i,
    {
        let ghost before = out@;
        let ghost tail = le_bytes((rem / 256) as nat, (n - i - 1) as nat);
        out.push((rem % 256) as u8);
        proof {
            assert(le_bytes(rem as nat, (n - i) as nat) == seq![(rem % 256) as u8] + tail);
            assert(out@ + tail =~= before + (seq![(rem % 256) as u8] + tail));
        }
        rem = rem / 256;
        i = i + 1;
    }
    proof {
        assert(out@ + Seq::<u8>::empty() =~= out@);
    }
}

/// Reads the `n` bytes at `at` as a little-endian integer; `None` where the
/// input ends before them.
pub fn read_le(input: &[u8], at: usize, n: usize) -> (r: Option<(u128, usize)>)
    requires
        n <= 16,
    ensures
        match r {
            Some((v, next)) => decode_le(input@, at as int, n as nat) == Some(
                (v as nat, next as int),
            ),
            None => decode_le(input@, at as int, n as nat) is None,
        },
{
    if at > input.len() || n > input.len() - at {
        return None;
    }
    let mut acc: u128 = 0;
    let mut i: usize = n;
    proof {
        lemma_pow256_values();
    }
    while i > 0
        invariant
            i <= n <= 16,
            at + n <= input.len(),
            acc == le_value(input@, at + i, (n - i) as nat),
            acc < pow256((n - i) as nat),
        decreases i,
    {
        i = i - 1;
        proof {
            lemma_pow256_values();
            lemma_pow256_monotonic((n - i - 1) as nat, 15);
        }
        acc = acc * 256 + input[at + i] as u128;
    }
    Some((acc, at + n))
}

/// The number of bytes that `v` needs.
pub fn width_of(v: u128) -> (n: usize)
    ensures
        n == byte_width(v as nat),
        1 <= n <= 16,
{
    let mut rem: u128 = v;
    let mut n: usize = 1;
    proof {
        lemma_pow256_values();
        lemma_byte_width_bound(v as nat, 16);
    }
    while rem >= 256
        invariant
            n + byte_width(rem as nat) == 1 + byte_width(v as nat),
            1 <= n,
            byte_width(v as nat) <= 16,
        decreases rem,
    {
        proof {
            lemma_byte_width((rem / 256) as nat);
        }
        rem = rem / 256;
        n = n + 1;
    }
    n
}

/// Appends the compact form of `v`.
pub fn write_compact(out: &mut Vec<u8>, v: u128)
    ensures
        final(out)@ == old(out)@ + encode_compact(v as nat),
{
    if v < 64 {
        write_le(out, 4 * v, 1);
    } else if v < 16384 {
        write_le(out, 4 * v + 1, 2);
    } else if v < 0x4000_0000 {
        write_le(out, 4 * v + 2, 4);
    } else {
        let n = width_of(v);
        proof {
            lemma_pow256_values();
            lemma_byte_width(v as nat);
            if n < 4 {
                lemma_pow256_monotonic(n as nat, 3);
            }
        }
        let ghost before = out@;
        let head: u8 = (3 + 4 * (n - 4)) as u8;
        out.push(head);
        write_le(out, v, n);
        proof {
            assert(out@ =~= before + (seq![head] + le_bytes(v as nat, n as nat)));
        }
    }
}

/// Reads a compact integer of at most `width` bytes at `at`; `None` where the
/// input ends early, the value is too wide, or the form is not the shortest.
pub fn read_compact(input: &[u8], at: usize, width: usize) -> (r: Option<(u128, usize)>)
    requires
        4 <= width <= 16,
    ensures
        match r {
            Some((v, next)) => decode_compact(input@, at as int, width as nat) == Some(
                (v as nat, next as int),
            ),
            None => decode_compact(input@, at as int, width as nat) is None,
        },
{
    if at >= input.len() {
        return None;
    }
    let first = input[at];
    let mode = first % 4;
    if mode == 0 {
        Some(((first / 4) as u128, at + 1))
    } else if mode == 1 {
        match read_le(input, at, 2) {
            Some((x, next)) => if x / 4 >= 64 {
                Some((x / 4, next))
            } else {
                None
            },
            None => None,
        }
    } else if mode == 2 {
        match read_le(input, at, 4) {
            Some((x, next)) => if x / 4 >= 16384 {
                Some((x / 4, next))
            } else {
                None
            },
            None => None,
        }
    } else {
        let n: usize = (first / 4) as usize + 4;
        if n > width {
            return None;
        }
        match read_le(input, at + 1, n) {
            Some((x, next)) => {
                proof {
                    lemma_pow256_values();
                    lemma_le_value_bound(input@, at + 1, n as nat);
                }
                if x >= 0x4000_0000 && x >= pow256_of(n - 1) {
                    Some((x, next))
                } else {
                    None
                }
            },
            None => None,
        }
    }
}

/// 256 to the power `n`, for an exponent under sixteen.
pub fn pow256_of(n: usize) -> (p: u128)
    requires
        n <= 15,
    ensures
        p == pow256(n as nat),
{
    let mut p: u128 = 1;
    let mut i: usize = 0;
    while i < n
        invariant
            i <= n <= 15,
            p == pow256(i as nat),
        decreases n - i,
    {
        proof {
            lemma_pow256_values();
            lemma_pow256_monotonic((i + 1) as nat, 15);
        }
        p = p * 256;
        i = i + 1;
    }
    p
}

/// Appends the bytes of `data` as they stand.
pub fn write_raw(out: &mut Vec<u8>, data: &[u8])
    ensures
        final(out)@ == old(out)@ + data@,
{
    let mut i: usize = 0;
    while i < data.len()
        invariant
            i <= data.len(),
            out@ == old(out)@ + data@.subrange(0, i as int),
        decreases data.len() - i,
    {
        let ghost before = out@;
        out.push(data[i]);
        proof {
            assert(out@ =~= old(out)@ + data@.subrange(0, i + 1));
        }
        i = i + 1;
    }
    proof {
        assert(data@.subrange(0, data.len() as int) =~= data@);
    }
}

/// Reads the `n` bytes at `at`; `None` where the input ends before them.
pub fn read_raw(input: &[u8], at: usize, n: usize) -> (r: Option<(Vec<u8>, usize)>)
    ensures
        match r {
            Some((b, next)) => decode_fixed(input@, at as int, n as nat) == Some(
                (b@, next as int),
            ),
            None => decode_fixed(input@, at as int, n as nat) is None,
        },
{
    if at > input.len() || n > input.len() - at {
        return None;
    }
    let mut b: Vec<u8> = Vec::new();
    let mut i: usize = 0;
    while i < n
        invariant
            i <= n,
            at + n <= input.len(),
            b@ == input@.subrange(at as int, at + i),
        decreases n - i,
    {
        b.push(input[at + i]);
        proof {
            assert(b@ =~= input@.subrange(at as int, at + i + 1));
        }
        i = i + 1;
    }
    Some((b, at + n))
}

/// Appends a byte string: its length in compact form, then its bytes.
pub fn write_bytes(out: &mut Vec<u8>, data: &[u8])
    ensures
        final(out)@ == old(out)@ + encode_bytes(data@),
{
    let ghost before = out@;
    write_compact(out, data.len() as u128);
    write_raw(out, data);
    proof {
        assert(out@ =~= before + (encode_compact(data@.len()) + data@));
    }
}

/// Reads a length-prefixed byte string at `at`.
pub fn read_bytes(input: &[u8], at: usize) -> (r: Option<(Vec<u8>, usize)>)
    ensures
        match r {
            Some((b, next)) => decode_bytes(input@, at as int) == Some((b@, next as int)),
            None => decode_bytes(input@, at as int) is None,
        },
{
    match read_compact(input, at, 4) {
        Some((len, p)) => {
            proof {
                lemma_pow256_values();
                lemma_decode_compact_bounds(input@, at as int, 4);
            }
            read_raw(input, p, len as usize)
        },
        None => None,
    }
}

/// Reads the `N` bytes at `at` into an array.
pub fn read_array<const N: usize>(input: &[u8], at: usize) -> (r: Option<([u8; N], usize)>)
    ensures
        match r {
            Some((a, next)) => decode_fixed(input@, at as int, N as nat) == Some(
                (a@, next as int),
            ),
            None => decode_fixed(input@, at as int, N as nat) is None,
        },
{
    if at > input.len() || N > input.len() - at {
        return None;
    }
    let mut a: [u8; N] = [0u8; N];
    let mut i: usize = 0;
    while i < N
        invariant
            i <= N,
            at + N <= input.len(),
            forall|k: int| 0 <= k < i ==> a@[k] == input@[at + k],
        decreases N - i,
    {
        a[i] = input[at + i];
        i = i + 1;
    }
    proof {
        assert(a@ =~= input@.subrange(at as int, at + N));
    }
    Some((a, at + N))
}

/// A compact 32-bit integer at `at`.
pub open spec fn decode_compact_u32(s: Seq<u8>, at: int) -> Option<(u32, int)> {
    match decode_compact(s, at, 4) {
        Some((v, p)) => Some((v as u32, p)),
        None => None,
    }
}

/// A compact 64-bit integer at `at`.
pub open spec fn decode_compact_u64(s: Seq<u8>, at: int) -> Option<(u64, int)> {
    match decode_compact(s, at, 8) {
        Some((v, p)) => Some((v as u64, p)),
        None => None,
    }
}

/// A compact 128-bit integer at `at`.
pub open spec fn decode_compact_u128(s: Seq<u8>, at: int) -> Option<(u128, int)> {
    match decode_compact(s, at, 16) {
        Some((v, p)) => Some((v as u128, p)),
        None => None,
    }
}

/// An eight-byte little-endian integer at `at`.
pub open spec fn decode_u64(s: Seq<u8>, at: int) -> Option<(u64, int)> {
    match decode_le(s, at, 8) {
        Some((v, p)) => Some((v as u64, p)),
        None => None,
    }
}

/// The eight bytes of `v`, least significant first.
pub open spec fn encode_u64(v: u64) -> Seq<u8> {
    le_bytes(v as nat, 8)
}

/// A tag byte stands first, and what follows it stands behind it.
pub proof fn lemma_holds_at_tag(s: Seq<u8>, at: int, tag: u8, rest: Seq<u8>)
    requires
        holds_at(s, at, seq![tag] + rest),
    ensures
        0 <= at < s.len(),
        s[at] == tag,
        holds_at(s, at + 1, rest),
{
    lemma_holds_at_split(s, at, seq![tag], rest);
    assert(s[at] == s.subrange(at, at + 1)[0]);
}

/// Decoding a compact 32-bit integer that was encoded gives it back.
pub proof fn lemma_compact_u32_roundtrip(s: Seq<u8>, at: int, v: u32)
    requires
        holds_at(s, at, encode_compact(v as nat)),
    ensures
        decode_compact_u32(s, at) == Some((v, at + encode_compact(v as nat).len())),
{
    lemma_pow256_values();
    lemma_compact_roundtrip(s, at, v as nat, 4);
}

/// Decoding a compact 64-bit integer that was encoded gives it back.
pub proof fn lemma_compact_u64_roundtrip(s: Seq<u8>, at: int, v: u64)
    requires
        holds_at(s, at, encode_compact(v as nat)),
    ensures
        decode_compact_u64(s, at) == Some((v, at + encode_compact(v as nat).len())),
{
    lemma_pow256_values();
    lemma_compact_roundtrip(s, at, v as nat, 8);
}

/// Decoding a compact 128-bit integer that was encoded gives it back.
pub proof fn lemma_compact_u128_roundtrip(s: Seq<u8>, at: int, v: u128)
    requires
        holds_at(s, at, encode_compact(v as nat)),
    ensures
        decode_compact_u128(s, at) == Some((v, at + encode_compact(v as nat).len())),
{
    lemma_pow256_values();
    lemma_compact_roundtrip(s, at, v as nat, 16);
}

/// Decoding eight bytes that spell `v` gives `v` back.
pub proof fn lemma_u64_roundtrip(s: Seq<u8>, at: int, v: u64)
    requires
        holds_at(s, at, encode_u64(v)),
    ensures
        decode_u64(s, at) == Some((v, at + 8)),
        encode_u64(v).len() == 8,
{
    lemma_pow256_values();
    lemma_le_bytes_len(v as nat, 8);
    lemma_le_roundtrip(s, at, v as nat, 8);
}

/// Raw bytes that stand at a place are read from it.
pub proof fn lemma_fixed_roundtrip(s: Seq<u8>, at: int, b: Seq<u8>)
    requires
        holds_at(s, at, b),
    ensures
        decode_fixed(s, at, b.len()) == Some((b, at + b.len())),
{
}

/// A decoded byte string lies inside the input and its length fits in 32 bits.
pub proof fn lemma_decode_bytes_bounds(s: Seq<u8>, at: int)
    requires
        decode_bytes(s, at) is Some,
    ensures
        at < decode_bytes(s, at).unwrap().1 <= s.len(),
        decode_bytes(s, at).unwrap().0.len() <= u32::MAX,
{
    lemma_pow256_values();
    lemma_decode_compact_bounds(s, at, 4);
}

/// Reads a compact 32-bit integer at `at`.
pub fn read_compact_u32(input: &[u8], at: usize) -> (r: Option<(u32, usize)>)
    ensures
        match r {
            Some((v, next)) => decode_compact_u32(input@, at as int) == Some((v, next as int)),
            None => decode_compact_u32(input@, at as int) is None,
        },
{
    match read_compact(input, at, 4) {
        Some((v, next)) => {
            proof {
                lemma_pow256_values();
                lemma_decode_compact_bounds(input@, at as int, 4);
            }
            Some((v as u32, next))
        },
        None => None,
    }
}

/// Reads a compact 64-bit integer at `at`.
pub fn read_compact_u64(input: &[u8], at: usize) -> (r: Option<(u64, usize)>)
    ensures
        match r {
            Some((v, next)) => decode_compact_u64(input@, at as int) == Some((v, next as int)),
            None => decode_compact_u64(input@, at as int) is None,
        },
{
    match read_compact(input, at, 8) {
        Some((v, next)) => {
            proof {
                lemma_pow256_values();
                lemma_decode_compact_bounds(input@, at as int, 8);
            }
            Some((v as u64, next))
        },
        None => None,
    }
}

/// Reads a compact 128-bit integer at `at`.
pub fn read_compact_u128(input: &[u8], at: usize) -> (r: Option<(u128, usize)>)
    ensures
        match r {
            Some((v, next)) => decode_compact_u128(input@, at as int) == Some((v, next as int)),
            None => decode_compact_u128(input@, at as int) is None,
        },
{
    read_compact(input, at, 16)
}

/// Reads an eight-byte little-endian integer at `at`.
pub fn read_u64(input: &[u8], at: usize) -> (r: Option<(u64, usize)>)
    ensures
        match r {
            Some((v, next)) => decode_u64(input@, at as int) == Some((v, next as int)),
            None => decode_u64(input@, at as int) is None,
        },
{
    match read_le(input, at, 8) {
        Some((v, next)) => {
            proof {
                lemma_pow256_values();
                lemma_le_value_bound(input@, at as int, 8);
            }
            Some((v as u64, next))
        },
        None => None,
    }
}

/// Appends the eight bytes of `v`, least significant first.
pub fn write_u64(out: &mut Vec<u8>, v: u64)
    ensures
        final(out)@ == old(out)@ + encode_u64(v),
{
    write_le(out, v as u128, 8);
}

} // verus!
