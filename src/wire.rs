//! Integer layouts shared by the wire formats: little-endian byte groups and
//! the variable-length integer layout (one byte below 251; otherwise a tag
//! byte 251, 252 or 253 followed by 2, 4 or 8 little-endian bytes).
use vstd::prelude::*;

verus! {

pub open spec fn pow256(n: nat) -> nat
    decreases n,
{
    if n == 0 {
        1
    } else {
        256 * pow256((n - 1) as nat)
    }
}

/// The value of a byte sequence read least significant byte first.
pub open spec fn le_value(s: Seq<u8>) -> nat
    decreases s.len(),
{
    if s.len() == 0 {
        0
    } else {
        s[0] as nat + 256 * le_value(s.drop_first())
    }
}

/// The `n` low-order bytes of `v`, least significant first.
pub open spec fn le_bytes(v: nat, n: nat) -> Seq<u8>
    decreases n,
{
    if n == 0 {
        Seq::empty()
    } else {
        seq![(v % 256) as u8] + le_bytes(v / 256, (n - 1) as nat)
    }
}

/// How many little-endian bytes follow a varint tag byte.
pub open spec fn varint_width(tag: u8) -> nat {
    if tag == 251 {
        2
    } else if tag == 252 {
        4
    } else {
        8
    }
}

/// The variable-length layout of `v`.
pub open spec fn varint_bytes(v: nat) -> Seq<u8> {
    if v < 251 {
        seq![v as u8]
    } else if v < 0x1_0000 {
        seq![251u8] + le_bytes(v, 2)
    } else if v < 0x1_0000_0000 {
        seq![252u8] + le_bytes(v, 4)
    } else {
        seq![253u8] + le_bytes(v, 8)
    }
}

/// Reads one varint at the front of `s`: its value and the bytes after it.
pub open spec fn parse_varint(s: Seq<u8>) -> Option<(nat, Seq<u8>)> {
    if s.len() == 0 {
        None
    } else if s[0] < 251 {
        Some((s[0] as nat, s.subrange(1, s.len() as int)))
    } else if s[0] <= 253 && s.len() >= 1 + varint_width(s[0]) {
        let w = varint_width(s[0]) as int;
        Some((le_value(s.subrange(1, 1 + w)), s.subrange(1 + w, s.len() as int)))
    } else {
        None
    }
}

/// Reads one varint of a 32-bit field: as `parse_varint`, without the
/// 8-byte form.
pub open spec fn parse_varint32(s: Seq<u8>) -> Option<(nat, Seq<u8>)> {
    if s.len() > 0 && s[0] == 253 {
        None
    } else {
        parse_varint(s)
    }
}

pub proof fn lemma_pow256_mono(a: nat, b: nat)
    requires
        a <= b,
    ensures
        pow256(a) <= pow256(b),
    decreases b,
{
    if a < b {
        lemma_pow256_mono(a, (b - 1) as nat);
    }
}

pub proof fn lemma_pow256_values()
    ensures
        pow256(2) == 0x1_0000,
        pow256(4) == 0x1_0000_0000,
        pow256(8) == 0x1_0000_0000_0000_0000,
{
    reveal_with_fuel(pow256, 9);
}

pub proof fn lemma_le_value_bound(s: Seq<u8>)
    ensures
        le_value(s) < pow256(s.len()),
    decreases s.len(),
{
    if s.len() > 0 {
        lemma_le_value_bound(s.drop_first());
        let r = le_value(s.drop_first());
        let p = pow256(s.drop_first().len());
        assert(s[0] as nat + 256 * r < 256 * p) by (nonlinear_arith)
            requires
                r < p,
                s[0] < 256,
        ;
    }
}

pub proof fn lemma_le_round_trip(v: nat, n: nat)
    requires
        v < pow256(n),
    ensures
        le_bytes(v, n).len() == n,
        le_value(le_bytes(v, n)) == v,
    decreases n,
{
    if n > 0 {
        let p = pow256((n - 1) as nat);
        assert(v / 256 < p) by (nonlinear_arith)
            requires
                v < 256 * p,
        ;
        lemma_le_round_trip(v / 256, (n - 1) as nat);
        let s = le_bytes(v, n);
        assert(s.drop_first() =~= le_bytes(v / 256, (n - 1) as nat));
    }
}

/// A varint is read back as the value it was written from, and the bytes
/// after it are left as they were.
pub proof fn lemma_varint_round_trip(v: nat, rest: Seq<u8>)
    requires
        v < 0x1_0000_0000_0000_0000,
    ensures
        parse_varint(varint_bytes(v) + rest) == Some((v, rest)),
{
    lemma_pow256_values();
    let s = varint_bytes(v) + rest;
    if v < 251 {
        assert(s.subrange(1, s.len() as int) =~= rest);
    } else {
        let n: nat = if v < 0x1_0000 {
            2
        } else if v < 0x1_0000_0000 {
            4
        } else {
            8
        };
        lemma_le_round_trip(v, n);
        assert(s.subrange(1, 1 + n as int) =~= le_bytes(v, n));
        assert(s.subrange(1 + n as int, s.len() as int) =~= rest);
    }
}

/// A varint of a 32-bit value is read back by `parse_varint32`.
pub proof fn lemma_varint32_round_trip(v: nat, rest: Seq<u8>)
    requires
        v < 0x1_0000_0000,
    ensures
        parse_varint32(varint_bytes(v) + rest) == Some((v, rest)),
{
    lemma_varint_round_trip(v, rest);
}

/// Appends the `n` low-order bytes of `v`, least significant first.
pub fn push_le(out: &mut Vec<u8>, v: u64, n: usize)
    ensures
        final(out)@ == old(out)@ + le_bytes(v as nat, n as nat),
{
    let mut i: usize = 0;
    let mut x: u64 = v;
    while i < n
        invariant
            i <= n,
            old(out)@ + le_bytes(v as nat, n as nat) == out@ + le_bytes(x as nat, (n - i) as nat),
        decreases n - i,
    {
        let ghost before = out@;
        assert(le_bytes(x as nat, (n - i) as nat) == seq![(x % 256) as u8] + le_bytes(
            (x / 256) as nat,
            (n - i - 1) as nat,
        ));
        out.push((x % 256) as u8);
        assert(before + le_bytes(x as nat, (n - i) as nat) =~= out@ + le_bytes(
            (x / 256) as nat,
            (n - i - 1) as nat,
        ));
        x = x / 256;
        i = i + 1;
    }
    assert(out@ + le_bytes(x as nat, 0) =~= out@);
}

/// Reads `n` little-endian bytes of `s` starting at `start`.
pub fn read_le(s: &[u8], start: usize, n: usize) -> (r: u64)
    requires
        n <= 8,
        start + n <= s@.len(),
    ensures
        r as nat == le_value(s@.subrange(start as int, start + n)),
{
    let len = s.len();
    let mut acc: u64 = 0;
    let mut i: usize = n;
    while i > 0
        invariant
            i <= n <= 8,
            start + n <= len,
            len == s@.len(),
            acc as nat == le_value(s@.subrange(start + i, start + n)),
            acc < pow256((n - i) as nat),
        decreases i,
    {
        i = i - 1;
        let ghost sub = s@.subrange(start + i, start + n);
        assert(sub.drop_first() =~= s@.subrange(start + i + 1, start + n));
        assert(start + i < s@.len());
        let b = s[start + i];
        proof {
            let k = (n - i) as nat;
            lemma_pow256_mono(k, 8);
            lemma_pow256_values();
            let p = pow256((k - 1) as nat);
            assert(pow256(k) == 256 * p);
            assert(b as nat + 256 * acc < 256 * p) by (nonlinear_arith)
                requires
                    acc < p,
                    b < 256,
            ;
        }
        acc = b as u64 + 256 * acc;
    }
    acc
}

/// Appends the varint layout of `v`.
pub fn push_varint(out: &mut Vec<u8>, v: u64)
    ensures
        final(out)@ == old(out)@ + varint_bytes(v as nat),
{
    if v < 251 {
        out.push(v as u8);
    } else if v < 0x1_0000 {
        out.push(251u8);
        push_le(out, v, 2);
    } else if v < 0x1_0000_0000 {
        out.push(252u8);
        push_le(out, v, 4);
    } else {
        out.push(253u8);
        push_le(out, v, 8);
    }
    assert(final(out)@ =~= old(out)@ + varint_bytes(v as nat));
}

/// Reads a varint at position `pos` of `s`: its value and the position after it.
pub fn read_varint(s: &[u8], pos: usize) -> (r: Option<(u64, usize)>)
    requires
        pos <= s@.len(),
    ensures
        match parse_varint(s@.subrange(pos as int, s@.len() as int)) {
            None => r is None,
            Some((v, rest)) => r matches Some((x, p)) && x as nat == v && pos < p <= s@.len()
                && rest == s@.subrange(p as int, s@.len() as int),
        },
{
    let ghost t = s@.subrange(pos as int, s@.len() as int);
    if pos >= s.len() {
        return None;
    }
    let tag = s[pos];
    if tag < 251 {
        assert(t.subrange(1, t.len() as int) =~= s@.subrange(pos + 1, s@.len() as int));
        return Some((tag as u64, pos + 1));
    }
    if tag > 253 {
        return None;
    }
    let w: usize = if tag == 251 {
        2
    } else if tag == 252 {
        4
    } else {
        8
    };
    if s.len() - pos < 1 + w {
        return None;
    }
    let v = read_le(s, pos + 1, w);
    assert(t.subrange(1, 1 + w as int) =~= s@.subrange(pos + 1, pos + 1 + w));
    assert(t.subrange(1 + w as int, t.len() as int) =~= s@.subrange(pos + 1 + w, s@.len() as int));
    Some((v, pos + 1 + w))
}

/// Reads a varint of a 32-bit field at position `pos` of `s`.
pub fn read_varint32(s: &[u8], pos: usize) -> (r: Option<(u64, usize)>)
    requires
        pos <= s@.len(),
    ensures
        match parse_varint32(s@.subrange(pos as int, s@.len() as int)) {
            None => r is None,
            Some((v, rest)) => r matches Some((x, p)) && x as nat == v && pos < p <= s@.len()
                && rest == s@.subrange(p as int, s@.len() as int),
        },
{
    if pos < s.len() && s[pos] == 253 {
        return None;
    }
    read_varint(s, pos)
}

} // verus!
