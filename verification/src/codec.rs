//! The canonical binary codec the envelope layer speaks: a deterministic
//! subset of CBOR (RFC 8949) restricted to shortest-form headers, byte and
//! text strings, integers, definite-length arrays and integer-keyed maps.
//!
//! The byte format is pinned down by spec functions (`hdr`, `enc_bstr`,
//! `enc_i64`, ...); the executable encoders are proved to emit exactly those
//! bytes, and the parsers are proved sound (whatever they accept is the
//! canonical encoding of what they return) and complete (every canonical
//! encoding is accepted).

use vstd::prelude::*;

verus! {

/// Initial byte of a CBOR `null`.
pub const CBOR_NULL: u8 = 0xf6;

/// The big-endian base-256 digits of `v`, `n` bytes wide (most significant
/// first, truncating above the `n`th digit).
pub open spec fn be_bytes(v: nat, n: nat) -> Seq<u8>
    decreases n,
{
    if n == 0 {
        Seq::empty()
    } else {
        be_bytes(v / 256, (n - 1) as nat) + seq![(v % 256) as u8]
    }
}

pub broadcast proof fn lemma_be_bytes_len(v: nat, n: nat)
    ensures
        (#[trigger] be_bytes(v, n)).len() == n,
    decreases n,
{
    if n > 0 {
        lemma_be_bytes_len(v / 256, (n - 1) as nat);
    }
}

/// The canonical header for major type `major` with argument `v`: the
/// shortest of the immediate form and the 1-, 2-, 4- and 8-byte forms.
pub open spec fn hdr(major: u8, v: u64) -> Seq<u8>
    recommends
        major < 8,
{
    if v < 24 {
        seq![(major * 32 + v) as u8]
    } else if v < 256 {
        seq![(major * 32 + 24) as u8] + be_bytes(v as nat, 1)
    } else if v < 65536 {
        seq![(major * 32 + 25) as u8] + be_bytes(v as nat, 2)
    } else if v < 4294967296 {
        seq![(major * 32 + 26) as u8] + be_bytes(v as nat, 4)
    } else {
        seq![(major * 32 + 27) as u8] + be_bytes(v as nat, 8)
    }
}

/// A byte string: a major-type-2 header carrying the length, then the bytes.
pub open spec fn enc_bstr(b: Seq<u8>) -> Seq<u8>
    recommends
        b.len() <= u64::MAX,
{
    hdr(2, b.len() as u64) + b
}

/// A text string: a major-type-3 header carrying the length, then the bytes
/// (the callers only emit ASCII context strings).
pub open spec fn enc_tstr(s: Seq<u8>) -> Seq<u8>
    recommends
        s.len() <= u64::MAX,
{
    hdr(3, s.len() as u64) + s
}

/// An array header announcing `n` items.
pub open spec fn enc_arr(n: u64) -> Seq<u8> {
    hdr(4, n)
}

/// A map header announcing `n` key-value pairs.
pub open spec fn enc_map(n: u64) -> Seq<u8> {
    hdr(5, n)
}

/// A signed integer: an unsigned item for `v >= 0`, a negative item (encoding
/// `-1 - v`) otherwise.
pub open spec fn enc_i64(v: i64) -> Seq<u8> {
    if v >= 0 {
        hdr(0, v as u64)
    } else {
        hdr(1, (-1 - v) as u64)
    }
}

/// Appends the contents of `b` to `out`.
pub fn push_vec(out: &mut Vec<u8>, b: &Vec<u8>)
    ensures
        final(out)@ == old(out)@ + b@,
{
    let mut i: usize = 0;
    while i < b.len()
        invariant
            i <= b.len(),
            out@ == old(out)@ + b@.subrange(0, i as int),
        decreases b.len() - i,
    {
        out.push(b[i]);
        i = i + 1;
        proof {
            assert(out@ =~= old(out)@ + b@.subrange(0, i as int));
        }
    }
    proof {
        assert(out@ =~= old(out)@ + b@);
    }
}

/// The bytes of `b` from `from` (inclusive) to `to` (exclusive), as a new
/// vector.
pub fn copy_range(b: &Vec<u8>, from: usize, to: usize) -> (r: Vec<u8>)
    requires
        from <= to <= b.len(),
    ensures
        r@ == b@.subrange(from as int, to as int),
{
    let mut r: Vec<u8> = Vec::new();
    let mut i: usize = from;
    while i < to
        invariant
            from <= i <= to <= b.len(),
            r@ == b@.subrange(from as int, i as int),
        decreases to - i,
    {
        r.push(b[i]);
        i = i + 1;
        proof {
            assert(r@ =~= b@.subrange(from as int, i as int));
        }
    }
    r
}

/// Whether two byte vectors hold the same bytes.
pub fn bytes_eq(a: &Vec<u8>, b: &Vec<u8>) -> (r: bool)
    ensures
        r == (a@ == b@),
{
    if a.len() != b.len() {
        proof {
            assert(a@ != b@);
        }
        return false;
    }
    let mut i: usize = 0;
    while i < a.len()
        invariant
            i <= a.len(),
            a@.len() == b@.len(),
            forall|j: int| 0 <= j < i ==> a@[j] == b@[j],
        decreases a.len() - i,
    {
        if a[i] != b[i] {
            proof {
                assert(a@ != b@);
            }
            return false;
        }
        i = i + 1;
    }
    proof {
        assert(a@ =~= b@);
    }
    true
}

/// The big-endian base-256 digits of `v`, `n` bytes wide.
pub fn be_vec(v: u64, n: usize) -> (r: Vec<u8>)
    ensures
        r@ == be_bytes(v as nat, n as nat),
    decreases n,
{
    if n == 0 {
        Vec::new()
    } else {
        let mut r = be_vec(v / 256, n - 1);
        r.push((v % 256) as u8);
        proof {
            assert(r@ =~= be_bytes(v as nat, n as nat));
        }
        r
    }
}

/// Appends the canonical header for major type `major` with argument `v`.
pub fn push_hdr(out: &mut Vec<u8>, major: u8, v: u64)
    requires
        major < 8,
    ensures
        final(out)@ == old(out)@ + hdr(major, v),
{
    if v < 24 {
        out.push(major * 32 + (v as u8));
        proof {
            assert(out@ =~= old(out)@ + hdr(major, v));
        }
    } else {
        let info: u8 = if v < 256 {
            24
        } else if v < 65536 {
            25
        } else if v < 4294967296 {
            26
        } else {
            27
        };
        let n: usize = if v < 256 {
            1
        } else if v < 65536 {
            2
        } else if v < 4294967296 {
            4
        } else {
            8
        };
        out.push(major * 32 + info);
        let tail = be_vec(v, n);
        push_vec(out, &tail);
        proof {
            assert(out@ =~= old(out)@ + hdr(major, v));
        }
    }
}

/// Appends the canonical encoding of the byte string `b`.
pub fn push_bstr(out: &mut Vec<u8>, b: &Vec<u8>)
    ensures
        final(out)@ == old(out)@ + enc_bstr(b@),
{
    push_hdr(out, 2, b.len() as u64);
    push_vec(out, b);
    proof {
        assert(out@ =~= old(out)@ + enc_bstr(b@));
    }
}

/// Appends the canonical encoding of the signed integer `v`.
pub fn push_i64(out: &mut Vec<u8>, v: i64)
    ensures
        final(out)@ == old(out)@ + enc_i64(v),
{
    if v >= 0 {
        push_hdr(out, 0, v as u64);
    } else {
        push_hdr(out, 1, (-1 - v) as u64);
    }
}

/// `256^n`.
pub open spec fn pow256(n: nat) -> nat
    decreases n,
{
    if n == 0 {
        1
    } else {
        256 * pow256((n - 1) as nat)
    }
}

/// The value of a big-endian base-256 digit string.
pub open spec fn be_val(s: Seq<u8>) -> nat
    decreases s.len(),
{
    if s.len() == 0 {
        0
    } else {
        (be_val(s.drop_last()) * 256 + s.last()) as nat
    }
}

pub proof fn lemma_pow256_mono(a: nat, b: nat)
    requires
        a <= b,
    ensures
        pow256(a) <= pow256(b),
    decreases b,
{
    if a < b {
        lemma_pow256_mono(a, (b - 1) as nat);
    }
}

/// Reading the digits of `v` back gives `v`, provided `v` fits in `n` digits.
pub proof fn lemma_be_bytes_val(v: nat, n: nat)
    requires
        v < pow256(n),
    ensures
        be_val(be_bytes(v, n)) == v,
    decreases n,
{
    if n > 0 {
        lemma_be_bytes_len(v / 256, (n - 1) as nat);
        assert(be_bytes(v, n).drop_last() =~= be_bytes(v / 256, (n - 1) as nat));
        lemma_be_bytes_val(v / 256, (n - 1) as nat);
    }
}

/// Re-encoding the value of a digit string gives the digit string back.
pub proof fn lemma_be_recompose(s: Seq<u8>)
    ensures
        be_bytes(be_val(s), s.len()) == s,
    decreases s.len(),
{
    if s.len() > 0 {
        let dl = s.drop_last();
        let v = be_val(s);
        assert(v == be_val(dl) * 256 + s.last());
        assert(v / 256 == be_val(dl) && v % 256 == s.last()) by (nonlinear_arith)
            requires
                v == be_val(dl) * 256 + s.last(),
                0 <= s.last() < 256,
        ;
        lemma_be_recompose(dl);
        assert(be_bytes(be_val(s), s.len()) =~= s);
    }
}

/// `pat` occurs in `b` at offset `pos`.
pub open spec fn is_match_at(b: Seq<u8>, pos: int, pat: Seq<u8>) -> bool {
    0 <= pos && pos + pat.len() <= b.len() && b.subrange(pos, pos + pat.len()) == pat
}

/// A match of a concatenation splits into matches of its halves.
pub proof fn lemma_match_split(b: Seq<u8>, pos: int, p1: Seq<u8>, p2: Seq<u8>)
    requires
        is_match_at(b, pos, p1 + p2),
    ensures
        is_match_at(b, pos, p1),
        is_match_at(b, pos + p1.len(), p2),
{
    assert forall|i: int| 0 <= i < p1.len() implies b.subrange(pos, pos + p1.len())[i] == p1[i] by {
        assert((p1 + p2)[i] == p1[i]);
        assert(b.subrange(pos, pos + (p1 + p2).len())[i] == (p1 + p2)[i]);
    }
    assert(b.subrange(pos, pos + p1.len()) =~= p1);
    assert forall|i: int|
        0 <= i < p2.len() implies b.subrange(pos + p1.len(), pos + p1.len() + p2.len())[i]
        == p2[i] by {
        assert((p1 + p2)[p1.len() + i] == p2[i]);
        assert(b.subrange(pos, pos + (p1 + p2).len())[p1.len() + i] == (p1 + p2)[p1.len() + i]);
    }
    assert(b.subrange(pos + p1.len(), pos + p1.len() + p2.len()) =~= p2);
}

/// Matches of two halves in sequence join into a match of the concatenation.
pub proof fn lemma_match_join(b: Seq<u8>, pos: int, p1: Seq<u8>, p2: Seq<u8>)
    requires
        is_match_at(b, pos, p1),
        is_match_at(b, pos + p1.len(), p2),
    ensures
        is_match_at(b, pos, p1 + p2),
{
    assert(b.subrange(pos, pos + p1.len() + p2.len()) =~= p1 + p2);
}

/// The number of bytes of a canonical header.
pub proof fn lemma_hdr_len(major: u8, v: u64)
    ensures
        hdr(major, v).len() == if v < 24 {
            1int
        } else if v < 256 {
            2
        } else if v < 65536 {
            3
        } else if v < 4294967296 {
            5
        } else {
            9
        },
{
    if v >= 24 {
        let n: nat = if v < 256 {
            1
        } else if v < 65536 {
            2
        } else if v < 4294967296 {
            4
        } else {
            8
        };
        lemma_be_bytes_len(v as nat, n);
    }
}

/// Only one header can occur at a given offset: the first byte fixes the major
/// type and the width, and the value digits fix the value.
pub proof fn lemma_hdr_unique(b: Seq<u8>, pos: int, m1: u8, v1: u64, m2: u8, v2: u64)
    requires
        m1 < 8,
        m2 < 8,
        is_match_at(b, pos, hdr(m1, v1)),
        is_match_at(b, pos, hdr(m2, v2)),
    ensures
        m1 == m2,
        v1 == v2,
{
    lemma_hdr_len(m1, v1);
    lemma_hdr_len(m2, v2);
    let h1 = hdr(m1, v1);
    let h2 = hdr(m2, v2);
    assert(h1[0] == b[pos] && h2[0] == b[pos]);
    let info1: u8 = if v1 < 24 {
        v1 as u8
    } else if v1 < 256 {
        24
    } else if v1 < 65536 {
        25
    } else if v1 < 4294967296 {
        26
    } else {
        27
    };
    let info2: u8 = if v2 < 24 {
        v2 as u8
    } else if v2 < 256 {
        24
    } else if v2 < 65536 {
        25
    } else if v2 < 4294967296 {
        26
    } else {
        27
    };
    assert(h1[0] == m1 * 32 + info1 && h2[0] == m2 * 32 + info2);
    assert(m1 == m2 && info1 == info2);
    if v1 >= 24 {
        let n: nat = if v1 < 256 {
            1
        } else if v1 < 65536 {
            2
        } else if v1 < 4294967296 {
            4
        } else {
            8
        };
        lemma_be_bytes_len(v1 as nat, n);
        lemma_be_bytes_len(v2 as nat, n);
        assert(h1 == b.subrange(pos, pos + h1.len()) && h2 == b.subrange(pos, pos + h2.len()));
        assert(be_bytes(v1 as nat, n) =~= be_bytes(v2 as nat, n)) by {
            assert(forall|i: int|
                0 <= i < n ==> #[trigger] be_bytes(v1 as nat, n)[i] == h1[i + 1] && #[trigger]
                be_bytes(v2 as nat, n)[i] == h2[i + 1]);
        }
        assert(pow256(1) == 256 && pow256(2) == 65536 && pow256(4) == 4294967296) by {
            reveal_with_fuel(pow256, 5);
        }
        assert(v1 < pow256(n) && v2 < pow256(n)) by {
            reveal_with_fuel(pow256, 9);
        }
        lemma_be_bytes_val(v1 as nat, n);
        lemma_be_bytes_val(v2 as nat, n);
    }
}

/// Only one byte string can occur at a given offset.
pub proof fn lemma_bstr_unique(b: Seq<u8>, pos: int, d1: Seq<u8>, d2: Seq<u8>)
    requires
        is_match_at(b, pos, enc_bstr(d1)),
        is_match_at(b, pos, enc_bstr(d2)),
        d1.len() <= u64::MAX,
        d2.len() <= u64::MAX,
    ensures
        d1 == d2,
{
    lemma_match_split(b, pos, hdr(2, d1.len() as u64), d1);
    lemma_match_split(b, pos, hdr(2, d2.len() as u64), d2);
    lemma_hdr_unique(b, pos, 2, d1.len() as u64, 2, d2.len() as u64);
    assert(d1 =~= d2);
}

/// Only one signed integer can occur at a given offset.
pub proof fn lemma_i64_unique(b: Seq<u8>, pos: int, x: i64, y: i64)
    requires
        is_match_at(b, pos, enc_i64(x)),
        is_match_at(b, pos, enc_i64(y)),
    ensures
        x == y,
{
    if x >= 0 && y >= 0 {
        lemma_hdr_unique(b, pos, 0, x as u64, 0, y as u64);
    } else if x < 0 && y < 0 {
        lemma_hdr_unique(b, pos, 1, (-1 - x) as u64, 1, (-1 - y) as u64);
    } else if x >= 0 {
        lemma_hdr_unique(b, pos, 0, x as u64, 1, (-1 - y) as u64);
    } else {
        lemma_hdr_unique(b, pos, 1, (-1 - x) as u64, 0, y as u64);
    }
}

/// Reads `n` big-endian digit bytes starting at `start`.
fn read_be(b: &Vec<u8>, start: usize, n: usize) -> (v: u64)
    requires
        start + n <= b.len(),
        n <= 8,
    ensures
        v == be_val(b@.subrange(start as int, start + n)),
        v < pow256(n as nat),
{
    let mut v: u64 = 0;
    let mut i: usize = 0;
    while i < n
        invariant
            start + n <= b.len(),
            n <= 8,
            i <= n,
            v == be_val(b@.subrange(start as int, start + i)),
            v < pow256(i as nat),
        decreases n - i,
    {
        proof {
            lemma_pow256_mono(i as nat, 7);
            assert(pow256(7) == 0x100000000000000 && pow256(8) == 0x10000000000000000) by {
                reveal_with_fuel(pow256, 9);
            }
            assert(b@.subrange(start as int, start + i + 1).drop_last() =~= b@.subrange(
                start as int,
                start + i,
            ));
        }
        v = v * 256 + (b[start + i] as u64);
        i = i + 1;
    }
    v
}

/// Parses the canonical header at `pos`.
///
/// Sound: a successful parse consumed exactly the canonical header of what it
/// returns. Complete: if any canonical header occurs at `pos`, the parse
/// succeeds and returns it.
pub fn parse_hdr(b: &Vec<u8>, pos: usize) -> (r: Option<(u8, u64, usize)>)
    ensures
        r matches Some(t) ==> t.0 < 8 && t.2 == pos + hdr(t.0, t.1).len() && t.2 <= b.len()
            && is_match_at(b@, pos as int, hdr(t.0, t.1)),
        forall|m: u8, v: u64|
            m < 8 && is_match_at(b@, pos as int, #[trigger] hdr(m, v)) ==> (r matches Some(t)
                && t.0 == m && t.1 == v),
{
    proof {
        assert forall|m: u8, v: u64| m < 8 implies hdr(m, v).len() >= 1 && (hdr(m, v)[0] as u8) / 32
            == m by {
            lemma_hdr_len(m, v);
        }
    }
    if pos >= b.len() {
        return None;
    }
    let first = b[pos];
    let major = first / 32;
    let info = first % 32;
    if info < 24 {
        proof {
            assert forall|m: u8, v: u64|
                m < 8 && is_match_at(b@, pos as int, #[trigger] hdr(m, v)) implies m == major && v
                == info by {
                lemma_hdr_len(m, v);
                assert(hdr(m, v)[0] == b@[pos as int]);
            }
            assert(is_match_at(b@, pos as int, hdr(major, info as u64))) by {
                assert(b@.subrange(pos as int, pos + 1) =~= hdr(major, info as u64));
            }
        }
        return Some((major, info as u64, pos + 1));
    }
    if info >= 28 {
        proof {
            assert forall|m: u8, v: u64|
                m < 8 && is_match_at(b@, pos as int, #[trigger] hdr(m, v)) implies false by {
                lemma_hdr_len(m, v);
                assert(hdr(m, v)[0] == b@[pos as int]);
            }
        }
        return None;
    }
    let n: usize = if info == 24 {
        1
    } else if info == 25 {
        2
    } else if info == 26 {
        4
    } else {
        8
    };
    let lo: u64 = if info == 24 {
        24
    } else if info == 25 {
        256
    } else if info == 26 {
        65536
    } else {
        4294967296
    };
    proof {
        assert forall|m: u8, v: u64|
            m < 8 && is_match_at(b@, pos as int, #[trigger] hdr(m, v)) implies m == major && v >= lo
            && v < pow256(n as nat) && hdr(m, v).len() == 1 + n && b@.subrange(pos + 1, pos + 1 + n)
            == be_bytes(v as nat, n as nat) by {
            reveal_with_fuel(pow256, 9);
            lemma_hdr_len(m, v);
            assert(hdr(m, v)[0] == b@[pos as int]);
            if v < 256 {
                lemma_be_bytes_len(v as nat, 1);
                lemma_match_split(b@, pos as int, seq![(m * 32 + 24) as u8], be_bytes(v as nat, 1));
            } else if v < 65536 {
                lemma_be_bytes_len(v as nat, 2);
                lemma_match_split(b@, pos as int, seq![(m * 32 + 25) as u8], be_bytes(v as nat, 2));
            } else if v < 4294967296 {
                lemma_be_bytes_len(v as nat, 4);
                lemma_match_split(b@, pos as int, seq![(m * 32 + 26) as u8], be_bytes(v as nat, 4));
            } else {
                lemma_be_bytes_len(v as nat, 8);
                lemma_match_split(b@, pos as int, seq![(m * 32 + 27) as u8], be_bytes(v as nat, 8));
            }
        }
    }
    if b.len() - pos < 1 + n {
        return None;
    }
    let v = read_be(b, pos + 1, n);
    if v < lo {
        proof {
            assert forall|m: u8, v2: u64|
                m < 8 && is_match_at(b@, pos as int, #[trigger] hdr(m, v2)) implies false by {
                assert(pow256(1) == 256 && pow256(2) == 65536 && pow256(4) == 4294967296) by {
                    reveal_with_fuel(pow256, 5);
                }
                lemma_be_bytes_val(v2 as nat, n as nat);
            }
        }
        return None;
    }
    proof {
        assert(is_match_at(b@, pos as int, hdr(major, v))) by {
            lemma_be_recompose(b@.subrange(pos + 1, pos + 1 + n));
            lemma_be_bytes_len(v as nat, n as nat);
            assert(pow256(1) == 256 && pow256(2) == 65536 && pow256(4) == 4294967296) by {
                reveal_with_fuel(pow256, 5);
            }
            assert(b@.subrange(pos as int, pos + 1 + n) =~= hdr(major, v)) by {
                assert(hdr(major, v) =~= seq![b@[pos as int]] + be_bytes(v as nat, n as nat));
                assert(forall|i: int|
                    0 <= i < n ==> #[trigger] b@.subrange(pos as int, pos + 1 + n)[i + 1] == b@[pos
                        + 1 + i]);
            }
        }
        lemma_hdr_len(major, v);
        assert forall|m: u8, v2: u64|
            m < 8 && is_match_at(b@, pos as int, #[trigger] hdr(m, v2)) implies m == major && v2
            == v by {
            assert(pow256(1) == 256 && pow256(2) == 65536 && pow256(4) == 4294967296) by {
                reveal_with_fuel(pow256, 5);
            }
            lemma_be_bytes_val(v2 as nat, n as nat);
        }
    }
    Some((major, v, pos + 1 + n))
}

/// Parses the canonical byte string at `pos`, returning its contents and the
/// offset just past it. Sound and complete with respect to `enc_bstr`.
pub fn parse_bstr(b: &Vec<u8>, pos: usize) -> (r: Option<(Vec<u8>, usize)>)
    ensures
        r matches Some(t) ==> t.1 == pos + enc_bstr(t.0@).len() && t.1 <= b.len() && is_match_at(
            b@,
            pos as int,
            enc_bstr(t.0@),
        ),
        forall|d: Seq<u8>|
            is_match_at(b@, pos as int, #[trigger] enc_bstr(d)) ==> (r matches Some(t) && t.0@ == d),
{
    proof {
        vstd::std_specs::vec::axiom_spec_len(b);
        assert forall|d: Seq<u8>| is_match_at(b@, pos as int, #[trigger] enc_bstr(d)) implies d.len()
            <= u64::MAX && is_match_at(b@, pos as int, hdr(2, d.len() as u64)) && is_match_at(
            b@,
            pos + hdr(2, d.len() as u64).len(),
            d,
        ) by {
            lemma_hdr_len(2, d.len() as u64);
            lemma_match_split(b@, pos as int, hdr(2, d.len() as u64), d);
        }
    }
    let h = parse_hdr(b, pos);
    match h {
        None => None,
        Some((major, len, p)) => {
            if major != 2 {
                return None;
            }
            if (len as u64) > (b.len() - p) as u64 {
                proof {
                    assert forall|d: Seq<u8>|
                        is_match_at(b@, pos as int, #[trigger] enc_bstr(d)) implies false by {
                        lemma_hdr_unique(b@, pos as int, 2, d.len() as u64, 2, len);
                    }
                }
                return None;
            }
            let end = p + (len as usize);
            let data = copy_range(b, p, end);
            proof {
                lemma_match_join(b@, pos as int, hdr(2, len), data@);
                assert(hdr(2, len) + data@ =~= enc_bstr(data@));
                assert forall|d: Seq<u8>|
                    is_match_at(b@, pos as int, #[trigger] enc_bstr(d)) implies d == data@ by {
                    lemma_hdr_unique(b@, pos as int, 2, d.len() as u64, 2, len);
                    assert(d =~= data@);
                }
            }
            Some((data, end))
        },
    }
}

/// Parses the canonical signed integer at `pos`. Sound and complete with
/// respect to `enc_i64`.
pub fn parse_i64(b: &Vec<u8>, pos: usize) -> (r: Option<(i64, usize)>)
    ensures
        r matches Some(t) ==> t.1 == pos + enc_i64(t.0).len() && t.1 <= b.len() && is_match_at(
            b@,
            pos as int,
            enc_i64(t.0),
        ),
        forall|x: i64|
            is_match_at(b@, pos as int, #[trigger] enc_i64(x)) ==> (r matches Some(t) && t.0 == x),
{
    let h = parse_hdr(b, pos);
    match h {
        None => None,
        Some((major, v, p)) => {
            if major == 0 {
                if v <= 0x7fffffffffffffff {
                    proof {
                        assert forall|x: i64|
                            is_match_at(b@, pos as int, #[trigger] enc_i64(x)) implies x == v as i64 by {
                            if x >= 0 {
                                lemma_hdr_unique(b@, pos as int, 0, x as u64, 0, v);
                            } else {
                                lemma_hdr_unique(b@, pos as int, 1, (-1 - x) as u64, 0, v);
                            }
                        }
                    }
                    Some((v as i64, p))
                } else {
                    proof {
                        assert forall|x: i64|
                            is_match_at(b@, pos as int, #[trigger] enc_i64(x)) implies false by {
                            if x >= 0 {
                                lemma_hdr_unique(b@, pos as int, 0, x as u64, 0, v);
                            } else {
                                lemma_hdr_unique(b@, pos as int, 1, (-1 - x) as u64, 0, v);
                            }
                        }
                    }
                    None
                }
            } else if major == 1 {
                if v <= 0x7fffffffffffffff {
                    proof {
                        assert forall|x: i64|
                            is_match_at(b@, pos as int, #[trigger] enc_i64(x)) implies x == -1 - (
                            v as i64) by {
                            if x >= 0 {
                                lemma_hdr_unique(b@, pos as int, 0, x as u64, 1, v);
                            } else {
                                lemma_hdr_unique(b@, pos as int, 1, (-1 - x) as u64, 1, v);
                            }
                        }
                    }
                    Some((-1 - (v as i64), p))
                } else {
                    proof {
                        assert forall|x: i64|
                            is_match_at(b@, pos as int, #[trigger] enc_i64(x)) implies false by {
                            if x >= 0 {
                                lemma_hdr_unique(b@, pos as int, 0, x as u64, 1, v);
                            } else {
                                lemma_hdr_unique(b@, pos as int, 1, (-1 - x) as u64, 1, v);
                            }
                        }
                    }
                    None
                }
            } else {
                proof {
                    assert forall|x: i64|
                        is_match_at(b@, pos as int, #[trigger] enc_i64(x)) implies false by {
                        if x >= 0 {
                            lemma_hdr_unique(b@, pos as int, 0, x as u64, major, v);
                        } else {
                            lemma_hdr_unique(b@, pos as int, 1, (-1 - x) as u64, major, v);
                        }
                    }
                }
                None
            }
        },
    }
}

/// Whether a byte string is one complete, strictly canonical item of the
/// full codec: shortest-form headers, sorted integer map keys, valid text,
/// and no trailing bytes.
pub uninterp spec fn cbor_canonical(b: Seq<u8>) -> bool;

/// Relies on `cbor::verify`: the validator's verdict is a function of the
/// bytes alone.
#[verifier::external_body]
fn cbor_check(data: &Vec<u8>) -> (r: bool)
    ensures
        r == cbor_canonical(data@),
{
    darkbio_crypto::cbor::verify(data.as_slice()).is_ok()
}

/// Validates that the given bytes are one complete, strictly canonical item
/// of the codec, including text validity and deterministic map-key order.
pub fn cbor_verify(data: Vec<u8>) -> (r: Result<(), crate::errors::CoseError>)
    ensures
        r matches Ok(()) <==> cbor_canonical(data@),
        r matches Err(e) ==> e == crate::errors::CoseError::Malformed,
{
    if cbor_check(&data) {
        Ok(())
    } else {
        Err(crate::errors::CoseError::Malformed)
    }
}

} // verus!
