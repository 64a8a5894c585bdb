use vstd::prelude::*;

use crate::bytes::fits;
use crate::error::Error;

verus! {

/// Powers of 128.
pub open spec fn pow128(n: nat) -> nat
    decreases n,
{
    if n == 0 {
        1
    } else {
        128 * pow128((n - 1) as nat)
    }
}

/// The number that a run of LEB128 bytes stands for: seven bits from each
/// byte, least significant first.
pub open spec fn uleb_value(s: Seq<u8>) -> nat
    decreases s.len(),
{
    if s.len() == 0 {
        0
    } else {
        (s[0] % 128) as nat + 128 * uleb_value(s.drop_first())
    }
}

/// The varint at the start of `s` is `n` bytes long: its last byte is the
/// first one with the high bit clear, and it is at most five bytes long.
pub open spec fn uleb_ends_at(s: Seq<u8>, n: int) -> bool {
    1 <= n <= 5 && n <= s.len() && s[n - 1] < 128 && forall|j: int| 0 <= j < n - 1 ==> s[j] >= 128
}

/// The LEB128 encoding of `v`.
pub open spec fn uleb_encode(v: nat) -> Seq<u8>
    decreases v,
{
    if v < 128 {
        seq![v as u8]
    } else {
        seq![(v % 128 + 128) as u8] + uleb_encode(v / 128)
    }
}

proof fn lemma_pow128_small()
    ensures
        pow128(0) == 1,
        pow128(1) == 128,
        pow128(2) == 0x4000,
        pow128(3) == 0x20_0000,
        pow128(4) == 0x1000_0000,
        pow128(5) == 0x8_0000_0000,
{
    assert(pow128(1) == 128 * pow128(0));
    assert(pow128(2) == 128 * pow128(1));
    assert(pow128(3) == 128 * pow128(2));
    assert(pow128(4) == 128 * pow128(3));
    assert(pow128(5) == 128 * pow128(4));
}

proof fn lemma_value_push(t: Seq<u8>, x: u8)
    ensures
        uleb_value(t.push(x)) == uleb_value(t) + (x % 128) as nat * pow128(t.len()),
    decreases t.len(),
{
    let a = (x % 128) as nat;
    if t.len() == 0 {
        assert(t.push(x).drop_first() =~= Seq::<u8>::empty());
        assert(uleb_value(Seq::<u8>::empty()) == 0);
        assert(pow128(0) == 1);
        assert(t.push(x)[0] == x);
    } else {
        assert(t.push(x).drop_first() =~= t.drop_first().push(x));
        lemma_value_push(t.drop_first(), x);
        let p = pow128((t.len() - 1) as nat);
        assert(pow128(t.len()) == 128 * p);
        assert(t.push(x)[0] == t[0]);
        assert(128 * (a * p) == a * (128 * p)) by (nonlinear_arith);
        assert(uleb_value(t.drop_first().push(x)) == uleb_value(t.drop_first()) + a * p);
        assert(uleb_value(t.push(x)) == (t[0] % 128) as nat + 128 * uleb_value(t.drop_first().push(x)));
        assert(128 * (uleb_value(t.drop_first()) + a * p) == 128 * uleb_value(t.drop_first()) + 128 * (a * p)) by (nonlinear_arith);
    }
}

proof fn lemma_encode(v: nat, k: nat)
    requires
        v < pow128(k),
        k >= 1,
    ensures
        1 <= uleb_encode(v).len() <= k,
        uleb_value(uleb_encode(v)) == v,
        uleb_encode(v)[uleb_encode(v).len() - 1] < 128,
        forall|j: int| 0 <= j < uleb_encode(v).len() - 1 ==> uleb_encode(v)[j] >= 128,
    decreases v,
{
    let e = uleb_encode(v);
    if v < 128 {
        assert(e.drop_first() =~= Seq::<u8>::empty());
        assert(uleb_value(Seq::<u8>::empty()) == 0);
    } else {
        let k1 = (k - 1) as nat;
        assert(v / 128 < pow128(k1)) by {
            assert(pow128(k) == 128 * pow128(k1));
            assert(v < 128 * pow128(k1));
        }
        if k1 == 0 {
            assert(pow128(0) == 1);
        }
        lemma_encode(v / 128, k1);
        assert(e.drop_first() =~= uleb_encode(v / 128));
        assert(v == v % 128 + 128 * (v / 128));
        assert(e[0] == (v % 128 + 128) as u8);
        assert(e[0] % 128 == v % 128);
    }
}

/// The varint encoding of every `u32` decodes back to the same value, and the
/// decoder stops exactly at its last byte.
pub proof fn lemma_uleb128_round_trip(v: u32)
    ensures
        uleb_ends_at(uleb_encode(v as nat), uleb_encode(v as nat).len() as int),
        uleb_value(uleb_encode(v as nat)) % 0x1_0000_0000 == v,
{
    lemma_pow128_small();
    lemma_encode(v as nat, 5);
}

/// The length of the varint at `p`: the first byte from `p` on with the high
/// bit clear ends it; 0 where none of the first five bytes does, or the input
/// ends before one does.
pub open spec fn uleb_len(s: Seq<u8>, p: int) -> int {
    if !fits(s, p, 1) {
        0
    } else if s[p] < 128 {
        1
    } else if !fits(s, p, 2) {
        0
    } else if s[p + 1] < 128 {
        2
    } else if !fits(s, p, 3) {
        0
    } else if s[p + 2] < 128 {
        3
    } else if !fits(s, p, 4) {
        0
    } else if s[p + 3] < 128 {
        4
    } else if !fits(s, p, 5) {
        0
    } else if s[p + 4] < 128 {
        5
    } else {
        0
    }
}

/// The value of the varint at `p` and the position after it.
pub open spec fn spec_uleb(s: Seq<u8>, p: int) -> Option<(u32, int)> {
    let n = uleb_len(s, p);
    if n == 0 {
        None
    } else {
        Some(((uleb_value(s.subrange(p, p + n)) % 0x1_0000_0000) as u32, p + n))
    }
}

proof fn lemma_uleb_len(s: Seq<u8>, p: int, n: int)
    requires
        0 <= p <= s.len(),
        uleb_ends_at(s.subrange(p, s.len() as int), n),
    ensures
        uleb_len(s, p) == n,
{
    let rest = s.subrange(p, s.len() as int);
    assert forall|j: int| 0 <= j < n - 1 implies #[trigger] s[p + j] >= 128 by {
        assert(rest[j] == s[p + j]);
    }
    assert(rest[n - 1] == s[p + n - 1]);
    if n >= 2 {
        assert(rest[0] == s[p] && rest[0] >= 128);
    }
    if n >= 3 {
        assert(rest[1] == s[p + 1] && rest[1] >= 128);
    }
    if n >= 4 {
        assert(rest[2] == s[p + 2] && rest[2] >= 128);
    }
    if n >= 5 {
        assert(rest[3] == s[p + 3] && rest[3] >= 128);
    }
}

proof fn lemma_uleb_none(s: Seq<u8>, p: int)
    requires
        0 <= p <= s.len(),
        forall|n: int| !uleb_ends_at(s.subrange(p, s.len() as int), n),
    ensures
        uleb_len(s, p) == 0,
{
    let rest = s.subrange(p, s.len() as int);
    let k = uleb_len(s, p);
    if k > 0 {
        assert forall|j: int| 0 <= j < k - 1 implies rest[j] >= 128 by {
            assert(rest[j] == s[p + j]);
        }
        assert(rest[k - 1] == s[p + k - 1]);
        assert(uleb_ends_at(rest, k));
    }
}

/// Decodes the unsigned LEB128 value at `p`; returns it with the position
/// just past it. Fails with `Truncated` when the input ends inside it and
/// with `Format` when it runs past five bytes.
pub fn read_uleb128(b: &[u8], p: usize) -> (r: Result<(u32, usize), Error>)
    requires
        p <= b@.len(),
    ensures
        match r {
            Ok((v, q)) => spec_uleb(b@, p as int) == Some((v, q as int)),
            Err(_) => spec_uleb(b@, p as int) is None,
        },
        match r {
            Ok((v, q)) => p < q && uleb_ends_at(b@.subrange(p as int, b@.len() as int), q - p)
                && v == uleb_value(b@.subrange(p as int, q as int)) % 0x1_0000_0000,
            Err(e) => (forall|n: int| !uleb_ends_at(b@.subrange(p as int, b@.len() as int), n))
                && (e == Error::Truncated <==> (b@.len() - p < 5 && forall|j: int|
                    p <= j < b@.len() ==> b@[j] >= 128)),
        },
{
    let ghost rest = b@.subrange(p as int, b@.len() as int);
    let mut acc: u64 = 0;
    let mut mult: u64 = 1;
    let mut i: usize = 0;
    while i < 5
        invariant
            p <= b@.len(),
            rest == b@.subrange(p as int, b@.len() as int),
            i <= 5,
            p + i <= b@.len(),
            forall|j: int| 0 <= j < i ==> rest[j] >= 128,
            acc == uleb_value(b@.subrange(p as int, p + i)),
            mult == pow128(i as nat),
            acc < mult,
        decreases 5 - i,
    {
        if i >= b.len() - p {
            assert forall|n: int| !uleb_ends_at(rest, n) by {
                if uleb_ends_at(rest, n) {
                    assert(rest[n - 1] >= 128);
                }
            }
            assert forall|j: int| p <= j < b@.len() implies b@[j] >= 128 by {
                assert(rest[j - p] == b@[j]);
            }
            proof {
                lemma_uleb_none(b@, p as int);
            }
            return Err(Error::Truncated);
        }
        let byte = b[p + i];
        proof {
            let t = b@.subrange(p as int, p + i);
            assert(b@.subrange(p as int, p + i + 1) =~= t.push(byte));
            lemma_value_push(t, byte);
            lemma_pow128_small();
            assert(mult <= 0x1000_0000) by {
                if i == 0 {} else if i == 1 {} else if i == 2 {} else if i == 3 {} else {}
            }
            assert((byte % 128) as nat * mult <= 127 * mult) by (nonlinear_arith)
                requires byte % 128 <= 127, mult >= 0;
        }
        acc = acc + (byte % 128) as u64 * mult;
        if byte < 128 {
            proof {
                assert(rest[i as int] == byte);
                assert(uleb_ends_at(rest, i + 1));
                lemma_uleb_len(b@, p as int, i + 1);
            }
            return Ok(((acc % 0x1_0000_0000) as u32, p + i + 1));
        }
        mult = mult * 128;
        i = i + 1;
    }
    proof {
        assert forall|n: int| !uleb_ends_at(rest, n) by {
            if uleb_ends_at(rest, n) {
                assert(rest[n - 1] >= 128);
            }
        }
        lemma_uleb_none(b@, p as int);
    }
    Err(Error::Format)
}

/// Decodes the unsigned LEB128 value at the start of `bytes`; returns it with
/// the number of bytes it takes, or `None` where it is cut short or longer
/// than five bytes.
pub fn parse_uleb128(bytes: &[u8]) -> (r: Option<(u32, usize)>)
    ensures
        match r {
            Some((v, n)) => uleb_ends_at(bytes@, n as int) && v == uleb_value(bytes@.take(n as int))
                % 0x1_0000_0000,
            None => forall|n: int| !uleb_ends_at(bytes@, n),
        },
{
    assert(bytes@.subrange(0, bytes@.len() as int) =~= bytes@);
    match read_uleb128(bytes, 0) {
        Ok((v, n)) => {
            assert(bytes@.subrange(0, n as int) =~= bytes@.take(n as int));
            Some((v, n))
        },
        Err(_) => None,
    }
}

/// Encodes `v` as unsigned LEB128.
pub fn encode_uleb128(v: u32) -> (r: Vec<u8>)
    ensures
        r@ == uleb_encode(v as nat),
{
    let mut out: Vec<u8> = Vec::new();
    let mut x: u32 = v;
    loop
        invariant
            out@ + uleb_encode(x as nat) == uleb_encode(v as nat),
        decreases x,
    {
        if x < 128 {
            out.push(x as u8);
            assert(out@ =~= uleb_encode(v as nat));
            return out;
        }
        let ghost before = out@;
        out.push((x % 128 + 128) as u8);
        assert(uleb_encode(x as nat) == seq![(x % 128 + 128) as u8] + uleb_encode((x / 128) as nat));
        assert(out@ + uleb_encode((x / 128) as nat) =~= before + uleb_encode(x as nat));
        x = x / 128;
    }
}

} // verus!
