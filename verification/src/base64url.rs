//! Base64URL (RFC 4648 §5) encoding without padding, and a lenient decoder.

use vstd::prelude::*;
use vstd::string::StringSliceAdditionalSpecFns;

verus! {

/// The value (0..64) of a symbol of the base64url alphabet
/// `A`-`Z` (65..=90), `a`-`z` (97..=122), `0`-`9` (48..=57), `-` (45), `_` (95).
pub open spec fn symbol_value(c: u8) -> Option<u8> {
    if 65 <= c && c <= 90 {
        Some((c - 65) as u8)
    } else if 97 <= c && c <= 122 {
        Some((c - 97 + 26) as u8)
    } else if 48 <= c && c <= 57 {
        Some((c - 48 + 52) as u8)
    } else if c == 45u8 {
        Some(62u8)
    } else if c == 95u8 {
        Some(63u8)
    } else {
        None
    }
}

/// The symbol of the base64url alphabet that stands for the value `v` (0..64).
pub open spec fn symbol_of(v: u8) -> u8 {
    if v < 26 {
        (v + 65) as u8
    } else if v < 52 {
        (v - 26 + 97) as u8
    } else if v < 62 {
        (v - 52 + 48) as u8
    } else if v == 62 {
        45u8
    } else {
        95u8
    }
}

fn symbol(v: u8) -> (c: u8)
    requires
        v < 64,
    ensures
        c == symbol_of(v),
{
    if v < 26 {
        v + 65
    } else if v < 52 {
        v - 26 + 97
    } else if v < 62 {
        v - 52 + 48
    } else if v == 62 {
        45u8
    } else {
        95u8
    }
}


/// Length of the last group when a sequence of length `n` is cut into groups of `k`
/// from the front (0 for the empty sequence).
pub open spec fn last_group_len(n: nat, k: nat) -> nat {
    if n == 0 || k == 0 {
        0
    } else {
        ((n - 1) % (k as int) + 1) as nat
    }
}

/// The sextets of a group of one to three bytes: 4, 3 or 2 of them, most
/// significant bits first (the missing low bits of a short group are zero).
pub open spec fn group_sextets(g: Seq<u8>) -> Seq<u8> {
    let a = g[0];
    let b = if g.len() > 1 { g[1] } else { 0u8 };
    let c = if g.len() > 2 { g[2] } else { 0u8 };
    seq![a >> 2u8, ((a & 3u8) << 4u8) | (b >> 4u8), ((b & 15u8) << 2u8) | (c >> 6u8), c & 63u8].take(
        g.len() + 1int,
    )
}

/// The sextets of a byte string: its groups of three bytes from the front, each cut
/// into sextets by `group_sextets`.
pub open spec fn sextets_of(data: Seq<u8>) -> Seq<u8>
    decreases data.len(),
{
    if data.len() == 0 {
        seq![]
    } else {
        let r = last_group_len(data.len(), 3);
        sextets_of(data.take(data.len() - r)) + group_sextets(data.skip(data.len() - r))
    }
}

/// The base64url text of `data`, without padding.
pub open spec fn encode_spec(data: Seq<u8>) -> Seq<u8> {
    sextets_of(data).map_values(|v: u8| symbol_of(v))
}

proof fn lemma_group_sextets_small(g: Seq<u8>)
    requires
        1 <= g.len() <= 3,
    ensures
        group_sextets(g).len() == g.len() + 1,
        forall|j: int| 0 <= j < group_sextets(g).len() ==> #[trigger] group_sextets(g)[j] < 64,
{
    let a = g[0];
    let b = if g.len() > 1 { g[1] } else { 0u8 };
    let c = if g.len() > 2 { g[2] } else { 0u8 };
    assert(a >> 2u8 < 64u8) by (bit_vector);
    assert(((a & 3u8) << 4u8) | (b >> 4u8) < 64u8) by (bit_vector);
    assert(((b & 15u8) << 2u8) | (c >> 6u8) < 64u8) by (bit_vector);
    assert(c & 63u8 < 64u8) by (bit_vector);
}

/// Simple Base64URL encoder without padding.
#[verifier::spinoff_prover]
pub fn base64url_encode_no_pad(data: &[u8]) -> (result: Vec<u8>)
    ensures
        result@ == encode_spec(data@),
{
    let n = data.len();
    let mut result: Vec<u8> = Vec::new();
    let mut i: usize = 0;
    while i < n
        invariant
            n == data@.len(),
            i <= n,
            i % 3 == 0,
            result@ == encode_spec(data@.take(i as int)),
        decreases n - i,
    {
        let len: usize = if n - i >= 3 { 3 } else { n - i };
        let a = data[i];
        let b = if len > 1 { data[i + 1] } else { 0u8 };
        let c = if len > 2 { data[i + 2] } else { 0u8 };
        let s0 = a >> 2u8;
        let s1 = ((a & 3u8) << 4u8) | (b >> 4u8);
        let s2 = ((b & 15u8) << 2u8) | (c >> 6u8);
        let s3 = c & 63u8;
        let ghost g = data@.subrange(i as int, i + len);
        let ghost prev = result@;
        proof {
            lemma_group_sextets_small(g);
            assert(g[0] == a);
            assert(len > 1 ==> g[1] == b);
            assert(len > 2 ==> g[2] == c);
            assert(s0 < 64 && s1 < 64 && s2 < 64 && s3 < 64) by {
                assert(a >> 2u8 < 64u8) by (bit_vector);
                assert(((a & 3u8) << 4u8) | (b >> 4u8) < 64u8) by (bit_vector);
                assert(((b & 15u8) << 2u8) | (c >> 6u8) < 64u8) by (bit_vector);
                assert(c & 63u8 < 64u8) by (bit_vector);
            }
        }
        result.push(symbol(s0));
        result.push(symbol(s1));
        if len > 1 {
            result.push(symbol(s2));
        }
        if len > 2 {
            result.push(symbol(s3));
        }
        proof {
            let t = data@.take(i + len);
            assert(last_group_len(t.len(), 3) == len);
            assert(t.take(t.len() - last_group_len(t.len(), 3)) =~= data@.take(i as int));
            assert(t.skip(t.len() - last_group_len(t.len(), 3)) =~= g);
            let gs = group_sextets(g);
            assert(sextets_of(t) == sextets_of(data@.take(i as int)) + gs);
            assert(gs.map_values(|v: u8| symbol_of(v)) =~= result@.skip(prev.len() as int));
            assert(result@ =~= prev + gs.map_values(|v: u8| symbol_of(v)));
            assert(encode_spec(t) =~= encode_spec(data@.take(i as int)) + gs.map_values(
                |v: u8| symbol_of(v),
            ));
        }
        if len < 3 {
            assert(data@.take(i + len) =~= data@);
            return result;
        }
        i = i + len;
    }
    assert(data@.take(n as int) =~= data@);
    result
}


/// The sextets that a text stands for: padding symbols `=` (61) are skipped anywhere,
/// any other symbol outside the alphabet makes the text invalid (`None`).
pub open spec fn text_sextets(text: Seq<u8>) -> Option<Seq<u8>>
    decreases text.len(),
{
    if text.len() == 0 {
        Some(seq![])
    } else {
        match text_sextets(text.drop_last()) {
            None => None,
            Some(prev) => if text.last() == 61 {
                Some(prev)
            } else {
                match symbol_value(text.last()) {
                    Some(v) => Some(prev.push(v)),
                    None => None,
                }
            },
        }
    }
}

/// The bytes of a group of one to four sextets: 3, 2, 1 or 0 of them; the bits of a
/// short group that do not fill a byte are dropped.
pub open spec fn group_bytes(g: Seq<u8>) -> Seq<u8> {
    let v0 = g[0];
    let v1 = if g.len() > 1 { g[1] } else { 0u8 };
    let v2 = if g.len() > 2 { g[2] } else { 0u8 };
    let v3 = if g.len() > 3 { g[3] } else { 0u8 };
    seq![(v0 << 2u8) | (v1 >> 4u8), ((v1 & 15u8) << 4u8) | (v2 >> 2u8), ((v2 & 3u8) << 6u8) | v3].take(
        g.len() - 1,
    )
}

/// The bytes of a sequence of sextets: its groups of four from the front, each turned
/// into bytes by `group_bytes`.
pub open spec fn bytes_of_sextets(s: Seq<u8>) -> Seq<u8>
    decreases s.len(),
{
    if s.len() == 0 {
        seq![]
    } else {
        let r = last_group_len(s.len(), 4);
        bytes_of_sextets(s.take(s.len() - r)) + group_bytes(s.skip(s.len() - r))
    }
}

/// What the decoder returns for a text: `None` when a symbol is neither in the
/// alphabet nor `=`, else the bytes of its sextets.
pub open spec fn decode_spec(text: Seq<u8>) -> Option<Seq<u8>> {
    match text_sextets(text) {
        Some(s) => Some(bytes_of_sextets(s)),
        None => None,
    }
}

/// The bits that the streaming decoder holds back after the sextets `s`.
pub open spec fn pending_bits(s: Seq<u8>) -> (u32, u32) {
    let k = s.len() % 4;
    if k == 0 {
        (0u32, 0u32)
    } else if k == 1 {
        (s.last() as u32, 6u32)
    } else if k == 2 {
        ((s.last() & 15u8) as u32, 4u32)
    } else {
        ((s.last() & 3u8) as u32, 2u32)
    }
}

proof fn lemma_text_sextets_invalid_prefix(text: Seq<u8>, i: int)
    requires
        0 <= i <= text.len(),
        text_sextets(text.take(i)) is None,
    ensures
        text_sextets(text) is None,
    decreases text.len() - i,
{
    if i < text.len() {
        assert(text.take(i + 1).drop_last() =~= text.take(i));
        lemma_text_sextets_invalid_prefix(text, i + 1);
    } else {
        assert(text.take(i) =~= text);
    }
}

fn symbol_value_exec(c: u8) -> (r: Option<u8>)
    ensures
        r == symbol_value(c),
{
    if 65 <= c && c <= 90 {
        Some(c - 65)
    } else if 97 <= c && c <= 122 {
        Some(c - 97 + 26)
    } else if 48 <= c && c <= 57 {
        Some(c - 48 + 52)
    } else if c == 45 {
        Some(62)
    } else if c == 95 {
        Some(63)
    } else {
        None
    }
}

/// One step of the streaming decoder on the sextet `v`: the bytes it emits and the
/// new state agree with `bytes_of_sextets` on the longer sequence.
#[verifier::spinoff_prover]
proof fn lemma_decode_step(s: Seq<u8>, v: u8)
    requires
        v < 64,
        forall|j: int| 0 <= j < s.len() ==> #[trigger] s[j] < 64,
    ensures
        ({
            let (buf, bits) = pending_bits(s);
            let buf2 = (buf << 6u32) | (v as u32);
            let bits2 = bits + 6;
            let t = s.push(v);
            &&& buf < 64 && bits <= 6
            &&& bits2 >= 8 ==> {
                &&& bytes_of_sextets(t) == bytes_of_sextets(s).push((buf2 >> ((bits2 - 8) as u32)) as u8)
                &&& (1u32 << ((bits2 - 8) as u32)) >= 1u32
                &&& pending_bits(t) == (buf2 & (((1u32 << ((bits2 - 8) as u32)) - 1u32) as u32), (bits2 - 8) as u32)
            }
            &&& bits2 < 8 ==> {
                &&& bytes_of_sextets(t) == bytes_of_sextets(s)
                &&& pending_bits(t) == (buf2, bits2 as u32)
            }
        }),
{
    let n = s.len();
    let t = s.push(v);
    let k = n % 4;
    let r = last_group_len(t.len(), 4);
    assert(r == k + 1);
    assert(t.take(t.len() - r) =~= s.take(n - k));
    let g = t.skip(t.len() - r);
    assert(t.last() == v);
    if k == 0 {
        assert(g =~= seq![v]);
        assert(group_bytes(g) =~= seq![]);
        if n > 0 {
            assert(last_group_len(n, 4) == 4);
        }
        assert(s.take(n - 0) =~= s);
        assert(bytes_of_sextets(t) =~= bytes_of_sextets(s));
        assert(((0u32 << 6u32) | (v as u32)) == v as u32) by (bit_vector);
    } else {
        assert(last_group_len(n, 4) == k);
        let g0 = s.skip(n - k);
        assert(g =~= g0.push(v));
        assert(bytes_of_sextets(s) == bytes_of_sextets(s.take(n - k)) + group_bytes(g0));
        let p = s.last();
        assert(p < 64);
        if k == 1 {
            assert(g0 =~= seq![p]);
            let x = p;
            assert(((((x as u32) << 6u32) | (v as u32)) >> 4u32) as u8 == (x << 2u8) | (v >> 4u8))
                by (bit_vector)
                requires
                    x < 64u8,
                    v < 64u8,
            ;
            assert(((((x as u32) << 6u32) | (v as u32)) & (((1u32 << 4u32) - 1u32) as u32)) == (v & 15u8) as u32)
                by (bit_vector)
                requires
                    x < 64u8,
                    v < 64u8,
            ;
            assert(group_bytes(g) =~= group_bytes(g0).push((p << 2u8) | (v >> 4u8)));
        } else if k == 2 {
            let p1 = g0[0];
            assert(g0 =~= seq![p1, p]);
            let x = p & 15u8;
            assert(((((x as u32) << 6u32) | (v as u32)) >> 2u32) as u8 == ((p & 15u8) << 4u8) | (v >> 2u8))
                by (bit_vector)
                requires
                    x == p & 15u8,
                    v < 64u8,
            ;
            assert(((((x as u32) << 6u32) | (v as u32)) & (((1u32 << 2u32) - 1u32) as u32)) == (v & 3u8) as u32)
                by (bit_vector)
                requires
                    x == p & 15u8,
                    v < 64u8,
            ;
            assert(group_bytes(g) =~= group_bytes(g0).push(((p & 15u8) << 4u8) | (v >> 2u8)));
        } else {
            let p1 = g0[0];
            let p2 = g0[1];
            assert(g0 =~= seq![p1, p2, p]);
            let x = p & 3u8;
            assert(((((x as u32) << 6u32) | (v as u32)) >> 0u32) as u8 == ((p & 3u8) << 6u8) | v)
                by (bit_vector)
                requires
                    x == p & 3u8,
                    v < 64u8,
            ;
            assert(((((x as u32) << 6u32) | (v as u32)) & (((1u32 << 0u32) - 1u32) as u32)) == 0u32)
                by (bit_vector)
                requires
                    x == p & 3u8,
                    v < 64u8,
            ;
            assert(group_bytes(g) =~= group_bytes(g0).push(((p & 3u8) << 6u8) | v));
        }
        assert(bytes_of_sextets(t) =~= bytes_of_sextets(s).push(group_bytes(g).last()));
    }
    assert(1u32 << 4u32 == 16u32) by (bit_vector);
    assert(1u32 << 2u32 == 4u32) by (bit_vector);
    assert(1u32 << 0u32 == 1u32) by (bit_vector);
    if n > 0 {
        let l = s.last();
        assert((l & 15u8) < 64u8) by (bit_vector);
        assert((l & 3u8) < 64u8) by (bit_vector);
    }
}

/// Base64URL decoder (handles no padding).
/// Returns None if invalid base64url.
#[verifier::spinoff_prover]
pub fn base64url_decode(input: &[u8]) -> (r: Option<Vec<u8>>)
    ensures
        match r {
            Some(v) => decode_spec(input@) == Some(v@),
            None => decode_spec(input@) is None,
        },
{
    let mut result: Vec<u8> = Vec::new();
    let mut buf: u32 = 0;
    let mut bits: u32 = 0;
    let ghost mut vals: Seq<u8> = seq![];
    let n = input.len();
    let mut i: usize = 0;
    while i < n
        invariant
            n == input@.len(),
            i <= n,
            text_sextets(input@.take(i as int)) == Some(vals),
            forall|j: int| 0 <= j < vals.len() ==> #[trigger] vals[j] < 64,
            result@ == bytes_of_sextets(vals),
            (buf, bits) == pending_bits(vals),
        decreases n - i,
    {
        let c = input[i];
        proof {
            assert(input@.take(i + 1).drop_last() =~= input@.take(i as int));
        }
        if c == 61 {
            i = i + 1;
        } else {
            let val = match symbol_value_exec(c) {
                Some(v) => v,
                None => {
                    proof {
                        lemma_text_sextets_invalid_prefix(input@, i + 1);
                    }
                    return None;
                },
            };
            proof {
                lemma_decode_step(vals, val);
            }
            buf = (buf << 6u32) | (val as u32);
            bits = bits + 6;
            if bits >= 8 {
                bits = bits - 8;
                result.push((buf >> bits) as u8);
                buf = buf & ((1u32 << bits) - 1);
            }
            proof {
                vals = vals.push(val);
            }
            i = i + 1;
        }
    }
    assert(input@.take(n as int) =~= input@);
    Some(result)
}


proof fn lemma_symbol_roundtrip(v: u8)
    requires
        v < 64,
    ensures
        symbol_value(symbol_of(v)) == Some(v),
        symbol_of(v) != 61,
{
}

proof fn lemma_text_of_symbols(s: Seq<u8>)
    requires
        forall|j: int| 0 <= j < s.len() ==> #[trigger] s[j] < 64,
    ensures
        text_sextets(s.map_values(|v: u8| symbol_of(v))) == Some(s),
    decreases s.len(),
{
    let t = s.map_values(|v: u8| symbol_of(v));
    if s.len() > 0 {
        assert(t.drop_last() =~= s.drop_last().map_values(|v: u8| symbol_of(v)));
        lemma_text_of_symbols(s.drop_last());
        lemma_symbol_roundtrip(s.last());
        assert(s.drop_last().push(s.last()) =~= s);
    }
}

pub proof fn lemma_sextets_of_shape(data: Seq<u8>)
    ensures
        forall|j: int| 0 <= j < sextets_of(data).len() ==> #[trigger] sextets_of(data)[j] < 64,
        data.len() % 3 == 0 ==> sextets_of(data).len() == data.len() / 3 * 4,
    decreases data.len(),
{
    if data.len() > 0 {
        let r = last_group_len(data.len(), 3);
        let p = data.take(data.len() - r);
        let g = data.skip(data.len() - r);
        lemma_sextets_of_shape(p);
        lemma_group_sextets_small(g);
        let a = sextets_of(p);
        let b = group_sextets(g);
        assert forall|j: int| 0 <= j < sextets_of(data).len() implies #[trigger] sextets_of(data)[j] < 64 by {
            if j >= a.len() {
                assert(sextets_of(data)[j] == b[j - a.len()]);
            }
        }
    }
}

proof fn lemma_group_roundtrip(g: Seq<u8>)
    requires
        1 <= g.len() <= 3,
    ensures
        group_bytes(group_sextets(g)) == g,
{
    let a = g[0];
    let b = if g.len() > 1 { g[1] } else { 0u8 };
    let c = if g.len() > 2 { g[2] } else { 0u8 };
    let s0 = a >> 2u8;
    let s1 = ((a & 3u8) << 4u8) | (b >> 4u8);
    let s2 = ((b & 15u8) << 2u8) | (c >> 6u8);
    let s3 = c & 63u8;
    assert((s0 << 2u8) | (s1 >> 4u8) == a) by (bit_vector)
        requires
            s0 == a >> 2u8,
            s1 == ((a & 3u8) << 4u8) | (b >> 4u8),
    ;
    assert(((s1 & 15u8) << 4u8) | (s2 >> 2u8) == b) by (bit_vector)
        requires
            s1 == ((a & 3u8) << 4u8) | (b >> 4u8),
            s2 == ((b & 15u8) << 2u8) | (c >> 6u8),
    ;
    assert(((s2 & 3u8) << 6u8) | s3 == c) by (bit_vector)
        requires
            s2 == ((b & 15u8) << 2u8) | (c >> 6u8),
            s3 == c & 63u8,
    ;
    let gs = group_sextets(g);
    assert(gs[0] == s0);
    assert(gs[1] == s1);
    assert(g.len() > 1 ==> gs[2] == s2);
    assert(g.len() > 2 ==> gs[3] == s3);
    assert(group_bytes(gs) =~= g);
}

/// Decoding the unpadded base64url text of any byte string gives the byte string back.
pub proof fn lemma_decode_encode_roundtrip(data: Seq<u8>)
    ensures
        decode_spec(encode_spec(data)) == Some(data),
{
    lemma_sextets_of_shape(data);
    lemma_text_of_symbols(sextets_of(data));
    lemma_bytes_of_sextets_of(data);
}

#[verifier::spinoff_prover]
proof fn lemma_bytes_of_sextets_of(data: Seq<u8>)
    ensures
        bytes_of_sextets(sextets_of(data)) == data,
    decreases data.len(),
{
    if data.len() > 0 {
        let n = data.len();
        let r = last_group_len(n, 3);
        let p = data.take(n - r);
        let g = data.skip(n - r);
        assert(p.len() % 3 == 0);
        lemma_sextets_of_shape(p);
        lemma_group_sextets_small(g);
        lemma_bytes_of_sextets_of(p);
        lemma_group_roundtrip(g);
        let a = sextets_of(p);
        let b = group_sextets(g);
        let s = a + b;
        assert(a.len() % 4 == 0);
        assert(last_group_len(s.len(), 4) == r + 1);
        assert(s.take(s.len() - (r + 1)) =~= a);
        assert(s.skip(s.len() - (r + 1)) =~= b);
        assert(p + g =~= data);
    }
}


/// Padding is ignored: appending `=` symbols to a text does not change what it decodes to.
pub proof fn lemma_decode_ignores_padding(text: Seq<u8>, k: nat)
    ensures
        decode_spec(text + Seq::new(k, |i: int| 61u8)) == decode_spec(text),
    decreases k,
{
    let padded = text + Seq::new(k, |i: int| 61u8);
    if k > 0 {
        lemma_decode_ignores_padding(text, (k - 1) as nat);
        assert(padded.drop_last() =~= text + Seq::new((k - 1) as nat, |i: int| 61u8));
    } else {
        assert(padded =~= text);
    }
}


/// The encoder's text carries no padding and only symbols of the base64url alphabet.
pub proof fn lemma_encoding_alphabet(data: Seq<u8>)
    ensures
        forall|i: int|
            0 <= i < encode_spec(data).len() ==> symbol_value(#[trigger] encode_spec(data)[i]) is Some
                && encode_spec(data)[i] != 61,
{
    lemma_sextets_of_shape(data);
    assert forall|i: int| 0 <= i < encode_spec(data).len() implies symbol_value(#[trigger] encode_spec(data)[i]) is Some
        && encode_spec(data)[i] != 61 by {
        lemma_symbol_roundtrip(sextets_of(data)[i]);
    }
}

/// Decoding skips a padding symbol `=` wherever it stands: removing one from a text
/// does not change what the text decodes to.
pub proof fn lemma_decode_ignores_padding_anywhere(a: Seq<u8>, b: Seq<u8>)
    ensures
        decode_spec(a + seq![61u8] + b) == decode_spec(a + b),
{
    lemma_text_sextets_skip_padding(a, b);
}

proof fn lemma_text_sextets_skip_padding(a: Seq<u8>, b: Seq<u8>)
    ensures
        text_sextets(a + seq![61u8] + b) == text_sextets(a + b),
    decreases b.len(),
{
    let t = a + seq![61u8] + b;
    if b.len() == 0 {
        assert(t.drop_last() =~= a);
        assert(a + b =~= a);
    } else {
        lemma_text_sextets_skip_padding(a, b.drop_last());
        assert(t.drop_last() =~= a + seq![61u8] + b.drop_last());
        assert((a + b).drop_last() =~= a + b.drop_last());
    }
}

/// Encoding works on groups of three bytes: the text of a byte string whose first part
/// fills whole groups is the text of that part followed by the text of the rest.
pub proof fn lemma_encode_concat(a: Seq<u8>, b: Seq<u8>)
    requires
        a.len() % 3 == 0,
    ensures
        encode_spec(a + b) == encode_spec(a) + encode_spec(b),
{
    lemma_sextets_concat(a, b);
    assert(encode_spec(a + b) =~= encode_spec(a) + encode_spec(b));
}

proof fn lemma_sextets_concat(a: Seq<u8>, b: Seq<u8>)
    requires
        a.len() % 3 == 0,
    ensures
        sextets_of(a + b) == sextets_of(a) + sextets_of(b),
    decreases b.len(),
{
    if b.len() == 0 {
        assert(a + b =~= a);
        assert(sextets_of(a) + sextets_of(b) =~= sextets_of(a));
    } else {
        let n = (a.len() + b.len()) as nat;
        let m = b.len();
        let la = a.len() as int;
        assert((la + m - 1) % 3 == (m - 1) % 3) by (nonlinear_arith)
            requires
                la % 3 == 0,
                la >= 0,
                m >= 1,
        ;
        let r = last_group_len(m, 3);
        assert(last_group_len(n, 3) == r);
        let bt = b.take(m - r);
        assert((a + b).take(n - r) =~= a + bt);
        assert((a + b).skip(n - r) =~= b.skip(m - r));
        lemma_sextets_concat(a, bt);
        assert(sextets_of(a + b) =~= sextets_of(a) + sextets_of(b));
    }
}

/// The base64url alphabet of RFC 4648, section 5, in the order of the values it stands for.
pub open spec fn base64url_alphabet() -> Seq<u8> {
    "ABCDEFGHIJKLMNOPQRSTUVWXYZabcdefghijklmnopqrstuvwxyz0123456789-_".spec_bytes()
}

proof fn lemma_alphabet_bytes()
    ensures
        base64url_alphabet().len() == 64,
        forall|v: int| 0 <= v < 64 ==> #[trigger] base64url_alphabet()[v] == symbol_of(v as u8),
{
    reveal_strlit("ABCDEFGHIJKLMNOPQRSTUVWXYZabcdefghijklmnopqrstuvwxyz0123456789-_");
    broadcast use vstd::string::is_ascii_spec_bytes;

    assert(vstd::string::is_ascii("ABCDEFGHIJKLMNOPQRSTUVWXYZabcdefghijklmnopqrstuvwxyz0123456789-_"));
    let a = base64url_alphabet();
    assert(a.len() == 64);
    assert forall|v: int| 0 <= v < 64 implies #[trigger] a[v] == symbol_of(v as u8) by {
        assert(a[0] == 65u8);
        assert(a[1] == 66u8);
        assert(a[2] == 67u8);
        assert(a[3] == 68u8);
        assert(a[4] == 69u8);
        assert(a[5] == 70u8);
        assert(a[6] == 71u8);
        assert(a[7] == 72u8);
        assert(a[8] == 73u8);
        assert(a[9] == 74u8);
        assert(a[10] == 75u8);
        assert(a[11] == 76u8);
        assert(a[12] == 77u8);
        assert(a[13] == 78u8);
        assert(a[14] == 79u8);
        assert(a[15] == 80u8);
        assert(a[16] == 81u8);
        assert(a[17] == 82u8);
        assert(a[18] == 83u8);
        assert(a[19] == 84u8);
        assert(a[20] == 85u8);
        assert(a[21] == 86u8);
        assert(a[22] == 87u8);
        assert(a[23] == 88u8);
        assert(a[24] == 89u8);
        assert(a[25] == 90u8);
        assert(a[26] == 97u8);
        assert(a[27] == 98u8);
        assert(a[28] == 99u8);
        assert(a[29] == 100u8);
        assert(a[30] == 101u8);
        assert(a[31] == 102u8);
        assert(a[32] == 103u8);
        assert(a[33] == 104u8);
        assert(a[34] == 105u8);
        assert(a[35] == 106u8);
        assert(a[36] == 107u8);
        assert(a[37] == 108u8);
        assert(a[38] == 109u8);
        assert(a[39] == 110u8);
        assert(a[40] == 111u8);
        assert(a[41] == 112u8);
        assert(a[42] == 113u8);
        assert(a[43] == 114u8);
        assert(a[44] == 115u8);
        assert(a[45] == 116u8);
        assert(a[46] == 117u8);
        assert(a[47] == 118u8);
        assert(a[48] == 119u8);
        assert(a[49] == 120u8);
        assert(a[50] == 121u8);
        assert(a[51] == 122u8);
        assert(a[52] == 48u8);
        assert(a[53] == 49u8);
        assert(a[54] == 50u8);
        assert(a[55] == 51u8);
        assert(a[56] == 52u8);
        assert(a[57] == 53u8);
        assert(a[58] == 54u8);
        assert(a[59] == 55u8);
        assert(a[60] == 56u8);
        assert(a[61] == 57u8);
        assert(a[62] == 45u8);
        assert(a[63] == 95u8);
        assert(v == 0 || v == 1 || v == 2 || v == 3 || v == 4 || v == 5 || v == 6 || v == 7 || v == 8 || v == 9 || v == 10 || v == 11 || v == 12 || v == 13 || v == 14 || v == 15 || v == 16 || v == 17 || v == 18 || v == 19 || v == 20 || v == 21 || v == 22 || v == 23 || v == 24 || v == 25 || v == 26 || v == 27 || v == 28 || v == 29 || v == 30 || v == 31 || v == 32 || v == 33 || v == 34 || v == 35 || v == 36 || v == 37 || v == 38 || v == 39 || v == 40 || v == 41 || v == 42 || v == 43 || v == 44 || v == 45 || v == 46 || v == 47 || v == 48 || v == 49 || v == 50 || v == 51 || v == 52 || v == 53 || v == 54 || v == 55 || v == 56 || v == 57 || v == 58 || v == 59 || v == 60 || v == 61 || v == 62 || v == 63);
    }
}

/// The alphabet, over every value and every byte: the symbol of the value `v` is the
/// `v`-th character of `ABC…XYZabc…xyz012…789-_`, the decoder's value of a character of
/// the alphabet is its position there, and no other byte has a value.
pub proof fn lemma_base64url_alphabet(v: u8, c: u8)
    ensures
        v < 64 ==> symbol_of(v) == base64url_alphabet()[v as int],
        v < 64 ==> symbol_value(base64url_alphabet()[v as int]) == Some(v),
        symbol_value(c) matches Some(w) ==> w < 64 && base64url_alphabet()[w as int] == c,
        symbol_value(c) is None ==> forall|i: int| 0 <= i < 64 ==> base64url_alphabet()[i] != c,
{
    lemma_alphabet_bytes();
    if v < 64 {
        lemma_symbol_roundtrip(v);
    }
    if let Some(w) = symbol_value(c) {
        assert(base64url_alphabet()[w as int] == symbol_of(w));
    } else {
        assert forall|i: int| 0 <= i < 64 implies base64url_alphabet()[i] != c by {
            lemma_symbol_roundtrip(i as u8);
        }
    }
}

} // verus!
