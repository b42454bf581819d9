//! The protocol envelope and its wire codec.
//!
//! An envelope carries a correlation identifier between peers. On the wire it
//! is a protobuf message: nothing at all when the identifier is empty (the
//! default value of a proto3 string field is omitted), otherwise the field
//! header for a length-delimited field number 1, the byte length of the
//! identifier as an unsigned LEB128 varint, and its UTF-8 bytes.

use vstd::prelude::*;
use vstd::arithmetic::div_mod::lemma_fundamental_div_mod;
use vstd::string::StringSliceAdditionalSpecFns;
use vstd::utf8::{encode_utf8, encode_utf8_decode_utf8, encode_utf8_valid_utf8, valid_utf8};

verus! {

/// The message envelope: a correlation identifier.
#[derive(Debug, Clone, PartialEq)]
pub struct AxcpEnvelope {
    /// The identifier that correlates the envelope with its trace.
    pub trace_id: String,
}

impl Default for AxcpEnvelope {
    /// An envelope with an empty identifier.
    fn default() -> (r: Self)
        ensures
            r.trace_id@ == Seq::<char>::empty(),
    {
        AxcpEnvelope { trace_id: String::new() }
    }
}

/// The unsigned LEB128 encoding of `x`: seven bits per byte, least
/// significant first, the high bit of a byte marking a continuation.
pub open spec fn varint(x: nat) -> Seq<u8>
    decreases x,
{
    if x < 128 {
        seq![x as u8]
    } else {
        seq![(128 + x % 128) as u8] + varint(x / 128)
    }
}

/// `x` is encoded as a varint at the front of `bytes`.
pub open spec fn is_varint_of(bytes: Seq<u8>, x: nat) -> bool {
    varint(x).len() <= bytes.len() && bytes.take(varint(x).len() as int) == varint(x)
}

/// Some value is encoded as a varint at the front of `bytes`.
pub open spec fn starts_with_varint(bytes: Seq<u8>) -> bool {
    exists|x: u64| #[trigger] is_varint_of(bytes, x as nat)
}

/// The wire bytes of an envelope.
pub open spec fn envelope_bytes(env: AxcpEnvelope) -> Seq<u8> {
    let payload = encode_utf8(env.trace_id@);
    if payload.len() == 0 {
        Seq::empty()
    } else {
        seq![10u8] + varint(payload.len()) + payload
    }
}

/// A varint is self-delimiting: a varint followed by anything determines
/// both the encoded value and the remainder.
pub proof fn lemma_varint_unambiguous(x: nat, y: nat, s: Seq<u8>, t: Seq<u8>)
    requires
        varint(x) + s == varint(y) + t,
    ensures
        x == y,
        s == t,
    decreases x,
{
    let vx = varint(x);
    let vy = varint(y);
    assert((vx + s)[0] == (vy + t)[0]);
    if x < 128 && y < 128 {
        assert(x == y);
        assert(s =~= t) by {
            assert(s.len() == t.len());
            assert forall|i: int| 0 <= i < s.len() implies s[i] == t[i] by {
                assert((vx + s)[i + 1] == (vy + t)[i + 1]);
            }
        }
    } else if x >= 128 && y >= 128 {
        assert(128 + x % 128 < 256 && 128 + y % 128 < 256);
        assert(x % 128 == y % 128);
        assert((vx + s).skip(1) =~= varint(x / 128) + s);
        assert((vy + t).skip(1) =~= varint(y / 128) + t);
        lemma_varint_unambiguous(x / 128, y / 128, s, t);
        lemma_fundamental_div_mod(x as int, 128);
        lemma_fundamental_div_mod(y as int, 128);
    } else {
        assert(false);
    }
}

/// A nonempty character sequence has a nonempty UTF-8 encoding.
proof fn lemma_encode_utf8_nonempty(chars: Seq<char>)
    requires
        chars.len() > 0,
    ensures
        encode_utf8(chars).len() > 0,
{
    assert(encode_utf8(chars).len() >= vstd::utf8::encode_scalar(chars[0] as u32).len());
}

/// The wire encoding is injective: two envelopes with the same encoding
/// carry the same identifier, so decoding what was encoded gives back the
/// identifier that went in.
pub proof fn lemma_envelope_bytes_injective(a: AxcpEnvelope, b: AxcpEnvelope)
    requires
        envelope_bytes(a) == envelope_bytes(b),
    ensures
        a.trace_id@ == b.trace_id@,
{
    let pa = encode_utf8(a.trace_id@);
    let pb = encode_utf8(b.trace_id@);
    if pa.len() == 0 && pb.len() == 0 {
        if a.trace_id@.len() > 0 {
            lemma_encode_utf8_nonempty(a.trace_id@);
        }
        if b.trace_id@.len() > 0 {
            lemma_encode_utf8_nonempty(b.trace_id@);
        }
        assert(a.trace_id@ =~= b.trace_id@);
    } else if pa.len() > 0 && pb.len() > 0 {
        assert((seq![10u8] + varint(pa.len()) + pa).skip(1) =~= varint(pa.len()) + pa);
        assert((seq![10u8] + varint(pb.len()) + pb).skip(1) =~= varint(pb.len()) + pb);
        lemma_varint_unambiguous(pa.len(), pb.len(), pa, pb);
        encode_utf8_decode_utf8(a.trace_id@);
        encode_utf8_decode_utf8(b.trace_id@);
    } else {
        assert(envelope_bytes(a).len() != envelope_bytes(b).len());
        assert(false);
    }
}

/// Encodes an envelope into its wire bytes.
pub fn wrap(env: AxcpEnvelope) -> (r: Vec<u8>)
    ensures
        r@ == envelope_bytes(env),
{
    let bytes: &[u8] = env.trace_id.as_str().as_bytes();
    let mut out: Vec<u8> = Vec::new();
    if bytes.len() == 0 {
        return out;
    }
    out.push(10u8);
    let mut x: u64 = bytes.len() as u64;
    while x >= 128
        invariant
            out@ + varint(x as nat) == seq![10u8] + varint(bytes@.len()),
        decreases x,
    {
        let ghost pre = out@;
        out.push((x % 128) as u8 + 128);
        proof {
            assert(varint(x as nat) =~= seq![(128 + (x as nat) % 128) as u8] + varint(
                (x as nat) / 128,
            ));
            assert(pre + varint(x as nat) =~= out@ + varint((x as nat) / 128));
        }
        x = x / 128;
    }
    out.push(x as u8);
    assert(out@ =~= seq![10u8] + varint(bytes@.len()));
    let mut payload = vstd::slice::slice_to_vec(bytes);
    out.append(&mut payload);
    assert(out@ =~= seq![10u8] + varint(bytes@.len()) + bytes@);
    out
}

/// Reads the varint that the contract says stands at `start`, returning its
/// value and the position just past it.
fn read_varint(buf: &[u8], start: usize) -> (r: (u64, usize))
    requires
        start <= buf@.len(),
        starts_with_varint(buf@.skip(start as int)),
    ensures
        start < r.1 <= buf@.len(),
        buf@.subrange(start as int, r.1 as int) == varint(r.0 as nat),
    decreases buf@.len() - start,
{
    let n = buf.len();
    proof {
        let w = choose|x: u64| is_varint_of(buf@.skip(start as int), x as nat);
        assert(varint(w as nat).len() >= 1);
        assert(buf@.skip(start as int).len() >= 1);
        assert(start < n);
        assert(buf@.skip(start as int)[0] == varint(w as nat)[0]);
    }
    let b: u8 = *vstd::slice::slice_index_get(buf, start);
    proof {
        assert(buf@.skip(start as int)[0] == buf@[start as int]);
    }
    if b < 128 {
        proof {
            let w = choose|x: u64| is_varint_of(buf@.skip(start as int), x as nat);
            if w >= 128 {
                assert(varint(w as nat)[0] == (128 + (w as nat) % 128) as u8);
                assert(false);
            }
            assert(varint(w as nat) == seq![w as u8]);
            assert(buf@.subrange(start as int, start as int + 1) =~= varint(b as nat));
        }
        (b as u64, start + 1)
    } else {
        proof {
            let w = choose|x: u64| is_varint_of(buf@.skip(start as int), x as nat);
            if w < 128 {
                assert(varint(w as nat) == seq![w as u8]);
                assert(false);
            }
            let wn = w as nat;
            assert(varint(wn) =~= seq![(128 + wn % 128) as u8] + varint(wn / 128));
            assert(varint(wn).len() >= 2) by {
                assert(varint(wn / 128).len() >= 1);
            }
            let inner = (wn / 128) as u64;
            assert(inner as nat == wn / 128);
            assert(is_varint_of(buf@.skip(start as int + 1), inner as nat)) by {
                let sk = buf@.skip(start as int);
                let sk1 = buf@.skip(start as int + 1);
                assert(sk1 =~= sk.skip(1));
                let v1 = varint(wn / 128);
                assert(sk.take(varint(wn).len() as int) == varint(wn));
                assert forall|i: int| 0 <= i < v1.len() implies sk1.take(v1.len() as int)[i]
                    == v1[i] by {
                    assert(sk.take(varint(wn).len() as int)[i + 1] == varint(wn)[i + 1]);
                }
                assert(sk1.take(v1.len() as int) =~= v1);
            }
        }
        let (hi, end) = read_varint(buf, start + 1);
        proof {
            let w = choose|x: u64| is_varint_of(buf@.skip(start as int), x as nat);
            let wn = w as nat;
            let sk = buf@.skip(start as int);
            let sk1 = buf@.skip(start as int + 1);
            // the recursive call read the varint of wn / 128
            assert(buf@.subrange(start as int + 1, end as int) == varint(hi as nat));
            assert(sk1 =~= varint(hi as nat) + buf@.skip(end as int));
            assert(sk1 =~= varint(wn / 128) + sk1.skip(varint(wn / 128).len() as int)) by {
                assert(sk.take(varint(wn).len() as int) == varint(wn));
                assert(varint(wn) =~= seq![(128 + wn % 128) as u8] + varint(wn / 128));
                let v1 = varint(wn / 128);
                assert forall|i: int| 0 <= i < v1.len() implies sk1[i] == v1[i] by {
                    assert(sk.take(varint(wn).len() as int)[i + 1] == varint(wn)[i + 1]);
                }
                assert forall|i: int|
                    0 <= i < sk1.len() implies (varint(wn / 128) + sk1.skip(
                    varint(wn / 128).len() as int,
                ))[i] == sk1[i] by {}
            }
            lemma_varint_unambiguous(
                hi as nat,
                wn / 128,
                buf@.skip(end as int),
                sk1.skip(varint(wn / 128).len() as int),
            );
            // so hi == wn / 128, and the whole varint of wn ends at end
            lemma_fundamental_div_mod(wn as int, 128);
            assert((b - 128) as u64 + 128 * hi == w);
            assert(buf@.subrange(start as int, end as int) =~= seq![b] + buf@.subrange(
                start as int + 1,
                end as int,
            ));
            assert(b == (128 + wn % 128) as u8);
            assert(varint(wn) =~= seq![b] + varint(wn / 128));
            assert(buf@.subrange(start as int, end as int) =~= varint(wn));
            assert(((b - 128) as u64 + 128 * hi) as nat == wn);
        }
        ((b - 128) as u64 + 128 * hi, end)
    }
}

/// Relies on std::str::from_utf8: it succeeds exactly on valid UTF-8 input,
/// and the returned string slice is backed by the given bytes.
#[verifier::external_body]
fn bytes_as_str<'a>(v: &'a [u8]) -> (r: Option<&'a str>)
    ensures
        valid_utf8(v@) ==> r is Some,
        r matches Some(s) ==> s.spec_bytes() == v@,
{
    std::str::from_utf8(v).ok()
}

/// Decodes wire bytes back into the envelope they encode. The bytes must be
/// a well-formed envelope encoding; the identifier that was encoded comes
/// back unchanged.
pub fn unwrap(buf: &[u8]) -> (r: AxcpEnvelope)
    requires
        exists|env: AxcpEnvelope| buf@ == #[trigger] envelope_bytes(env),
    ensures
        envelope_bytes(r) == buf@,
        forall|env: AxcpEnvelope| buf@ == #[trigger] envelope_bytes(env) ==> r.trace_id@
            == env.trace_id@,
{
    let ghost env0 = choose|env: AxcpEnvelope| buf@ == envelope_bytes(env);
    let n = buf.len();
    if n == 0 {
        let r = AxcpEnvelope { trace_id: String::new() };
        proof {
            assert(envelope_bytes(r) =~= buf@);
            assert forall|env: AxcpEnvelope|
                buf@ == #[trigger] envelope_bytes(env) implies r.trace_id@ == env.trace_id@ by {
                lemma_envelope_bytes_injective(r, env);
            }
        }
        return r;
    }
    let ghost payload0 = encode_utf8(env0.trace_id@);
    proof {
        assert(payload0.len() > 0);
        assert(buf@ == seq![10u8] + varint(payload0.len()) + payload0);
        let l0 = payload0.len() as u64;
        assert(payload0.len() <= buf@.len());
        assert(is_varint_of(buf@.skip(1), l0 as nat)) by {
            assert(buf@.skip(1) =~= varint(payload0.len()) + payload0);
            assert(buf@.skip(1).take(varint(payload0.len()).len() as int) =~= varint(
                payload0.len(),
            ));
        }
    }
    let (len, pos) = read_varint(buf, 1);
    proof {
        assert(buf@.skip(1) =~= varint(payload0.len()) + payload0);
        assert(buf@.skip(1) =~= varint(len as nat) + buf@.skip(pos as int)) by {
            assert(buf@.subrange(1, pos as int) == varint(len as nat));
        }
        lemma_varint_unambiguous(
            len as nat,
            payload0.len(),
            buf@.skip(pos as int),
            payload0,
        );
        assert(buf@.skip(pos as int) == payload0);
        encode_utf8_valid_utf8(env0.trace_id@);
    }
    let payload = vstd::slice::slice_subrange(buf, pos, n);
    proof {
        assert(payload@ =~= buf@.skip(pos as int));
    }
    let trace_id: String = match bytes_as_str(payload) {
        Some(s) => s.to_owned(),
        None => {
            proof {
                assert(false);
            }
            String::new()
        },
    };
    proof {
        encode_utf8_decode_utf8(trace_id@);
        encode_utf8_decode_utf8(env0.trace_id@);
        assert(trace_id@ == env0.trace_id@);
    }
    let r = AxcpEnvelope { trace_id };
    proof {
        assert(envelope_bytes(r) == buf@);
        assert forall|env: AxcpEnvelope|
            buf@ == #[trigger] envelope_bytes(env) implies r.trace_id@ == env.trace_id@ by {
            lemma_envelope_bytes_injective(r, env);
        }
    }
    r
}

} // verus!
