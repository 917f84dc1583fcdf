//! Re-encoding of compact `(r, s)` ECDSA signatures as DER.
use crate::error::WalletError;
use crate::script::append_range;
use vstd::prelude::*;

verus! {

/// The DER INTEGER contents of an unsigned big-endian value: a zero byte is prepended when the
/// high bit is set, so the value stays non-negative.
pub open spec fn der_int(x: Seq<u8>) -> Seq<u8> {
    if x.len() > 0 && x[0] >= 0x80 {
        seq![0u8] + x
    } else {
        x
    }
}

/// `SEQUENCE { INTEGER r, INTEGER s }` for a 64-byte compact signature `r || s`.
pub open spec fn der_of(sig: Seq<u8>) -> Seq<u8> {
    let r = der_int(sig.take(32));
    let s = der_int(sig.skip(32));
    seq![0x30u8, (4 + r.len() + s.len()) as u8, 0x02u8, r.len() as u8] + r + seq![
        0x02u8,
        s.len() as u8,
    ] + s
}

/// The 32-byte unsigned value held by DER INTEGER contents: a leading zero that widens it to
/// 33 bytes is stripped.
pub open spec fn der_uint(c: Seq<u8>) -> Seq<u8> {
    if c.len() == 33 && c[0] == 0 {
        c.skip(1)
    } else {
        c
    }
}

/// Reads `SEQUENCE { INTEGER r, INTEGER s }` back into the unsigned values `(r, s)`.
pub open spec fn der_decode(d: Seq<u8>) -> Option<(Seq<u8>, Seq<u8>)> {
    if d.len() >= 6 && d[0] == 0x30 && d[1] as nat + 2 == d.len() && d[2] == 0x02 {
        let rl = d[3] as int;
        if 6 + rl <= d.len() && d[4 + rl] == 0x02 && 6 + rl + d[5 + rl] as int == d.len() {
            Some((der_uint(d.subrange(4, 4 + rl)), der_uint(d.subrange(6 + rl, d.len() as int))))
        } else {
            None
        }
    } else {
        None
    }
}

/// Appends the DER INTEGER contents of `x[from..from + 32]`.
fn push_der_int(out: &mut Vec<u8>, x: &[u8], from: usize)
    requires
        from + 32 <= x@.len(),
    ensures
        final(out)@ == old(out)@ + der_int(x@.subrange(from as int, from + 32)),
{
    if x[from] >= 0x80 {
        out.push(0);
    }
    append_range(out, x, from, from + 32);
    assert(final(out)@ =~= old(out)@ + der_int(x@.subrange(from as int, from + 32)));
}

/// Converts a 64-byte compact signature `r || s` to DER. Any other length is refused.
pub fn sec1_to_der(sec1_signature: Vec<u8>) -> (r: Result<Vec<u8>, WalletError>)
    ensures
        sec1_signature@.len() == 64 ==> (r matches Ok(d) && d@ == der_of(sec1_signature@)),
        sec1_signature@.len() != 64 ==> r == Err::<Vec<u8>, WalletError>(
            WalletError::MalformedInput,
        ),
{
    if sec1_signature.len() != 64 {
        return Err(WalletError::MalformedInput);
    }
    let sig = sec1_signature.as_slice();
    let mut r: Vec<u8> = Vec::new();
    push_der_int(&mut r, sig, 0);
    let mut s: Vec<u8> = Vec::new();
    push_der_int(&mut s, sig, 32);
    let mut out: Vec<u8> = Vec::new();
    out.push(0x30);
    out.push((4 + r.len() + s.len()) as u8);
    out.push(0x02);
    out.push(r.len() as u8);
    append_range(&mut out, r.as_slice(), 0, r.len());
    out.push(0x02);
    out.push(s.len() as u8);
    append_range(&mut out, s.as_slice(), 0, s.len());
    proof {
        assert(sig@.subrange(0, 32) =~= sig@.take(32));
        assert(sig@.subrange(32, 64) =~= sig@.skip(32));
        assert(r@.subrange(0, r@.len() as int) =~= r@);
        assert(s@.subrange(0, s@.len() as int) =~= s@);
        assert(out@ =~= der_of(sec1_signature@));
    }
    Ok(out)
}

/// DER-decoding the re-encoding of any 64-byte compact signature yields the same `r` and
/// `s`, with the sign-guarding zero bytes stripped.
pub proof fn lemma_der_round_trip(sig: Seq<u8>)
    requires
        sig.len() == 64,
    ensures
        der_decode(der_of(sig)) == Some((sig.take(32), sig.skip(32))),
{
    let r = der_int(sig.take(32));
    let s = der_int(sig.skip(32));
    let d = der_of(sig);
    let rl = r.len() as int;
    assert(d.subrange(4, 4 + rl) =~= r);
    assert(d.subrange(6 + rl, d.len() as int) =~= s);
    assert(d[4 + rl] == 0x02);
    assert(d[5 + rl] == s.len() as u8);
    assert(d[1] as nat + 2 == d.len());
    assert(d[3] as int == rl);
    if sig[0] >= 0x80 {
        assert(r.skip(1) =~= sig.take(32));
    }
    if sig[32] >= 0x80 {
        assert(s.skip(1) =~= sig.skip(32));
    }
}

} // verus!
