//! Script building blocks: opcodes, data pushes and the pay-to-public-key-hash locking script.
use vstd::prelude::*;

verus! {

/// The largest data element a single push may carry.
pub const MAX_SCRIPT_ELEMENT_SIZE: usize = 520;

pub const OP_FALSE: u8 = 0x00;
pub const OP_PUSHDATA1: u8 = 0x4c;
pub const OP_PUSHDATA2: u8 = 0x4d;
pub const OP_IF: u8 = 0x63;
pub const OP_ENDIF: u8 = 0x68;
pub const OP_DUP: u8 = 0x76;
pub const OP_EQUALVERIFY: u8 = 0x88;
pub const OP_HASH160: u8 = 0xa9;
pub const OP_CHECKSIG: u8 = 0xac;

/// The push-opcode prefix that announces `n` bytes of data.
pub open spec fn push_header(n: nat) -> Seq<u8> {
    if n < 0x4c {
        seq![n as u8]
    } else if n < 0x100 {
        seq![OP_PUSHDATA1, n as u8]
    } else {
        seq![OP_PUSHDATA2, (n % 0x100) as u8, (n / 0x100) as u8]
    }
}

/// The script bytes that push `data` onto the stack.
pub open spec fn push_spec(data: Seq<u8>) -> Seq<u8> {
    push_header(data.len()) + data
}

/// The concatenated pushes of each item, in order.
pub open spec fn pushes(items: Seq<Seq<u8>>) -> Seq<u8>
    decreases items.len(),
{
    if items.len() == 0 {
        Seq::empty()
    } else {
        pushes(items.drop_last()) + push_spec(items.last())
    }
}

/// Every item fits in a single push.
pub open spec fn all_pushable(items: Seq<Seq<u8>>) -> bool {
    forall|i: int| 0 <= i < items.len() ==> (#[trigger] items[i]).len() <= MAX_SCRIPT_ELEMENT_SIZE
}

/// Reads one data push at the start of `s`: the data and the number of bytes the push takes.
pub open spec fn read_push(s: Seq<u8>) -> Option<(Seq<u8>, nat)> {
    if s.len() == 0 {
        None
    } else {
        let (h, n) = if s[0] < OP_PUSHDATA1 {
            (1nat, s[0] as nat)
        } else if s[0] == OP_PUSHDATA1 && s.len() >= 2 {
            (2nat, s[1] as nat)
        } else if s[0] == OP_PUSHDATA2 && s.len() >= 3 {
            (3nat, s[1] as nat + 0x100 * (s[2] as nat))
        } else {
            (0nat, 0nat)
        };
        if h == 0 || s.len() < h + n {
            None
        } else {
            Some((s.subrange(h as int, (h + n) as int), h + n))
        }
    }
}

/// Splits a script made only of data pushes into the pushed items.
pub open spec fn parse_pushes(s: Seq<u8>) -> Option<Seq<Seq<u8>>>
    decreases s.len(),
{
    if s.len() == 0 {
        Some(Seq::empty())
    } else {
        match read_push(s) {
            Some((data, k)) => if 0 < k <= s.len() {
                match parse_pushes(s.skip(k as int)) {
                    Some(rest) => Some(seq![data] + rest),
                    None => None,
                }
            } else {
                None
            },
            None => None,
        }
    }
}

pub proof fn lemma_pushes_append(a: Seq<Seq<u8>>, b: Seq<Seq<u8>>)
    ensures
        pushes(a + b) == pushes(a) + pushes(b),
    decreases b.len(),
{
    if b.len() == 0 {
        assert(a + b =~= a);
        assert(pushes(a) + pushes(b) =~= pushes(a));
    } else {
        lemma_pushes_append(a, b.drop_last());
        assert((a + b).drop_last() =~= a + b.drop_last());
        assert((a + b).last() == b.last());
        assert(pushes(a + b) =~= pushes(a) + pushes(b));
    }
}

pub proof fn lemma_pushes_push(a: Seq<Seq<u8>>, x: Seq<u8>)
    ensures
        pushes(a.push(x)) == pushes(a) + push_spec(x),
{
    assert(a.push(x).drop_last() =~= a);
}

pub proof fn lemma_read_push(d: Seq<u8>, rest: Seq<u8>)
    requires
        d.len() <= MAX_SCRIPT_ELEMENT_SIZE,
    ensures
        read_push(push_spec(d) + rest) == Some((d, push_spec(d).len())),
{
    let s = push_spec(d) + rest;
    let n = d.len();
    let h = push_header(n).len();
    if n >= 0x100 {
        assert((n % 0x100) as u8 as nat + 0x100 * ((n / 0x100) as u8 as nat) == n);
    }
    assert(s.subrange(h as int, (h + n) as int) =~= d);
}

/// Parsing the pushes of pushable items gives the items back.
pub proof fn lemma_parse_pushes(items: Seq<Seq<u8>>)
    requires
        all_pushable(items),
    ensures
        parse_pushes(pushes(items)) == Some(items),
    decreases items.len(),
{
    if items.len() == 0 {
    } else {
        let first = items[0];
        let tail = items.skip(1);
        assert(items =~= seq![first] + tail);
        lemma_pushes_append(seq![first], tail);
        assert(seq![first].drop_last() =~= Seq::<Seq<u8>>::empty());
        assert(pushes(Seq::<Seq<u8>>::empty()) =~= Seq::<u8>::empty());
        assert(pushes(seq![first]) =~= push_spec(first));
        assert(first == items[0]);
        lemma_read_push(first, pushes(tail));
        let s = pushes(items);
        let k = push_spec(first).len();
        assert(s.skip(k as int) =~= pushes(tail));
        assert forall|i: int| 0 <= i < tail.len() implies (#[trigger] tail[i]).len()
            <= MAX_SCRIPT_ELEMENT_SIZE by {
            assert(tail[i] == items[i + 1]);
        }
        lemma_parse_pushes(tail);
        assert(seq![first] + tail =~= items);
    }
}

/// Appends `src[from..to]` to `dst`.
pub fn append_range(dst: &mut Vec<u8>, src: &[u8], from: usize, to: usize)
    requires
        from <= to <= src@.len(),
    ensures
        final(dst)@ == old(dst)@ + src@.subrange(from as int, to as int),
{
    let mut i: usize = from;
    while i < to
        invariant
            from <= i <= to <= src@.len(),
            dst@ == old(dst)@ + src@.subrange(from as int, i as int),
        decreases to - i,
    {
        dst.push(src[i]);
        assert(src@.subrange(from as int, i + 1) =~= src@.subrange(from as int, i as int).push(
            src@[i as int],
        ));
        i = i + 1;
    }
}

/// Appends the push of `data` to `script`.
pub fn push_data(script: &mut Vec<u8>, data: &[u8])
    requires
        data@.len() <= MAX_SCRIPT_ELEMENT_SIZE,
    ensures
        final(script)@ == old(script)@ + push_spec(data@),
{
    let n = data.len();
    if n < 0x4c {
        script.push(n as u8);
    } else if n < 0x100 {
        script.push(OP_PUSHDATA1);
        script.push(n as u8);
    } else {
        script.push(OP_PUSHDATA2);
        script.push((n % 0x100) as u8);
        script.push((n / 0x100) as u8);
    }
    append_range(script, data, 0, n);
    assert(data@.subrange(0, n as int) =~= data@);
    assert(final(script)@ =~= old(script)@ + push_spec(data@));
}

/// The locking script that pays to the hash of a public key.
pub open spec fn p2pkh_script_spec(key_hash: Seq<u8>) -> Seq<u8> {
    seq![OP_DUP, OP_HASH160] + push_spec(key_hash) + seq![OP_EQUALVERIFY, OP_CHECKSIG]
}

/// Whether a locking script has the pay-to-public-key-hash form.
pub open spec fn is_p2pkh_script(s: Seq<u8>) -> bool {
    &&& s.len() == 25
    &&& s[0] == OP_DUP
    &&& s[1] == OP_HASH160
    &&& s[2] == 20
    &&& s[23] == OP_EQUALVERIFY
    &&& s[24] == OP_CHECKSIG
}

/// Builds the pay-to-public-key-hash locking script for a 20-byte key hash.
pub fn p2pkh_script(key_hash: &[u8]) -> (r: Vec<u8>)
    requires
        key_hash@.len() == 20,
    ensures
        r@ == p2pkh_script_spec(key_hash@),
        is_p2pkh_script(r@),
{
    let mut r: Vec<u8> = Vec::new();
    r.push(OP_DUP);
    r.push(OP_HASH160);
    push_data(&mut r, key_hash);
    r.push(OP_EQUALVERIFY);
    r.push(OP_CHECKSIG);
    assert(r@ =~= p2pkh_script_spec(key_hash@));
    r
}

/// Recognises a pay-to-public-key-hash locking script.
pub fn check_p2pkh_script(s: &[u8]) -> (r: bool)
    ensures
        r == is_p2pkh_script(s@),
{
    s.len() == 25 && s[0] == OP_DUP && s[1] == OP_HASH160 && s[2] == 20 && s[23] == OP_EQUALVERIFY
        && s[24] == OP_CHECKSIG
}

} // verus!
