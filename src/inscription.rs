//! The inscription envelope: a tagged-field payload serialised into a script fragment.
use crate::error::WalletError;
use crate::script::{
    all_pushable, append_range, lemma_parse_pushes, lemma_pushes_append, lemma_pushes_push,
    parse_pushes, push_data, pushes, MAX_SCRIPT_ELEMENT_SIZE, OP_ENDIF, OP_FALSE, OP_IF,
};
use vstd::prelude::*;

verus! {

/// The protocol identifier that opens every envelope.
pub open spec fn protocol_id() -> Seq<u8> {
    seq![0x6fu8, 0x72u8, 0x64u8]
}

/// The tag ids of the envelope's fields.
#[derive(Copy, Clone, Debug)]
pub enum Tag {
    Pointer,
    Unbound,
    ContentType,
    Parent,
    Metadata,
    Metaprotocol,
    ContentEncoding,
    Delegate,
    Nop,
}

impl Tag {
    /// The wire byte of the tag.
    pub open spec fn id(self) -> u8 {
        match self {
            Tag::Pointer => 2,
            Tag::Unbound => 66,
            Tag::ContentType => 1,
            Tag::Parent => 3,
            Tag::Metadata => 5,
            Tag::Metaprotocol => 7,
            Tag::ContentEncoding => 9,
            Tag::Delegate => 11,
            Tag::Nop => 255,
        }
    }

    /// Whether a value under this tag is split across several pushes.
    pub open spec fn chunked(self) -> bool {
        self is Metadata
    }

    pub fn is_chunked(self) -> (r: bool)
        ensures
            r == self.chunked(),
    {
        matches!(self, Tag::Metadata)
    }

    pub fn bytes(self) -> (r: Vec<u8>)
        ensures
            r@ == seq![self.id()],
    {
        let b: u8 = match self {
            Tag::Pointer => 2,
            Tag::Unbound => 66,
            Tag::ContentType => 1,
            Tag::Parent => 3,
            Tag::Metadata => 5,
            Tag::Metaprotocol => 7,
            Tag::ContentEncoding => 9,
            Tag::Delegate => 11,
            Tag::Nop => 255,
        };
        let mut r: Vec<u8> = Vec::new();
        r.push(b);
        r
    }

    /// The items that encode `value` under this tag: none for an absent value, otherwise the
    /// tag followed by the value, or by each chunk of it, each chunk under its own tag.
    pub open spec fn items(self, value: Option<Seq<u8>>) -> Seq<Seq<u8>> {
        match value {
            None => Seq::empty(),
            Some(v) => if self.chunked() {
                tagged_chunks(seq![self.id()], v)
            } else {
                seq![seq![self.id()], v]
            },
        }
    }

    /// Whether `value` can be encoded under this tag.
    pub open spec fn fits(self, value: Option<Seq<u8>>) -> bool {
        match value {
            None => true,
            Some(v) => self.chunked() || v.len() <= MAX_SCRIPT_ELEMENT_SIZE,
        }
    }

    /// Appends the encoding of `value` under this tag; an oversized unchunked value is refused
    /// and leaves the script as it was.
    pub fn encode(self, script: &mut Vec<u8>, value: &Option<Vec<u8>>) -> (r: Result<(), WalletError>)
        ensures
            r is Ok <==> self.fits(opt_view(*value)),
            r is Ok ==> final(script)@ == old(script)@ + pushes(self.items(opt_view(*value))),
            r is Err ==> r == Err::<(), WalletError>(WalletError::MalformedInput) && final(script)@
                == old(script)@,
    {
        match value {
            None => {
                assert(pushes(Seq::<Seq<u8>>::empty()) =~= Seq::<u8>::empty());
                assert(final(script)@ =~= old(script)@ + pushes(self.items(opt_view(*value))));
                Ok(())
            },
            Some(v) => {
                let tag = self.bytes();
                if self.is_chunked() {
                    push_tagged_chunks(script, tag.as_slice(), v.as_slice());
                    Ok(())
                } else if v.len() > MAX_SCRIPT_ELEMENT_SIZE {
                    Err(WalletError::MalformedInput)
                } else {
                    let ghost before = script@;
                    push_data(script, tag.as_slice());
                    push_data(script, v.as_slice());
                    proof {
                        let items = seq![seq![self.id()], v@];
                        lemma_pushes_push(seq![seq![self.id()]], v@);
                        lemma_pushes_push(Seq::empty(), seq![self.id()]);
                        assert(Seq::<Seq<u8>>::empty().push(seq![self.id()]) =~= seq![
                            seq![self.id()],
                        ]);
                        assert(seq![seq![self.id()]].push(v@) =~= items);
                        assert(pushes(Seq::<Seq<u8>>::empty()) =~= Seq::<u8>::empty());
                        assert(script@ =~= before + pushes(items));
                    }
                    Ok(())
                }
            },
        }
    }
}

/// The view of an optional byte vector.
pub open spec fn opt_view(o: Option<Vec<u8>>) -> Option<Seq<u8>> {
    match o {
        Some(v) => Some(v@),
        None => None,
    }
}

/// The size of the first chunk of `v`.
pub open spec fn chunk_len(v: Seq<u8>) -> nat {
    if v.len() <= MAX_SCRIPT_ELEMENT_SIZE {
        v.len()
    } else {
        MAX_SCRIPT_ELEMENT_SIZE as nat
    }
}

/// `v` split into consecutive chunks of at most the maximum push size.
pub open spec fn chunks(v: Seq<u8>) -> Seq<Seq<u8>>
    decreases v.len(),
{
    if v.len() == 0 {
        Seq::empty()
    } else {
        seq![v.take(chunk_len(v) as int)] + chunks(v.skip(chunk_len(v) as int))
    }
}

/// The chunks of `v`, each preceded by `tag`.
pub open spec fn tagged_chunks(tag: Seq<u8>, v: Seq<u8>) -> Seq<Seq<u8>>
    decreases v.len(),
{
    if v.len() == 0 {
        Seq::empty()
    } else {
        seq![tag, v.take(chunk_len(v) as int)] + tagged_chunks(tag, v.skip(chunk_len(v) as int))
    }
}

/// The concatenation of all items.
pub open spec fn concat_all(items: Seq<Seq<u8>>) -> Seq<u8>
    decreases items.len(),
{
    if items.len() == 0 {
        Seq::empty()
    } else {
        items[0] + concat_all(items.skip(1))
    }
}

/// Appends the pushes of the chunks of `v`, each preceded by a push of `tag` when `tagged`.
fn push_chunks(script: &mut Vec<u8>, tag: &[u8], v: &[u8], tagged: bool)
    requires
        tag@.len() <= MAX_SCRIPT_ELEMENT_SIZE,
    ensures
        tagged ==> final(script)@ == old(script)@ + pushes(tagged_chunks(tag@, v@)),
        !tagged ==> final(script)@ == old(script)@ + pushes(chunks(v@)),
{
    let ghost whole = if tagged {
        tagged_chunks(tag@, v@)
    } else {
        chunks(v@)
    };
    let ghost mut done: Seq<Seq<u8>> = Seq::empty();
    let mut i: usize = 0;
    proof {
        assert(v@.skip(0) =~= v@);
        assert(done + whole =~= whole);
    }
    while i < v.len()
        invariant
            i <= v@.len(),
            tag@.len() <= MAX_SCRIPT_ELEMENT_SIZE,
            whole == (if tagged {
                tagged_chunks(tag@, v@)
            } else {
                chunks(v@)
            }),
            done + (if tagged {
                tagged_chunks(tag@, v@.skip(i as int))
            } else {
                chunks(v@.skip(i as int))
            }) == whole,
            script@ == old(script)@ + pushes(done),
        decreases v@.len() - i,
    {
        let rest = v.len() - i;
        let n: usize = if rest <= MAX_SCRIPT_ELEMENT_SIZE {
            rest
        } else {
            MAX_SCRIPT_ELEMENT_SIZE
        };
        let ghost tail = v@.skip(i as int);
        let ghost chunk = tail.take(n as int);
        if tagged {
            push_data(script, tag);
            proof {
                lemma_pushes_push(done, tag@);
                done = done.push(tag@);
            }
        }
        let mut c: Vec<u8> = Vec::new();
        append_range(&mut c, v, i, i + n);
        assert(c@ =~= chunk);
        push_data(script, c.as_slice());
        proof {
            lemma_pushes_push(done, chunk);
            let old_done = done;
            done = done.push(chunk);
            assert(tail.skip(n as int) =~= v@.skip(i + n));
            if tagged {
                assert(tagged_chunks(tag@, tail) == seq![tag@, chunk] + tagged_chunks(
                    tag@,
                    tail.skip(n as int),
                ));
                assert(old_done.drop_last() + seq![tag@, chunk] + tagged_chunks(tag@, tail.skip(n as int))
                    =~= done + tagged_chunks(tag@, tail.skip(n as int)));
            } else {
                assert(chunks(tail) == seq![chunk] + chunks(tail.skip(n as int)));
                assert(old_done + (seq![chunk] + chunks(tail.skip(n as int))) =~= done + chunks(
                    tail.skip(n as int),
                ));
            }
        }
        i = i + n;
    }
    proof {
        assert(v@.skip(i as int).len() == 0);
        assert(done + Seq::<Seq<u8>>::empty() =~= done);
    }
}

fn push_tagged_chunks(script: &mut Vec<u8>, tag: &[u8], v: &[u8])
    requires
        tag@.len() <= MAX_SCRIPT_ELEMENT_SIZE,
    ensures
        final(script)@ == old(script)@ + pushes(tagged_chunks(tag@, v@)),
{
    push_chunks(script, tag, v, true);
}

/// A payload to embed on chain, as optional tagged byte fields.
#[derive(Debug, Clone, PartialEq, Eq, Default)]
pub struct Inscription {
    pub body: Option<Vec<u8>>,
    pub content_encoding: Option<Vec<u8>>,
    pub content_type: Option<Vec<u8>>,
    pub delegate: Option<Vec<u8>>,
    pub duplicate_field: bool,
    pub incomplete_field: bool,
    pub metadata: Option<Vec<u8>>,
    pub metaprotocol: Option<Vec<u8>>,
    pub parent: Option<Vec<u8>>,
    pub pointer: Option<Vec<u8>>,
    pub unrecognized_even_field: bool,
}

/// The items of an optional body: the empty body marker, then the chunks of the body.
pub open spec fn body_items(body: Option<Seq<u8>>) -> Seq<Seq<u8>> {
    match body {
        None => Seq::empty(),
        Some(b) => seq![Seq::<u8>::empty()] + chunks(b),
    }
}

impl Inscription {
    /// Every pushed item of the envelope between its opener and closer: the protocol id, each
    /// present field in wire order, then the body.
    pub open spec fn envelope_items(self) -> Seq<Seq<u8>> {
        seq![protocol_id()] + Tag::ContentType.items(opt_view(self.content_type))
            + Tag::ContentEncoding.items(opt_view(self.content_encoding))
            + Tag::Metaprotocol.items(opt_view(self.metaprotocol)) + Tag::Parent.items(
            opt_view(self.parent),
        ) + Tag::Delegate.items(opt_view(self.delegate)) + Tag::Pointer.items(
            opt_view(self.pointer),
        ) + Tag::Metadata.items(opt_view(self.metadata)) + body_items(opt_view(self.body))
    }

    /// The envelope script fragment.
    pub open spec fn envelope(self) -> Seq<u8> {
        seq![OP_FALSE, OP_IF] + pushes(self.envelope_items()) + seq![OP_ENDIF]
    }

    /// Every unchunked field fits in a single push.
    pub open spec fn fields_fit(self) -> bool {
        &&& Tag::ContentType.fits(opt_view(self.content_type))
        &&& Tag::ContentEncoding.fits(opt_view(self.content_encoding))
        &&& Tag::Metaprotocol.fits(opt_view(self.metaprotocol))
        &&& Tag::Parent.fits(opt_view(self.parent))
        &&& Tag::Delegate.fits(opt_view(self.delegate))
        &&& Tag::Pointer.fits(opt_view(self.pointer))
    }

    /// An inscription with only a content type and a body.
    pub fn new(content_type: Option<Vec<u8>>, body: Option<Vec<u8>>) -> (r: Self)
        ensures
            r.content_type == content_type,
            r.body == body,
            r.content_encoding is None,
            r.delegate is None,
            r.metadata is None,
            r.metaprotocol is None,
            r.parent is None,
            r.pointer is None,
            !r.duplicate_field,
            !r.incomplete_field,
            !r.unrecognized_even_field,
    {
        Inscription {
            body,
            content_encoding: None,
            content_type,
            delegate: None,
            duplicate_field: false,
            incomplete_field: false,
            metadata: None,
            metaprotocol: None,
            parent: None,
            pointer: None,
            unrecognized_even_field: false,
        }
    }

    /// Appends the envelope to `builder`. Fails when an unchunked field exceeds the maximum
    /// push size.
    pub fn append_reveal_script_to_builder(&self, builder: Vec<u8>) -> (r: Result<
        Vec<u8>,
        WalletError,
    >)
        ensures
            r is Ok <==> self.fields_fit(),
            r matches Ok(s) ==> s@ == builder@ + self.envelope(),
            r is Err ==> r == Err::<Vec<u8>, WalletError>(WalletError::MalformedInput),
    {
        let mut s = builder;
        let ghost start = s@;
        s.push(OP_FALSE);
        s.push(OP_IF);
        let mut id: Vec<u8> = Vec::new();
        id.push(0x6f);
        id.push(0x72);
        id.push(0x64);
        push_data(&mut s, id.as_slice());
        assert(id@ =~= protocol_id());
        let ghost head = s@;
        let ghost mut items: Seq<Seq<u8>> = seq![protocol_id()];
        proof {
            lemma_pushes_push(Seq::empty(), protocol_id());
            assert(Seq::<Seq<u8>>::empty().push(protocol_id()) =~= items);
            assert(pushes(Seq::<Seq<u8>>::empty()) =~= Seq::<u8>::empty());
            assert(s@ =~= start + seq![OP_FALSE, OP_IF] + pushes(items));
        }
        let ghost prefix = start + seq![OP_FALSE, OP_IF];
        if !encode_field(&mut s, Tag::ContentType, &self.content_type, Ghost(prefix), Ghost(items)) {
            return Err(WalletError::MalformedInput);
        }
        proof {
            items = items + Tag::ContentType.items(opt_view(self.content_type));
        }
        if !encode_field(&mut s, Tag::ContentEncoding, &self.content_encoding, Ghost(prefix), Ghost(items)) {
            return Err(WalletError::MalformedInput);
        }
        proof {
            items = items + Tag::ContentEncoding.items(opt_view(self.content_encoding));
        }
        if !encode_field(&mut s, Tag::Metaprotocol, &self.metaprotocol, Ghost(prefix), Ghost(items)) {
            return Err(WalletError::MalformedInput);
        }
        proof {
            items = items + Tag::Metaprotocol.items(opt_view(self.metaprotocol));
        }
        if !encode_field(&mut s, Tag::Parent, &self.parent, Ghost(prefix), Ghost(items)) {
            return Err(WalletError::MalformedInput);
        }
        proof {
            items = items + Tag::Parent.items(opt_view(self.parent));
        }
        if !encode_field(&mut s, Tag::Delegate, &self.delegate, Ghost(prefix), Ghost(items)) {
            return Err(WalletError::MalformedInput);
        }
        proof {
            items = items + Tag::Delegate.items(opt_view(self.delegate));
        }
        if !encode_field(&mut s, Tag::Pointer, &self.pointer, Ghost(prefix), Ghost(items)) {
            return Err(WalletError::MalformedInput);
        }
        proof {
            items = items + Tag::Pointer.items(opt_view(self.pointer));
        }
        encode_field(&mut s, Tag::Metadata, &self.metadata, Ghost(prefix), Ghost(items));
        proof {
            items = items + Tag::Metadata.items(opt_view(self.metadata));
        }
        match &self.body {
            Some(body) => {
                let empty: Vec<u8> = Vec::new();
                proof {
                    assert(s@ == prefix + pushes(items));
                }
                push_data(&mut s, empty.as_slice());
                push_chunks(&mut s, empty.as_slice(), body.as_slice(), false);
                proof {
                    lemma_pushes_push(items, Seq::empty());
                    assert(empty@ =~= Seq::<u8>::empty());
                    lemma_pushes_append(items.push(Seq::empty()), chunks(body@));
                    assert(items.push(Seq::empty()) + chunks(body@) =~= items + body_items(
                        opt_view(self.body),
                    ));
                    assert(s@ == prefix + pushes(items + body_items(opt_view(self.body))));
                    items = items + body_items(opt_view(self.body));
                }
            },
            None => {
                proof {
                    assert(items + body_items(opt_view(self.body)) =~= items);
                }
            },
        }
        s.push(OP_ENDIF);
        proof {
            assert(items == self.envelope_items());
            assert(s@ =~= builder@ + self.envelope());
        }
        Ok(s)
    }
}

/// Appends the encoding of `value` under `tag` to a script that holds `prefix` and the pushes
/// of `items`; false, with the script unchanged, when the value does not fit.
fn encode_field(
    script: &mut Vec<u8>,
    tag: Tag,
    value: &Option<Vec<u8>>,
    Ghost(prefix): Ghost<Seq<u8>>,
    Ghost(items): Ghost<Seq<Seq<u8>>>,
) -> (r: bool)
    requires
        old(script)@ == prefix + pushes(items),
    ensures
        r == tag.fits(opt_view(*value)),
        r ==> final(script)@ == prefix + pushes(items + tag.items(opt_view(*value))),
        !r ==> final(script)@ == old(script)@,
{
    let r = tag.encode(script, value);
    proof {
        lemma_pushes_append(items, tag.items(opt_view(*value)));
    }
    r.is_ok()
}

/// The pushed items of an envelope after its protocol id, if `s` is a well-formed envelope.
pub open spec fn decode_envelope(s: Seq<u8>) -> Option<Seq<Seq<u8>>> {
    if s.len() >= 3 && s[0] == OP_FALSE && s[1] == OP_IF && s.last() == OP_ENDIF {
        match parse_pushes(s.subrange(2, s.len() - 1)) {
            Some(items) => if items.len() >= 1 && items[0] == protocol_id() {
                Some(items.skip(1))
            } else {
                None
            },
            None => None,
        }
    } else {
        None
    }
}

/// The value of a tagged field: every value found under `tag` before the body marker,
/// concatenated in order.
pub open spec fn decoded_field(items: Seq<Seq<u8>>, tag: u8) -> Option<Seq<u8>>
    decreases items.len(),
{
    if items.len() < 2 || items[0].len() == 0 {
        None
    } else {
        let rest = decoded_field(items.skip(2), tag);
        if items[0] == seq![tag] {
            Some(
                items[1] + match rest {
                    Some(r) => r,
                    None => Seq::empty(),
                },
            )
        } else {
            rest
        }
    }
}

/// The body: everything pushed after the body marker, concatenated.
pub open spec fn decoded_body(items: Seq<Seq<u8>>) -> Option<Seq<u8>>
    decreases items.len(),
{
    if items.len() == 0 {
        None
    } else if items[0].len() == 0 {
        Some(concat_all(items.skip(1)))
    } else if items.len() < 2 {
        None
    } else {
        decoded_body(items.skip(2))
    }
}

proof fn lemma_chunks(v: Seq<u8>)
    ensures
        concat_all(chunks(v)) == v,
        all_pushable(chunks(v)),
        forall|i: int| 0 <= i < chunks(v).len() ==> (#[trigger] chunks(v)[i]).len() > 0,
    decreases v.len(),
{
    if v.len() > 0 {
        let n = chunk_len(v) as int;
        lemma_chunks(v.skip(n));
        let c = chunks(v);
        assert(c.skip(1) =~= chunks(v.skip(n)));
        assert(v.take(n) + v.skip(n) =~= v);
        assert forall|i: int| 0 <= i < c.len() implies (#[trigger] c[i]).len()
            <= MAX_SCRIPT_ELEMENT_SIZE && c[i].len() > 0 by {
            if i > 0 {
                assert(c[i] == chunks(v.skip(n))[i - 1]);
            }
        }
    }
}

/// Decoding the envelope of an inscription that carries nothing but a content type and a body
/// gives back exactly that content type and that body, however many chunks the body spans.
pub proof fn lemma_envelope_round_trip(ins: Inscription)
    requires
        ins.content_encoding is None,
        ins.metaprotocol is None,
        ins.parent is None,
        ins.delegate is None,
        ins.pointer is None,
        ins.metadata is None,
        ins.fields_fit(),
    ensures
        decode_envelope(ins.envelope()) matches Some(items) && decoded_field(items, 1)
            == opt_view(ins.content_type) && decoded_body(items) == opt_view(ins.body),
{
    let ct_items = Tag::ContentType.items(opt_view(ins.content_type));
    let b_items = body_items(opt_view(ins.body));
    let fields = ct_items + b_items;
    let all = seq![protocol_id()] + fields;
    assert(ins.envelope_items() =~= all);
    if let Some(b) = opt_view(ins.body) {
        lemma_chunks(b);
    }
    assert forall|i: int| 0 <= i < all.len() implies (#[trigger] all[i]).len()
        <= MAX_SCRIPT_ELEMENT_SIZE by {
        if 1 + ct_items.len() <= i {
            let j = i - 1 - ct_items.len();
            if j > 0 {
                assert(all[i] == chunks(opt_view(ins.body)->0)[j - 1]);
            }
        }
    }
    lemma_parse_pushes(all);
    let s = ins.envelope();
    assert(s.subrange(2, s.len() - 1) =~= pushes(all));
    assert(all.skip(1) =~= fields);
    assert(s[0] == OP_FALSE && s[1] == OP_IF && s.last() == OP_ENDIF);
    assert(decode_envelope(s) == Some(fields));
    // The body items stop any field lookup and start the body.
    assert(decoded_field(b_items, 1) is None);
    if let Some(b) = opt_view(ins.body) {
        assert(b_items.skip(1) =~= chunks(b));
    }
    if let Some(c) = opt_view(ins.content_type) {
        assert(fields.skip(2) =~= b_items);
        assert(fields[0] == seq![1u8]);
        assert(fields[1] == c);
        assert(c + Seq::<u8>::empty() =~= c);
        assert(decoded_field(fields, 1) == Some(c));
        assert(decoded_body(fields) == decoded_body(b_items));
    } else {
        assert(fields =~= b_items);
    }
    assert(decoded_body(b_items) == opt_view(ins.body));
}

} // verus!
