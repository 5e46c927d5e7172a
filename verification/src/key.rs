//! Keys: what a caller names a draw by.
//!
//! A key is an ordered sequence of parts: texts, signed integers and
//! indices. That sequence is a key's view. What is hashed is the key's
//! serialisation: the code of each part, one after the other, in the order
//! in which the parts were added. The code of a part starts with a byte for
//! its kind. An integer or an index follows as its eight bytes, lowest
//! first, a negative integer in two's complement; a text follows as the
//! number of its bytes, written in eight bytes too, and then the bytes. No
//! code is the start of another, so different sequences of parts have
//! different serialisations. A key made of other keys is the sequence of
//! all their parts.

use crate::hasher::hash_of;
use vstd::prelude::*;
use vstd::string::StringSliceAdditionalSpecFns;

verus! {

/// The byte that starts the code of a text.
pub const KIND_TEXT: u8 = 1;

/// The byte that starts the code of a signed integer.
pub const KIND_INT: u8 = 2;

/// The byte that starts the code of an index.
pub const KIND_INDEX: u8 = 3;

/// One part of a key.
pub enum Part {
    /// A text, as its UTF-8 bytes.
    Text(Seq<u8>),
    /// A signed integer.
    Int(i64),
    /// An index.
    Index(u64),
}

/// Byte `i` of `v`, counting from the lowest.
pub open spec fn byte_of(v: u64, i: int) -> u8 {
    ((v >> ((8 * i) as u64)) & 0xff) as u8
}

/// The eight bytes of `v`, lowest first.
pub open spec fn le_bytes(v: u64) -> Seq<u8> {
    Seq::new(8, |i: int| byte_of(v, i))
}

/// The code of a part.
pub open spec fn part_code(p: Part) -> Seq<u8> {
    match p {
        Part::Text(bytes) => seq![KIND_TEXT] + le_bytes(bytes.len() as u64) + bytes,
        Part::Int(v) => seq![KIND_INT] + le_bytes(v as u64),
        Part::Index(v) => seq![KIND_INDEX] + le_bytes(v),
    }
}

/// The serialisation of a sequence of parts.
pub open spec fn parts_code(parts: Seq<Part>) -> Seq<u8>
    decreases parts.len(),
{
    if parts.len() == 0 {
        Seq::<u8>::empty()
    } else {
        part_code(parts.first()) + parts_code(parts.drop_first())
    }
}

/// A part that a key can hold: a text is short enough for its length to be
/// written in eight bytes.
pub open spec fn part_fits(p: Part) -> bool {
    match p {
        Part::Text(bytes) => bytes.len() <= u64::MAX,
        _ => true,
    }
}

/// Parts that a key can hold.
pub open spec fn parts_fit(parts: Seq<Part>) -> bool {
    forall|i: int| 0 <= i < parts.len() ==> part_fits(#[trigger] parts[i])
}

/// The digest of a key: the hash of its serialisation.
pub open spec fn key_digest(parts: Seq<Part>) -> u64 {
    hash_of(parts_code(parts))
}

/// Eight bytes, lowest first, are the bytes of one value only.
pub proof fn lemma_le_bytes_injective(v: u64, w: u64)
    requires
        le_bytes(v) == le_bytes(w),
    ensures
        v == w,
{
    assert(forall|i: int| 0 <= i < 8 ==> le_bytes(v)[i] == byte_of(v, i));
    assert(forall|i: int| 0 <= i < 8 ==> le_bytes(w)[i] == byte_of(w, i));
    assert(byte_of(v, 0) == byte_of(w, 0));
    assert(byte_of(v, 1) == byte_of(w, 1));
    assert(byte_of(v, 2) == byte_of(w, 2));
    assert(byte_of(v, 3) == byte_of(w, 3));
    assert(byte_of(v, 4) == byte_of(w, 4));
    assert(byte_of(v, 5) == byte_of(w, 5));
    assert(byte_of(v, 6) == byte_of(w, 6));
    assert(byte_of(v, 7) == byte_of(w, 7));
    assert(v == w) by (bit_vector)
        requires
            ((v >> 0u64) & 0xff) as u8 == ((w >> 0u64) & 0xff) as u8,
            ((v >> 8u64) & 0xff) as u8 == ((w >> 8u64) & 0xff) as u8,
            ((v >> 16u64) & 0xff) as u8 == ((w >> 16u64) & 0xff) as u8,
            ((v >> 24u64) & 0xff) as u8 == ((w >> 24u64) & 0xff) as u8,
            ((v >> 32u64) & 0xff) as u8 == ((w >> 32u64) & 0xff) as u8,
            ((v >> 40u64) & 0xff) as u8 == ((w >> 40u64) & 0xff) as u8,
            ((v >> 48u64) & 0xff) as u8 == ((w >> 48u64) & 0xff) as u8,
            ((v >> 56u64) & 0xff) as u8 == ((w >> 56u64) & 0xff) as u8,
    ;
}

/// Where two serialisations are equal and each starts with the code of a
/// part, the two parts are equal, and so is what follows them.
pub proof fn lemma_part_code_splits(p: Part, q: Part, r: Seq<u8>, s: Seq<u8>)
    requires
        part_fits(p),
        part_fits(q),
        part_code(p) + r == part_code(q) + s,
    ensures
        p == q,
        r == s,
{
    let a = part_code(p) + r;
    let b = part_code(q) + s;
    let pc = part_code(p);
    let qc = part_code(q);
    assert(pc.len() >= 9 && qc.len() >= 9);
    assert(a[0] == pc[0] && b[0] == qc[0]);
    assert(pc.subrange(1, 9) =~= a.subrange(1, 9));
    assert(qc.subrange(1, 9) =~= b.subrange(1, 9));
    match (p, q) {
        (Part::Text(x), Part::Text(y)) => {
            assert(pc.subrange(1, 9) =~= le_bytes(x.len() as u64));
            assert(qc.subrange(1, 9) =~= le_bytes(y.len() as u64));
            lemma_le_bytes_injective(x.len() as u64, y.len() as u64);
            assert(x.len() == y.len());
            let n = 9 + x.len();
            assert(x =~= a.subrange(9, n as int));
            assert(y =~= b.subrange(9, n as int));
            assert(r =~= a.subrange(n as int, a.len() as int));
            assert(s =~= b.subrange(n as int, b.len() as int));
        },
        (Part::Int(x), Part::Int(y)) => {
            assert(pc.subrange(1, 9) =~= le_bytes(x as u64));
            assert(qc.subrange(1, 9) =~= le_bytes(y as u64));
            lemma_le_bytes_injective(x as u64, y as u64);
            assert(x == y) by (bit_vector)
                requires
                    x as u64 == y as u64,
            ;
            assert(r =~= a.subrange(9, a.len() as int));
            assert(s =~= b.subrange(9, b.len() as int));
        },
        (Part::Index(x), Part::Index(y)) => {
            assert(pc.subrange(1, 9) =~= le_bytes(x));
            assert(qc.subrange(1, 9) =~= le_bytes(y));
            lemma_le_bytes_injective(x, y);
            assert(r =~= a.subrange(9, a.len() as int));
            assert(s =~= b.subrange(9, b.len() as int));
        },
        _ => {
            assert(pc[0] != qc[0]);
        },
    }
}

/// Different sequences of parts have different serialisations.
pub proof fn lemma_parts_code_injective(a: Seq<Part>, b: Seq<Part>)
    requires
        parts_fit(a),
        parts_fit(b),
        parts_code(a) == parts_code(b),
    ensures
        a == b,
    decreases a.len(),
{
    if a.len() == 0 {
        if b.len() > 0 {
            assert(part_code(b.first()).len() >= 9);
        }
        assert(a =~= b);
    } else if b.len() == 0 {
        assert(part_code(a.first()).len() >= 9);
    } else {
        assert(part_fits(a[0]) && part_fits(b[0]));
        lemma_part_code_splits(
            a.first(),
            b.first(),
            parts_code(a.drop_first()),
            parts_code(b.drop_first()),
        );
        assert(parts_fit(a.drop_first())) by {
            assert forall|i: int| 0 <= i < a.drop_first().len() implies part_fits(
                #[trigger] a.drop_first()[i],
            ) by {
                assert(a.drop_first()[i] == a[i + 1]);
            }
        }
        assert(parts_fit(b.drop_first())) by {
            assert forall|i: int| 0 <= i < b.drop_first().len() implies part_fits(
                #[trigger] b.drop_first()[i],
            ) by {
                assert(b.drop_first()[i] == b[i + 1]);
            }
        }
        lemma_parts_code_injective(a.drop_first(), b.drop_first());
        assert(a =~= seq![a.first()] + a.drop_first());
        assert(b =~= seq![b.first()] + b.drop_first());
    }
}

/// The serialisation of two sequences of parts, one after the other, is
/// the serialisation of the first followed by that of the second.
pub proof fn lemma_parts_code_concat(a: Seq<Part>, b: Seq<Part>)
    ensures
        parts_code(a + b) == parts_code(a) + parts_code(b),
    decreases a.len(),
{
    if a.len() == 0 {
        assert(a + b =~= b);
        assert(parts_code(a) + parts_code(b) =~= parts_code(b));
    } else {
        lemma_parts_code_concat(a.drop_first(), b);
        assert((a + b).first() == a.first());
        assert((a + b).drop_first() =~= a.drop_first() + b);
        assert(parts_code(a + b) =~= parts_code(a) + parts_code(b));
    }
}

/// The serialisation of parts with one more part at their end is their
/// serialisation followed by the code of that part.
pub proof fn lemma_parts_code_push(parts: Seq<Part>, p: Part)
    ensures
        parts_code(parts.push(p)) == parts_code(parts) + part_code(p),
{
    let one = seq![p];
    lemma_parts_code_concat(parts, one);
    assert(parts.push(p) =~= parts + one);
    assert(one.first() == p);
    assert(parts_code(one.drop_first()) =~= Seq::<u8>::empty());
    assert(parts_code(one) =~= part_code(p));
}

/// A key: its serialisation, and the parts that it is the serialisation
/// of.
pub struct Key {
    bytes: Vec<u8>,
    parts: Ghost<Seq<Part>>,
}

impl View for Key {
    type V = Seq<Part>;

    closed spec fn view(&self) -> Seq<Part> {
        self.parts@
    }
}

impl Clone for Key {
    fn clone(&self) -> (key: Self)
        ensures
            key@ == self@,
            parts_fit(key@),
    {
        let key = Key::new().with_key(self);
        assert(Seq::<Part>::empty() + self@ =~= self@);
        key
    }
}

fn push_all(out: &mut Vec<u8>, bytes: &[u8])
    ensures
        final(out)@ == old(out)@ + bytes@,
{
    let n: usize = bytes.len();
    let mut i: usize = 0;
    while i < n
        invariant
            n == bytes@.len(),
            i <= n,
            out@ == old(out)@ + bytes@.subrange(0, i as int),
        decreases n - i,
    {
        out.push(bytes[i]);
        i = i + 1;
        assert(out@ =~= old(out)@ + bytes@.subrange(0, i as int));
    }
    assert(bytes@.subrange(0, n as int) =~= bytes@);
}

fn push_le_bytes(out: &mut Vec<u8>, v: u64)
    ensures
        final(out)@ == old(out)@ + le_bytes(v),
{
    let mut i: u64 = 0;
    while i < 8
        invariant
            i <= 8,
            out@ == old(out)@ + le_bytes(v).subrange(0, i as int),
        decreases 8 - i,
    {
        let b: u8 = ((v >> (8 * i)) & 0xff) as u8;
        out.push(b);
        i = i + 1;
        assert(out@ =~= old(out)@ + le_bytes(v).subrange(0, i as int));
    }
    assert(le_bytes(v).subrange(0, 8) =~= le_bytes(v));
}

impl Key {
    #[verifier::type_invariant]
    spec fn well_formed(&self) -> bool {
        &&& self.bytes@ == parts_code(self.parts@)
        &&& parts_fit(self.parts@)
    }

    /// The key with no parts.
    pub fn new() -> (key: Key)
        ensures
            key@ == Seq::<Part>::empty(),
            parts_fit(key@),
    {
        Key { bytes: Vec::new(), parts: Ghost(Seq::empty()) }
    }

    /// The key of one text and one integer, such as `("enemy_x", 7)`.
    pub fn tagged(tag: &str, id: i64) -> (key: Key)
        ensures
            key@ == seq![Part::Text(tag.spec_bytes()), Part::Int(id)],
            parts_fit(key@),
    {
        let key = Key::new().with_text(tag).with_int(id);
        assert(key@ =~= seq![Part::Text(tag.spec_bytes()), Part::Int(id)]);
        key
    }

    /// This key with a text added at its end.
    pub fn with_text(self, text: &str) -> (key: Key)
        ensures
            key@ == self@.push(Part::Text(text.spec_bytes())),
            parts_fit(key@),
    {
        proof {
            use_type_invariant(&self);
        }
        let ghost part = Part::Text(text.spec_bytes());
        let ghost parts = self.parts@.push(part);
        let ghost before = self.bytes@;
        let body: &[u8] = text.as_bytes();
        let mut bytes = self.bytes;
        bytes.push(KIND_TEXT);
        push_le_bytes(&mut bytes, body.len() as u64);
        push_all(&mut bytes, body);
        proof {
            lemma_parts_code_push(self.parts@, part);
            assert(bytes@ =~= before + part_code(part));
        }
        Key { bytes, parts: Ghost(parts) }
    }

    /// This key with a signed integer added at its end.
    pub fn with_int(self, v: i64) -> (key: Key)
        ensures
            key@ == self@.push(Part::Int(v)),
            parts_fit(key@),
    {
        proof {
            use_type_invariant(&self);
        }
        let ghost part = Part::Int(v);
        let ghost parts = self.parts@.push(part);
        let ghost before = self.bytes@;
        let mut bytes = self.bytes;
        bytes.push(KIND_INT);
        push_le_bytes(&mut bytes, v as u64);
        proof {
            lemma_parts_code_push(self.parts@, part);
            assert(bytes@ =~= before + part_code(part));
        }
        Key { bytes, parts: Ghost(parts) }
    }

    /// This key with an index added at its end.
    pub fn with_index(self, i: u64) -> (key: Key)
        ensures
            key@ == self@.push(Part::Index(i)),
            parts_fit(key@),
    {
        proof {
            use_type_invariant(&self);
        }
        let ghost part = Part::Index(i);
        let ghost parts = self.parts@.push(part);
        let ghost before = self.bytes@;
        let mut bytes = self.bytes;
        bytes.push(KIND_INDEX);
        push_le_bytes(&mut bytes, i);
        proof {
            lemma_parts_code_push(self.parts@, part);
            assert(bytes@ =~= before + part_code(part));
        }
        Key { bytes, parts: Ghost(parts) }
    }

    /// This key with all the parts of another added at its end.
    pub fn with_key(self, other: &Key) -> (key: Key)
        ensures
            key@ == self@ + other@,
            parts_fit(key@),
    {
        proof {
            use_type_invariant(&self);
            use_type_invariant(other);
            lemma_parts_code_concat(self.parts@, other.parts@);
        }
        let ghost parts = self.parts@ + other.parts@;
        let mut bytes = self.bytes;
        push_all(&mut bytes, other.bytes.as_slice());
        Key { bytes, parts: Ghost(parts) }
    }

    /// A copy of this key with an index added at its end: the key of the
    /// `i`-th of several draws made under one key.
    pub fn indexed(&self, i: u64) -> (key: Key)
        ensures
            key@ == self@.push(Part::Index(i)),
            parts_fit(key@),
    {
        self.clone().with_index(i)
    }

    /// The serialisation of this key.
    pub fn as_bytes(&self) -> (bytes: &[u8])
        ensures
            bytes@ == parts_code(self@),
    {
        proof {
            use_type_invariant(self);
        }
        self.bytes.as_slice()
    }
}

} // verus!
