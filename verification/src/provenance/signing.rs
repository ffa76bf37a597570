//! The byte message that is signed for a list of fields: each field preceded
//! by its length as four little-endian bytes.

use vstd::prelude::*;
use crate::bytes::{lemma_u32_le_injective, push_bytes, push_u32_le, u32_le};

verus! {

/// One field of a signing message: its length (four little-endian bytes),
/// then its bytes.
pub open spec fn field_encoding(f: Seq<u8>) -> Seq<u8> {
    u32_le(f.len() as u32) + f
}

/// The signing message of a list of fields: their encodings, in order.
pub open spec fn spec_signing_message(fields: Seq<Seq<u8>>) -> Seq<u8>
    decreases fields.len(),
{
    if fields.len() == 0 {
        Seq::empty()
    } else {
        field_encoding(fields[0]) + spec_signing_message(fields.drop_first())
    }
}

/// Every field fits the four-byte length prefix.
pub open spec fn fields_fit(fields: Seq<Seq<u8>>) -> bool {
    forall|i: int| 0 <= i < fields.len() ==> #[trigger] fields[i].len() <= u32::MAX
}

proof fn lemma_message_push(fields: Seq<Seq<u8>>, f: Seq<u8>)
    ensures
        spec_signing_message(fields.push(f)) == spec_signing_message(fields) + field_encoding(f),
    decreases fields.len(),
{
    if fields.len() == 0 {
        assert(fields.push(f).drop_first() =~= Seq::<Seq<u8>>::empty());
        assert(fields.push(f)[0] == f);
        assert(spec_signing_message(fields.push(f).drop_first()) =~= Seq::<u8>::empty());
        assert(spec_signing_message(fields) =~= Seq::<u8>::empty());
        assert(field_encoding(f) + Seq::<u8>::empty() =~= field_encoding(f));
        assert(Seq::<u8>::empty() + field_encoding(f) =~= field_encoding(f));
    } else {
        lemma_message_push(fields.drop_first(), f);
        assert(fields.push(f).drop_first() =~= fields.drop_first().push(f));
        assert(fields.push(f)[0] == fields[0]);
        assert(field_encoding(fields[0]) + (spec_signing_message(fields.drop_first()) + field_encoding(f))
            =~= (field_encoding(fields[0]) + spec_signing_message(fields.drop_first())) + field_encoding(f));
    }
}

/// The views of a list of byte slices.
pub open spec fn slices_view(fields: Seq<&[u8]>) -> Seq<Seq<u8>> {
    fields.map_values(|f: &[u8]| f@)
}

/// Concatenates the fields, each preceded by its length as a little-endian
/// `u32`.
pub fn length_prefixed_signing_message(fields: &[&[u8]]) -> (message: Vec<u8>)
    requires
        fields_fit(slices_view(fields@)),
    ensures
        message@ == spec_signing_message(slices_view(fields@)),
{
    let ghost fs = slices_view(fields@);
    let mut message: Vec<u8> = Vec::new();
    let mut i: usize = 0;
    assert(fs.take(0) =~= Seq::<Seq<u8>>::empty());
    while i < fields.len()
        invariant
            i <= fields.len(),
            fs == slices_view(fields@),
            fields_fit(fs),
            message@ == spec_signing_message(fs.take(i as int)),
        decreases fields.len() - i,
    {
        let field: &[u8] = fields[i];
        assert(fs[i as int] == field@);
        assert(field@.len() <= u32::MAX);
        let len = field.len() as u32;
        push_u32_le(&mut message, len);
        push_bytes(&mut message, field);
        proof {
            lemma_message_push(fs.take(i as int), field@);
            assert(fs.take(i + 1) =~= fs.take(i as int).push(field@));
        }
        i += 1;
    }
    assert(fs.take(i as int) =~= fs);
    message
}

/// The message determines the fields: two lists of fields that fit the length
/// prefix and give the same message are the same list.
pub proof fn law_signing_message_is_unambiguous(a: Seq<Seq<u8>>, b: Seq<Seq<u8>>)
    requires
        fields_fit(a),
        fields_fit(b),
        spec_signing_message(a) == spec_signing_message(b),
    ensures
        a == b,
    decreases a.len(),
{
    let ma = spec_signing_message(a);
    let mb = spec_signing_message(b);
    if a.len() == 0 && b.len() == 0 {
        assert(a =~= b);
    } else if a.len() == 0 {
        assert(mb.len() >= 4);
    } else if b.len() == 0 {
        assert(ma.len() >= 4);
    } else {
        let la = a[0].len() as u32;
        let lb = b[0].len() as u32;
        assert(ma.subrange(0, 4) =~= u32_le(la));
        assert(mb.subrange(0, 4) =~= u32_le(lb));
        lemma_u32_le_injective(la, lb);
        assert(a[0].len() == b[0].len());
        let n = a[0].len() as int;
        assert(ma.subrange(4, 4 + n) =~= a[0]);
        assert(mb.subrange(4, 4 + n) =~= b[0]);
        assert(ma.subrange(4 + n, ma.len() as int) =~= spec_signing_message(a.drop_first()));
        assert(mb.subrange(4 + n, mb.len() as int) =~= spec_signing_message(b.drop_first()));
        assert(fields_fit(a.drop_first())) by {
            assert forall|i: int| 0 <= i < a.drop_first().len() implies #[trigger] a.drop_first()[i].len() <= u32::MAX by {
                assert(a.drop_first()[i] == a[i + 1]);
            }
        }
        assert(fields_fit(b.drop_first())) by {
            assert forall|i: int| 0 <= i < b.drop_first().len() implies #[trigger] b.drop_first()[i].len() <= u32::MAX by {
                assert(b.drop_first()[i] == b[i + 1]);
            }
        }
        law_signing_message_is_unambiguous(a.drop_first(), b.drop_first());
        assert(a =~= b) by {
            assert forall|i: int| 0 <= i < a.len() implies a[i] == b[i] by {
                if i > 0 {
                    assert(a[i] == a.drop_first()[i - 1]);
                    assert(b[i] == b.drop_first()[i - 1]);
                }
            }
        }
    }
}

} // verus!
