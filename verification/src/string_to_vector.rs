//! Reading a command's argument and its configuration words out of a chat
//! message.

use vstd::prelude::*;
use vstd::string::*;
use vstd::utf8::*;

use crate::string_to_vec::{
    SPACE,
    first_space,
    lemma_space_offsets,
    lemma_space_offsets_step,
    piece_start,
    space_offsets,
};
use crate::strings::{
    byte_slice,
    is_white_space,
    lemma_offsets_of_prefix,
    lemma_trimmed,
    trim_start,
    lemma_ascii_byte_boundaries,
    lemma_ends_are_boundaries,
    trim,
    trimmed,
};

verus! {

broadcast use {vstd::utf8::encode_utf8_valid_utf8, vstd::utf8::encode_utf8_decode_utf8};

/// The text that the UTF-8 bytes `b` encode.
pub open spec fn text(b: Seq<u8>) -> Seq<char> {
    decode_utf8(b)
}

/// A `str` is the text of its own bytes.
pub proof fn lemma_text_of_bytes(s: &str)
    ensures
        s@ == text(s.spec_bytes()),
{
}

/// The parts that [`getName`] gives for the message bytes `b`, as bytes:
/// nothing when `b` has no space, else the bytes before the first space and
/// the encoding of the rest, from that space on, trimmed.
pub open spec fn name_parts(b: Seq<u8>) -> Seq<Seq<u8>> {
    let sp = space_offsets(b);
    if sp.len() == 0 {
        seq![]
    } else {
        seq![b.subrange(0, sp[0]), encode_utf8(trimmed(text(b.subrange(sp[0], b.len() as int))))]
    }
}

/// Putting a message back together from the two parts that [`getName`]
/// gave, joined by one space, gives the same two parts again.
pub proof fn lemma_name_parts_round_trip(b: Seq<u8>)
    requires
        name_parts(b).len() == 2,
    ensures
        name_parts(name_parts(b)[0] + seq![SPACE] + name_parts(b)[1]) == name_parts(b),
{
    let sp = space_offsets(b);
    let f = sp[0];
    lemma_space_offsets(b);
    let r0 = b.subrange(0, f);
    let t = trimmed(text(b.subrange(f, b.len() as int)));
    let r1 = encode_utf8(t);
    let m = r0 + seq![SPACE] + r1;
    // The word before the first space holds no space.
    assert(b.take(b.len() as int) =~= b);
    lemma_offsets_of_prefix(b, SPACE, f, b.len() as int);
    lemma_space_offsets(b.take(f));
    assert(b.take(f) =~= r0);
    assert(space_offsets(r0).len() == 0) by {
        if space_offsets(r0).len() > 0 {
            assert(space_offsets(b.take(f))[0] < f);
        }
    }
    // So the rebuilt message has its first space right after that word.
    assert(m.take(f) =~= r0);
    lemma_space_offsets_step(m, f);
    assert(space_offsets(m.take(f + 1)) =~= seq![f]);
    assert(m.take(m.len() as int) =~= m);
    lemma_offsets_of_prefix(m, SPACE, f + 1, m.len() as int);
    assert(space_offsets(m)[0] == f);
    assert(m.subrange(0, f) =~= r0);
    // The rest is a space and the trimmed argument, which trims to itself.
    let spc = seq![' '];
    assert(encode_utf8(spc) =~= seq![SPACE]) by {
        assert(spc.drop_first() =~= Seq::<char>::empty());
        assert(spc[0] as u32 == 32);
        assert(32u32 & 0x7F == 32u32) by (bit_vector);
        assert(encode_scalar(32u32) =~= seq![SPACE]);
        assert(encode_utf8(Seq::<char>::empty()) =~= Seq::<u8>::empty());
        assert(encode_utf8(spc) == encode_scalar(32u32) + encode_utf8(spc.drop_first()));
    }
    assert(encode_utf8(spc + t) == encode_utf8(spc) + encode_utf8(t)) by {
        assert((spc + t).drop_first() =~= t);
        assert((spc + t)[0] == ' ');
        assert(encode_utf8(spc) =~= encode_scalar(' ' as u32));
    }
    assert(m.subrange(f, m.len() as int) =~= encode_utf8(spc + t));
    assert(text(m.subrange(f, m.len() as int)) == spc + t);
    assert(trim_start(spc + t) == trim_start(t)) by {
        assert((spc + t).drop_first() =~= t);
        assert(is_white_space((spc + t)[0]));
    }
    lemma_trimmed(text(b.subrange(f, b.len() as int)));
    assert(trimmed(spc + t) == t);
    assert(name_parts(m) =~= name_parts(b));
}

/// The command word and its argument: for a message with a space, the text
/// before the first space, then the rest from that space on with its
/// surrounding white space trimmed. A message without a space gives nothing.
#[allow(non_snake_case)]
pub fn getName(msg: &str) -> (parts: Vec<&str>)
    ensures
        space_offsets(msg.spec_bytes()).len() == 0 ==> parts@.len() == 0,
        space_offsets(msg.spec_bytes()).len() > 0 ==> {
            let b = msg.spec_bytes();
            let first = space_offsets(b)[0];
            &&& parts@.len() == 2
            &&& parts@[0].spec_bytes() == b.subrange(0, first)
            &&& parts@[1]@ == trimmed(text(b.subrange(first, b.len() as int)))
        },
        parts@.map_values(|p: &str| p.spec_bytes()) == name_parts(msg.spec_bytes()),
{
    let mut parts: Vec<&str> = Vec::new();
    let ghost b = msg.spec_bytes();
    if let Some(i) = first_space(msg) {
        proof {
            lemma_space_offsets(b);
            lemma_ascii_byte_boundaries(b, i as int);
            lemma_ends_are_boundaries(b);
        }
        let len = msg.as_bytes().len();
        let name = byte_slice(msg, 0, i);
        let rest = byte_slice(msg, i, len);
        proof {
            lemma_text_of_bytes(rest);
        }
        parts.push(name);
        parts.push(trim(rest));
    }
    proof {
        assert(parts@.map_values(|p: &str| p.spec_bytes()) =~= name_parts(b));
    }
    parts
}

/// Where the pieces of a configuration message end: after each space but
/// the last byte's, and after the last byte.
pub open spec fn config_marks(b: Seq<u8>) -> Seq<int> {
    if b.len() == 0 {
        seq![]
    } else {
        space_offsets(b.drop_last()).push(b.len() - 1)
    }
}

/// The words of a configuration message. Piece `k` runs from the previous
/// mark (the start for the first piece) through mark `k` included, and is
/// trimmed; the marks are the spaces before the last byte, and the last byte.
#[allow(non_snake_case)]
pub fn getConfig(msg: &str) -> (words: Vec<&str>)
    ensures
        words@.len() == config_marks(msg.spec_bytes()).len(),
        forall|k: int|
            0 <= k < words@.len() ==> (#[trigger] words@[k])@ == trimmed(
                text(
                    msg.spec_bytes().subrange(
                        piece_start(config_marks(msg.spec_bytes()), k),
                        config_marks(msg.spec_bytes())[k] + 1,
                    ),
                ),
            ),
{
    let bytes = msg.as_bytes();
    let ghost b = msg.spec_bytes();
    let n = bytes.len();
    let mut words: Vec<&str> = Vec::new();
    if n == 0 {
        return words;
    }
    let mut cut: usize = 0;
    proof {
        lemma_ends_are_boundaries(b);
        assert(b.take(0) =~= Seq::<u8>::empty());
    }
    for i in 0..n - 1
        invariant
            bytes@ == b,
            b == msg.spec_bytes(),
            n == b.len(),
            n > 0,
            valid_utf8(b),
            words@.len() == space_offsets(b.take(i as int)).len(),
            forall|k: int|
                0 <= k < words@.len() ==> (#[trigger] words@[k])@ == trimmed(
                    text(
                        b.subrange(
                            piece_start(space_offsets(b.take(i as int)), k),
                            space_offsets(b.take(i as int))[k] + 1,
                        ),
                    ),
                ),
            cut == piece_start(space_offsets(b.take(i as int)), words@.len() as int),
            cut <= i,
            is_char_boundary(b, cut as int),
    {
        proof {
            lemma_space_offsets_step(b, i as int);
            lemma_space_offsets(b.take(i as int));
        }
        if bytes[i] == SPACE {
            proof {
                lemma_ascii_byte_boundaries(b, i as int);
            }
            let piece = byte_slice(msg, cut, i + 1);
            proof {
                lemma_text_of_bytes(piece);
            }
            words.push(trim(piece));
            cut = i;
        }
    }
    let last = byte_slice(msg, cut, n);
    proof {
        lemma_text_of_bytes(last);
        assert(b.take(n - 1) =~= b.drop_last());
    }
    words.push(trim(last));
    words
}

} // verus!
