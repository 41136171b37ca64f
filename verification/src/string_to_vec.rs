//! Splitting a chat message at its spaces.

use vstd::prelude::*;
use vstd::string::*;
use vstd::utf8::*;

use crate::strings::{
    byte_slice,
    first_offset,
    joined,
    lemma_joined_pieces,
    pieces_at,
    lemma_ascii_byte_boundaries,
    lemma_ends_are_boundaries,
    lemma_offsets_of,
    lemma_offsets_of_step,
    offsets_of,
};

verus! {

broadcast use vstd::utf8::encode_utf8_valid_utf8;

/// The byte value of the ASCII space.
pub const SPACE: u8 = 32;

/// The offsets of the space bytes of `b`, in increasing order.
pub open spec fn space_offsets(b: Seq<u8>) -> Seq<int> {
    offsets_of(b, SPACE)
}

/// Where the `k`-th piece of a split at the offsets `cuts` begins: at the
/// start for the first piece, else at the cut that ended the piece before.
pub open spec fn piece_start(cuts: Seq<int>, k: int) -> int {
    if k == 0 {
        0
    } else {
        cuts[k - 1]
    }
}

/// Every offset that [`space_offsets`] lists holds a space, and the offsets
/// increase strictly.
pub proof fn lemma_space_offsets(b: Seq<u8>)
    ensures
        forall|k: int|
            0 <= k < space_offsets(b).len() ==> 0 <= #[trigger] space_offsets(b)[k] < b.len()
                && b[space_offsets(b)[k]] == SPACE,
        forall|j: int, k: int|
            0 <= j < k < space_offsets(b).len() ==> space_offsets(b)[j] < space_offsets(b)[k],
{
    lemma_offsets_of(b, SPACE);
}

/// Splitting `b` one byte further adds that byte's offset when it is a space.
pub proof fn lemma_space_offsets_step(b: Seq<u8>, i: int)
    requires
        0 <= i < b.len(),
    ensures
        space_offsets(b.take(i + 1)) == if b[i] == SPACE {
            space_offsets(b.take(i)).push(i)
        } else {
            space_offsets(b.take(i))
        },
{
    lemma_offsets_of_step(b, SPACE, i);
}

/// The offset of the first space byte of `s`, if it has one.
pub fn first_space(s: &str) -> (r: Option<usize>)
    ensures
        r is None <==> space_offsets(s.spec_bytes()).len() == 0,
        r matches Some(i) ==> i == space_offsets(s.spec_bytes())[0],
{
    first_offset(s, SPACE)
}

/// The pieces of a split at the offsets `cuts`, put back together, give the
/// text from the start to the last cut.
pub proof fn lemma_split_rejoins(b: Seq<u8>, cuts: Seq<int>)
    requires
        cuts.len() > 0,
        forall|k: int| 0 <= k < cuts.len() ==> 0 <= #[trigger] cuts[k] <= b.len(),
        forall|j: int, k: int| 0 <= j < k < cuts.len() ==> cuts[j] < cuts[k],
    ensures
        joined(
            Seq::new(cuts.len(), |k: int| b.subrange(piece_start(cuts, k), cuts[k])),
        ) == b.take(cuts.last()),
{
    let all = seq![0int] + cuts;
    assert forall|k: int| 0 <= k < all.len() - 1 implies #[trigger] all[k] <= all[k + 1] by {
        if k > 0 {
            assert(all[k] == cuts[k - 1] && all[k + 1] == cuts[k]);
        }
    }
    lemma_joined_pieces(b, all);
    assert(pieces_at(b, all) =~= Seq::new(
        cuts.len(),
        |k: int| b.subrange(piece_start(cuts, k), cuts[k]),
    ));
}

/// The pieces that [`convert`] gives for the bytes `b`: `b` whole when it
/// has no space, else one piece per space, running from the space before
/// (the start, for the first) up to that space.
pub open spec fn split_pieces(b: Seq<u8>) -> Seq<Seq<u8>> {
    let sp = space_offsets(b);
    if sp.len() == 0 {
        seq![b]
    } else {
        Seq::new(sp.len(), |k: int| b.subrange(piece_start(sp, k), sp[k]))
    }
}

/// Appending bytes without a space leaves the space offsets as they were.
pub proof fn lemma_space_offsets_spaceless_tail(s: Seq<u8>, t: Seq<u8>)
    requires
        !t.contains(SPACE),
    ensures
        space_offsets(s + t) == space_offsets(s),
    decreases t.len(),
{
    if t.len() == 0 {
        assert(s + t =~= s);
    } else {
        let u = t.drop_last();
        assert((s + t).drop_last() =~= s + u);
        assert((s + t).last() == t[t.len() - 1]);
        assert forall|x: u8| u.contains(x) implies t.contains(x) by {
            let i = choose|i: int| 0 <= i < u.len() && u[i] == x;
            assert(t[i] == x);
        }
        lemma_space_offsets_spaceless_tail(s, u);
    }
}

/// Text after the last space does not reach [`convert`]'s result: for a
/// message with a space, appending a tail without a space leaves the pieces
/// unchanged.
pub proof fn lemma_convert_ignores_spaceless_tail(s: Seq<u8>, t: Seq<u8>)
    requires
        s.contains(SPACE),
        !t.contains(SPACE),
    ensures
        split_pieces(s + t) == split_pieces(s),
{
    lemma_offsets_of(s, SPACE);
    lemma_space_offsets(s);
    lemma_space_offsets_spaceless_tail(s, t);
    let sp = space_offsets(s);
    let i = choose|i: int| 0 <= i < s.len() && s[i] == SPACE;
    assert(sp.contains(i));
    assert(sp.len() > 0);
    assert forall|k: int| 0 <= k < sp.len() implies (s + t).subrange(piece_start(sp, k), sp[k])
        == s.subrange(piece_start(sp, k), sp[k]) by {
        if k > 0 {
            assert(sp[k - 1] < sp[k]);
        }
        assert((s + t).subrange(piece_start(sp, k), sp[k]) =~= s.subrange(
            piece_start(sp, k),
            sp[k],
        ));
    }
    assert(split_pieces(s + t) =~= split_pieces(s));
}

/// Splits `string` at its spaces. Each piece runs from the previous space
/// (included) up to the next space (excluded), the first from the start of
/// `string`; the text after the last space is not returned. A string without
/// spaces comes back whole, as the only piece.
pub fn convert(string: &str) -> (pieces: Vec<&str>)
    ensures
        space_offsets(string.spec_bytes()).len() == 0 ==> pieces@.len() == 1 && pieces@[0]@
            == string@,
        space_offsets(string.spec_bytes()).len() > 0 ==> pieces@.len() == space_offsets(
            string.spec_bytes(),
        ).len(),
        space_offsets(string.spec_bytes()).len() > 0 ==> forall|k: int|
            0 <= k < pieces@.len() ==> (#[trigger] pieces@[k]).spec_bytes()
                == string.spec_bytes().subrange(
                piece_start(space_offsets(string.spec_bytes()), k),
                space_offsets(string.spec_bytes())[k],
            ),
        space_offsets(string.spec_bytes()).len() > 0 ==> joined(
            pieces@.map_values(|p: &str| p.spec_bytes()),
        ) == string.spec_bytes().take(space_offsets(string.spec_bytes()).last()),
        pieces@.map_values(|p: &str| p.spec_bytes()) == split_pieces(string.spec_bytes()),
{
    let bytes = string.as_bytes();
    let ghost b = string.spec_bytes();
    let mut pieces: Vec<&str> = Vec::new();
    let mut cut: usize = 0;
    proof {
        lemma_ends_are_boundaries(b);
        assert(b.take(0) =~= Seq::<u8>::empty());
    }
    for i in 0..bytes.len()
        invariant
            bytes@ == b,
            b == string.spec_bytes(),
            valid_utf8(b),
            pieces@.len() == space_offsets(b.take(i as int)).len(),
            forall|k: int|
                0 <= k < pieces@.len() ==> (#[trigger] pieces@[k]).spec_bytes() == b.subrange(
                    piece_start(space_offsets(b.take(i as int)), k),
                    space_offsets(b.take(i as int))[k],
                ),
            cut == piece_start(space_offsets(b.take(i as int)), pieces@.len() as int),
            cut <= i,
            is_char_boundary(b, cut as int),
    {
        proof {
            lemma_space_offsets_step(b, i as int);
            lemma_space_offsets(b.take(i as int));
        }
        if bytes[i] == SPACE {
            proof {
                lemma_ascii_byte_boundaries(b, i as int);
            }
            let piece = byte_slice(string, cut, i);
            pieces.push(piece);
            cut = i;
        }
    }
    assert(b.take(bytes.len() as int) =~= b);
    if pieces.len() == 0 {
        pieces.push(string);
        proof {
            assert(pieces@.map_values(|p: &str| p.spec_bytes()) =~= split_pieces(b));
        }
    } else {
        proof {
            let sp = space_offsets(b);
            lemma_space_offsets(b);
            lemma_split_rejoins(b, sp);
            assert(pieces@.map_values(|p: &str| p.spec_bytes()) =~= Seq::new(
                sp.len(),
                |k: int| b.subrange(piece_start(sp, k), sp[k]),
            ));
            assert(pieces@.map_values(|p: &str| p.spec_bytes()) =~= split_pieces(b));
        }
    }
    pieces
}

} // verus!
