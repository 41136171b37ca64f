//! Byte-exact slicing of `str` values, whitespace trimming and decimal
//! rendering, shared by the message-building modules.

use vstd::prelude::*;
use vstd::string::*;
use vstd::utf8::*;

verus! {

broadcast use vstd::utf8::encode_utf8_valid_utf8;

/// In valid UTF-8, a byte index strictly inside the sequence is a character
/// boundary exactly when the byte there is not a continuation byte.
pub proof fn lemma_boundary_iff(bytes: Seq<u8>, i: int)
    requires
        valid_utf8(bytes),
        0 <= i < bytes.len(),
    ensures
        is_char_boundary(bytes, i) <==> !is_continuation_byte(bytes[i]),
{
    is_char_boundary_iff_not_is_continuation_byte(bytes, i);
}

/// The start and the end of a valid UTF-8 sequence are character boundaries.
pub proof fn lemma_ends_are_boundaries(bytes: Seq<u8>)
    requires
        valid_utf8(bytes),
    ensures
        is_char_boundary(bytes, 0),
        is_char_boundary(bytes, bytes.len() as int),
{
    is_char_boundary_start_end_of_seq(bytes);
}

/// A boundary of a valid UTF-8 sequence stays a boundary of any prefix that
/// ends on a boundary at or after it.
pub proof fn lemma_boundary_in_prefix(bytes: Seq<u8>, end: int, i: int)
    requires
        valid_utf8(bytes),
        0 <= i <= end <= bytes.len(),
        is_char_boundary(bytes, end),
        is_char_boundary(bytes, i),
    ensures
        valid_utf8(bytes.subrange(0, end)),
        is_char_boundary(bytes.subrange(0, end), i),
{
    valid_utf8_split(bytes, end);
    let prefix = bytes.subrange(0, end);
    lemma_ends_are_boundaries(prefix);
    if i < end {
        lemma_boundary_iff(bytes, i);
        lemma_boundary_iff(prefix, i);
    }
}

/// An ASCII byte of a valid UTF-8 sequence starts a character, and the
/// position just after it is a character boundary as well.
pub proof fn lemma_ascii_byte_boundaries(bytes: Seq<u8>, i: int)
    requires
        valid_utf8(bytes),
        0 <= i < bytes.len(),
        bytes[i] < 0x80,
    ensures
        is_char_boundary(bytes, i),
        is_char_boundary(bytes, i + 1),
{
    lemma_boundary_iff(bytes, i);
    lemma_ends_are_boundaries(bytes);
    if i + 1 < bytes.len() {
        valid_utf8_split(bytes, i);
        let suffix = bytes.subrange(i, bytes.len() as int);
        assert(suffix[0] == bytes[i]);
        assert(length_of_first_scalar(suffix) == 1);
        assert(is_char_boundary(suffix, 1)) by {
            reveal_with_fuel(is_char_boundary, 2);
        }
        lemma_boundary_iff(suffix, 1);
        assert(suffix[1] == bytes[i + 1]);
        lemma_boundary_iff(bytes, i + 1);
    }
}

/// The part of `s` between the byte offsets `from` and `to`, the same text
/// that `&s[from..to]` gives.
pub fn byte_slice<'a>(s: &'a str, from: usize, to: usize) -> (r: &'a str)
    requires
        from <= to <= s.spec_bytes().len(),
        is_char_boundary(s.spec_bytes(), from as int),
        is_char_boundary(s.spec_bytes(), to as int),
    ensures
        r.spec_bytes() == s.spec_bytes().subrange(from as int, to as int),
{
    let ghost bytes = s.spec_bytes();
    let (head, _) = s.split_at(to);
    proof {
        lemma_boundary_in_prefix(bytes, to as int, from as int);
    }
    let (_, mid) = head.split_at(from);
    assert(mid.spec_bytes() =~= bytes.subrange(from as int, to as int));
    mid
}

/// The offsets at which the byte `x` occurs in `b`, in increasing order.
pub open spec fn offsets_of(b: Seq<u8>, x: u8) -> Seq<int>
    decreases b.len(),
{
    if b.len() == 0 {
        seq![]
    } else if b.last() == x {
        offsets_of(b.drop_last(), x).push(b.len() - 1)
    } else {
        offsets_of(b.drop_last(), x)
    }
}

/// Every offset that [`offsets_of`] lists holds `x`, every `x` is listed,
/// and the offsets increase strictly.
pub proof fn lemma_offsets_of(b: Seq<u8>, x: u8)
    ensures
        forall|k: int|
            0 <= k < offsets_of(b, x).len() ==> 0 <= #[trigger] offsets_of(b, x)[k] < b.len()
                && b[offsets_of(b, x)[k]] == x,
        forall|j: int, k: int|
            0 <= j < k < offsets_of(b, x).len() ==> offsets_of(b, x)[j] < offsets_of(b, x)[k],
        forall|i: int| 0 <= i < b.len() && b[i] == x ==> offsets_of(b, x).contains(i),
    decreases b.len(),
{
    if b.len() > 0 {
        let rest = b.drop_last();
        lemma_offsets_of(rest, x);
        let r = offsets_of(rest, x);
        let all = offsets_of(b, x);
        assert forall|k: int| 0 <= k < all.len() implies 0 <= #[trigger] all[k] < b.len() && b[all[k]]
            == x by {
            if k < r.len() {
                assert(all[k] == r[k]);
                assert(rest[r[k]] == b[r[k]]);
            }
        }
        assert forall|j: int, k: int| 0 <= j < k < all.len() implies all[j] < all[k] by {
            if k < r.len() {
                assert(all[k] == r[k] && all[j] == r[j]);
            } else {
                assert(all[j] == r[j]);
            }
        }
        assert forall|i: int| 0 <= i < b.len() && b[i] == x implies all.contains(i) by {
            if i < b.len() - 1 {
                assert(rest[i] == b[i]);
                let k = choose|k: int| 0 <= k < r.len() && r[k] == i;
                assert(all[k] == i);
            } else {
                assert(all[all.len() - 1] == i);
            }
        }
    }
}

/// Looking one byte further into `b` adds that byte's offset when it is `x`.
pub proof fn lemma_offsets_of_step(b: Seq<u8>, x: u8, i: int)
    requires
        0 <= i < b.len(),
    ensures
        offsets_of(b.take(i + 1), x) == if b[i] == x {
            offsets_of(b.take(i), x).push(i)
        } else {
            offsets_of(b.take(i), x)
        },
{
    assert(b.take(i + 1).drop_last() =~= b.take(i));
}

/// The occurrences of `x` in a prefix of `b` are the first occurrences in
/// any longer prefix.
pub proof fn lemma_offsets_of_prefix(b: Seq<u8>, x: u8, m: int, n: int)
    requires
        0 <= m <= n <= b.len(),
    ensures
        offsets_of(b.take(m), x).len() <= offsets_of(b.take(n), x).len(),
        forall|k: int|
            0 <= k < offsets_of(b.take(m), x).len() ==> offsets_of(b.take(n), x)[k]
                == offsets_of(b.take(m), x)[k],
    decreases n - m,
{
    if m < n {
        lemma_offsets_of_prefix(b, x, m, n - 1);
        lemma_offsets_of_step(b, x, n - 1);
    }
}

/// The offset of the first `x` byte of `s`, if it has one.
pub fn first_offset(s: &str, x: u8) -> (r: Option<usize>)
    ensures
        r is None <==> offsets_of(s.spec_bytes(), x).len() == 0,
        r matches Some(i) ==> i == offsets_of(s.spec_bytes(), x)[0],
{
    let bytes = s.as_bytes();
    let ghost b = s.spec_bytes();
    let mut i: usize = 0;
    assert(b.take(0) =~= Seq::<u8>::empty());
    while i < bytes.len()
        invariant
            bytes@ == b,
            b == s.spec_bytes(),
            i <= b.len(),
            offsets_of(b.take(i as int), x).len() == 0,
        decreases b.len() - i,
    {
        proof {
            lemma_offsets_of_step(b, x, i as int);
        }
        if bytes[i] == x {
            proof {
                assert(offsets_of(b.take(i + 1), x) =~= seq![i as int]);
                lemma_offsets_of_prefix(b, x, i + 1, b.len() as int);
                assert(b.take(b.len() as int) =~= b);
            }
            return Some(i);
        }
        i = i + 1;
    }
    assert(b.take(b.len() as int) =~= b);
    None
}

/// The consecutive parts of `s` between the byte offsets in `cuts`: part `k`
/// runs from `cuts[k]` to `cuts[k + 1]`.
pub fn pieces_between<'a>(s: &'a str, cuts: &Vec<usize>) -> (parts: Vec<&'a str>)
    requires
        cuts@.len() >= 1,
        forall|k: int| 0 <= k < cuts@.len() ==> #[trigger] cuts@[k] <= s.spec_bytes().len(),
        forall|k: int|
            0 <= k < cuts@.len() ==> is_char_boundary(s.spec_bytes(), #[trigger] cuts@[k] as int),
        forall|k: int| 0 <= k < cuts@.len() - 1 ==> #[trigger] cuts@[k] <= cuts@[k + 1],
    ensures
        parts@.len() == cuts@.len() - 1,
        forall|k: int|
            0 <= k < parts@.len() ==> (#[trigger] parts@[k]).spec_bytes()
                == s.spec_bytes().subrange(cuts@[k] as int, cuts@[k + 1] as int),
{
    let mut parts: Vec<&'a str> = Vec::new();
    let n = cuts.len() - 1;
    for k in 0..n
        invariant
            n == cuts@.len() - 1,
            parts@.len() == k,
            forall|k: int| 0 <= k < cuts@.len() ==> #[trigger] cuts@[k] <= s.spec_bytes().len(),
            forall|k: int|
                0 <= k < cuts@.len() ==> is_char_boundary(s.spec_bytes(), #[trigger] cuts@[k] as int),
            forall|k: int| 0 <= k < cuts@.len() - 1 ==> #[trigger] cuts@[k] <= cuts@[k + 1],
            forall|j: int|
                0 <= j < parts@.len() ==> (#[trigger] parts@[j]).spec_bytes()
                    == s.spec_bytes().subrange(cuts@[j] as int, cuts@[j + 1] as int),
    {
        let from = cuts[k];
        let to = cuts[k + 1];
        parts.push(byte_slice(s, from, to));
    }
    parts
}

/// The parts of `b` between consecutive offsets of `cuts`: part `k` runs
/// from `cuts[k]` to `cuts[k + 1]`.
pub open spec fn pieces_at(b: Seq<u8>, cuts: Seq<int>) -> Seq<Seq<u8>> {
    Seq::new((cuts.len() - 1) as nat, |k: int| b.subrange(cuts[k], cuts[k + 1]))
}

/// The parts put back together, in order.
pub open spec fn joined(parts: Seq<Seq<u8>>) -> Seq<u8>
    decreases parts.len(),
{
    if parts.len() == 0 {
        seq![]
    } else {
        joined(parts.drop_last()) + parts.last()
    }
}

/// Cutting `b` at increasing offsets and putting the parts back together
/// gives the part of `b` from the first cut to the last.
pub proof fn lemma_joined_pieces(b: Seq<u8>, cuts: Seq<int>)
    requires
        cuts.len() >= 1,
        0 <= cuts[0],
        cuts.last() <= b.len(),
        forall|k: int| 0 <= k < cuts.len() - 1 ==> #[trigger] cuts[k] <= cuts[k + 1],
    ensures
        joined(pieces_at(b, cuts)) == b.subrange(cuts[0], cuts.last()),
    decreases cuts.len(),
{
    if cuts.len() == 1 {
        assert(pieces_at(b, cuts) =~= Seq::<Seq<u8>>::empty());
        assert(b.subrange(cuts[0], cuts.last()) =~= Seq::<u8>::empty());
    } else {
        let shorter = cuts.drop_last();
        assert forall|k: int| 0 <= k < cuts.len() - 1 implies cuts[k] <= cuts.last() by {
            lemma_cuts_ordered(cuts, k, cuts.len() - 1);
        }
        lemma_cuts_ordered(cuts, 0, cuts.len() - 2);
        assert(shorter.last() == cuts[cuts.len() - 2]);
        lemma_joined_pieces(b, shorter);
        assert(pieces_at(b, cuts).drop_last() =~= pieces_at(b, shorter));
        assert(b.subrange(cuts[0], cuts.last()) =~= b.subrange(cuts[0], shorter.last())
            + b.subrange(shorter.last(), cuts.last()));
    }
}

/// Offsets that increase step by step increase over any distance.
pub proof fn lemma_cuts_ordered(cuts: Seq<int>, i: int, j: int)
    requires
        0 <= i <= j < cuts.len(),
        forall|k: int| 0 <= k < cuts.len() - 1 ==> #[trigger] cuts[k] <= cuts[k + 1],
    ensures
        cuts[i] <= cuts[j],
    decreases j - i,
{
    if i < j {
        lemma_cuts_ordered(cuts, i, j - 1);
    }
}

/// The characters with the Unicode `White_Space` property, the set that
/// `char::is_whitespace` and `str::trim` go by.
pub open spec fn is_white_space(c: char) -> bool {
    let u = c as u32;
    ||| 0x9 <= u <= 0xd
    ||| u == 0x20
    ||| u == 0x85
    ||| u == 0xa0
    ||| u == 0x1680
    ||| 0x2000 <= u <= 0x200a
    ||| u == 0x2028
    ||| u == 0x2029
    ||| u == 0x202f
    ||| u == 0x205f
    ||| u == 0x3000
}

/// Whether `c` is white space in the sense of [`is_white_space`].
pub fn white_space(c: char) -> (r: bool)
    ensures
        r == is_white_space(c),
{
    let u = c as u32;
    (0x9 <= u && u <= 0xd) || u == 0x20 || u == 0x85 || u == 0xa0 || u == 0x1680 || (0x2000 <= u
        && u <= 0x200a) || u == 0x2028 || u == 0x2029 || u == 0x202f || u == 0x205f || u == 0x3000
}

/// `s` without its leading white space.
pub open spec fn trim_start(s: Seq<char>) -> Seq<char>
    decreases s.len(),
{
    if s.len() > 0 && is_white_space(s[0]) {
        trim_start(s.drop_first())
    } else {
        s
    }
}

/// `s` without its trailing white space.
pub open spec fn trim_end(s: Seq<char>) -> Seq<char>
    decreases s.len(),
{
    if s.len() > 0 && is_white_space(s.last()) {
        trim_end(s.drop_last())
    } else {
        s
    }
}

/// `s` without its leading and trailing white space.
pub open spec fn trimmed(s: Seq<char>) -> Seq<char> {
    trim_end(trim_start(s))
}

/// Removing leading white space keeps a suffix of `s` that does not begin
/// with white space, and drops only white space.
pub proof fn lemma_trim_start(s: Seq<char>)
    ensures
        exists|a: int|
            0 <= a <= s.len() && trim_start(s) == s.subrange(a, s.len() as int) && (forall|i: int|
                0 <= i < a ==> is_white_space(#[trigger] s[i])),
        trim_start(s).len() > 0 ==> !is_white_space(trim_start(s)[0]),
    decreases s.len(),
{
    if s.len() > 0 && is_white_space(s[0]) {
        let rest = s.drop_first();
        lemma_trim_start(rest);
        let a = choose|a: int|
            0 <= a <= rest.len() && trim_start(rest) == rest.subrange(a, rest.len() as int) && (
            forall|i: int| 0 <= i < a ==> is_white_space(#[trigger] rest[i]));
        assert(rest.subrange(a, rest.len() as int) =~= s.subrange(a + 1, s.len() as int));
        assert forall|i: int| 0 <= i < a + 1 implies is_white_space(#[trigger] s[i]) by {
            if i > 0 {
                assert(s[i] == rest[i - 1]);
            }
        }
    } else {
        assert(s.subrange(0, s.len() as int) =~= s);
    }
}

/// Removing trailing white space keeps a prefix of `s` that does not end
/// with white space, and drops only white space.
pub proof fn lemma_trim_end(s: Seq<char>)
    ensures
        exists|e: int|
            0 <= e <= s.len() && trim_end(s) == s.subrange(0, e) && (forall|i: int|
                e <= i < s.len() ==> is_white_space(#[trigger] s[i])),
        trim_end(s).len() > 0 ==> !is_white_space(trim_end(s).last()),
    decreases s.len(),
{
    if s.len() > 0 && is_white_space(s.last()) {
        let rest = s.drop_last();
        lemma_trim_end(rest);
        let e = choose|e: int|
            0 <= e <= rest.len() && trim_end(rest) == rest.subrange(0, e) && (forall|i: int|
                e <= i < rest.len() ==> is_white_space(#[trigger] rest[i]));
        assert(rest.subrange(0, e) =~= s.subrange(0, e));
        assert forall|i: int| e <= i < s.len() implies is_white_space(#[trigger] s[i]) by {
            if i < s.len() - 1 {
                assert(s[i] == rest[i]);
            }
        }
    } else {
        assert(s.subrange(0, s.len() as int) =~= s);
    }
}

/// What trimming gives is a piece of `s` that neither begins nor ends with
/// white space, so that trimming it again changes nothing; all that is cut
/// off is white space.
pub proof fn lemma_trimmed(s: Seq<char>)
    ensures
        exists|a: int, e: int|
            0 <= a <= e <= s.len() && trimmed(s) == s.subrange(a, e) && (forall|i: int|
                0 <= i < a ==> is_white_space(#[trigger] s[i])) && (forall|i: int|
                e <= i < s.len() ==> is_white_space(#[trigger] s[i])),
        trimmed(s).len() > 0 ==> !is_white_space(trimmed(s)[0]) && !is_white_space(
            trimmed(s).last(),
        ),
        trimmed(trimmed(s)) == trimmed(s),
{
    let front = trim_start(s);
    let t = trim_end(front);
    lemma_trim_start(s);
    lemma_trim_end(front);
    let a = choose|a: int|
        0 <= a <= s.len() && trim_start(s) == s.subrange(a, s.len() as int) && (forall|i: int|
            0 <= i < a ==> is_white_space(#[trigger] s[i]));
    let e = choose|e: int|
        0 <= e <= front.len() && trim_end(front) == front.subrange(0, e) && (forall|i: int|
            e <= i < front.len() ==> is_white_space(#[trigger] front[i]));
    assert(t =~= s.subrange(a, a + e));
    assert forall|i: int| a + e <= i < s.len() implies is_white_space(#[trigger] s[i]) by {
        assert(s[i] == front[i - a]);
    }
    if t.len() > 0 {
        assert(t[0] == front[0]);
        assert(trim_start(t) == t);
        assert(trim_end(t) == t);
    } else {
        assert(trim_start(t) =~= t);
    }
}

/// `s` with leading and trailing white space removed, as `str::trim` does.
pub fn trim(s: &str) -> (r: &str)
    ensures
        r@ == trimmed(s@),
{
    let n = s.unicode_len();
    let mut start: usize = 0;
    assert(s@.subrange(0, n as int) =~= s@);
    while start < n && white_space(s.get_char(start))
        invariant
            n == s@.len(),
            start <= n,
            trim_start(s@) == trim_start(s@.subrange(start as int, n as int)),
        decreases n - start,
    {
        assert(s@.subrange(start as int, n as int).drop_first() =~= s@.subrange(
            start + 1,
            n as int,
        ));
        start = start + 1;
    }
    let ghost front = s@.subrange(start as int, n as int);
    assert(trim_start(s@) == front);
    let mut end: usize = n;
    while end > start && white_space(s.get_char(end - 1))
        invariant
            n == s@.len(),
            start <= end <= n,
            front == s@.subrange(start as int, n as int),
            trim_end(front) == trim_end(s@.subrange(start as int, end as int)),
        decreases end - start,
    {
        assert(s@.subrange(start as int, end as int).drop_last() =~= s@.subrange(
            start as int,
            end - 1,
        ));
        end = end - 1;
    }
    s.substring_char(start, end)
}

} // verus!
