//! Lyrics messages: the title that is searched for, and the song text cut
//! into pieces small enough for a chat message.

use vstd::prelude::*;
use vstd::string::*;
use vstd::utf8::*;

use crate::message::{EmbedField, join2, join3, field};
use crate::string_to_vector::{lemma_text_of_bytes, text};
use crate::strings::{
    byte_slice,
    first_offset,
    joined,
    lemma_joined_pieces,
    pieces_at,
    lemma_ends_are_boundaries,
    lemma_offsets_of,
    lemma_offsets_of_step,
    offsets_of,
    pieces_between,
};

verus! {

broadcast use {vstd::utf8::encode_utf8_valid_utf8, vstd::utf8::encode_utf8_decode_utf8};

/// The byte value of `(`.
pub const OPEN_PAREN: u8 = 40;

/// The bytes of the title that is searched for: everything before the byte
/// that precedes the `(` when the track name has one (so " (Live)" and the
/// like are dropped), else the whole name.
pub open spec fn search_title_bytes(b: Seq<u8>) -> Seq<u8> {
    let p = offsets_of(b, OPEN_PAREN);
    if p.len() == 0 {
        b
    } else {
        b.subrange(0, p[0] - 1)
    }
}

/// The track names whose search title can be cut out: at most one `(`, not
/// in front, and a character boundary just before the byte that precedes it.
pub open spec fn title_searchable(b: Seq<u8>) -> bool {
    let p = offsets_of(b, OPEN_PAREN);
    &&& p.len() <= 1
    &&& p.len() == 1 ==> p[0] >= 1 && is_char_boundary(b, p[0] - 1)
}

/// How many times the byte `x` occurs in `s`.
pub fn count_of(s: &str, x: u8) -> (n: usize)
    ensures
        n == offsets_of(s.spec_bytes(), x).len(),
{
    let bytes = s.as_bytes();
    let ghost b = s.spec_bytes();
    let mut n: usize = 0;
    assert(b.take(0) =~= Seq::<u8>::empty());
    for i in 0..bytes.len()
        invariant
            bytes@ == b,
            n == offsets_of(b.take(i as int), x).len(),
            n <= i,
    {
        proof {
            lemma_offsets_of_step(b, x, i as int);
        }
        if bytes[i] == x {
            n = n + 1;
        }
    }
    assert(b.take(bytes.len() as int) =~= b);
    n
}

/// Whether the search title of `track_name` can be cut out.
pub fn can_search_title(track_name: &str) -> (r: bool)
    ensures
        r == title_searchable(track_name.spec_bytes()),
{
    let n = count_of(track_name, OPEN_PAREN);
    if n > 1 {
        return false;
    }
    match first_offset(track_name, OPEN_PAREN) {
        None => true,
        Some(p) => p >= 1 && track_name.is_char_boundary(p - 1),
    }
}

/// The title that is searched for: `track_name` cut before the byte that
/// precedes its `(`, or whole when it has no `(`.
pub fn search_title(track_name: &str) -> (r: &str)
    requires
        title_searchable(track_name.spec_bytes()),
    ensures
        r.spec_bytes() == search_title_bytes(track_name.spec_bytes()),
{
    let ghost b = track_name.spec_bytes();
    match first_offset(track_name, OPEN_PAREN) {
        None => track_name,
        Some(p) => {
            proof {
                lemma_offsets_of(b, OPEN_PAREN);
                lemma_ends_are_boundaries(b);
            }
            byte_slice(track_name, 0, p - 1)
        },
    }
}

/// How many of the leading entries of `ts` lie below `limit`.
pub open spec fn count_below(ts: Seq<int>, limit: int) -> nat
    decreases ts.len(),
{
    if ts.len() > 0 && ts[0] < limit {
        1 + count_below(ts.drop_first(), limit)
    } else {
        0
    }
}

/// The leading entries that [`count_below`] counts lie below `limit`, and
/// the entry after them does not.
pub proof fn lemma_count_below(ts: Seq<int>, limit: int)
    ensures
        count_below(ts, limit) <= ts.len(),
        forall|i: int| 0 <= i < count_below(ts, limit) ==> #[trigger] ts[i] < limit,
        count_below(ts, limit) < ts.len() ==> ts[count_below(ts, limit) as int] >= limit,
    decreases ts.len(),
{
    if ts.len() > 0 && ts[0] < limit {
        let rest = ts.drop_first();
        lemma_count_below(rest, limit);
        assert forall|i: int| 0 <= i < count_below(ts, limit) implies #[trigger] ts[i] < limit by {
            if i > 0 {
                assert(ts[i] == rest[i - 1]);
            }
        }
    }
}

/// Counting from entry `j` on adds the entries counted before it.
pub proof fn lemma_count_below_skip(ts: Seq<int>, limit: int, j: int)
    requires
        0 <= j < ts.len(),
        count_below(ts, limit) == j + count_below(ts.skip(j), limit),
        ts[j] < limit,
    ensures
        count_below(ts, limit) == j + 1 + count_below(ts.skip(j + 1), limit),
{
    assert(ts.skip(j).drop_first() =~= ts.skip(j + 1));
}

/// The byte offsets after which a new lyrics message begins.
pub open spec fn message_marks() -> Seq<int> {
    seq![1020, 2000, 4000, 6000, 8000, 10000]
}

/// Where the lyrics messages begin and end, for lyrics of `len` bytes: at
/// the start, at each mark below the last byte's offset, and at the last
/// byte's offset (the last byte itself is never sent).
pub open spec fn message_cuts(len: int) -> Seq<int> {
    seq![0] + message_marks().take(count_below(message_marks(), len - 1) as int) + seq![len - 1]
}

fn message_mark(j: usize) -> (m: usize)
    requires
        j < 6,
    ensures
        m == message_marks()[j as int],
{
    match j {
        0 => 1020,
        1 => 2000,
        2 => 4000,
        3 => 6000,
        4 => 8000,
        _ => 10000,
    }
}

/// The offsets of [`message_cuts`], for lyrics of `len` bytes.
fn message_cut_offsets(len: usize) -> (cuts: Vec<usize>)
    requires
        len >= 1,
    ensures
        cuts@.len() == message_cuts(len as int).len(),
        forall|k: int| 0 <= k < cuts@.len() ==> #[trigger] cuts@[k] == message_cuts(len as int)[k],
{
    let ghost marks = message_marks();
    let last = len - 1;
    let mut cuts: Vec<usize> = Vec::new();
    cuts.push(0);
    let mut j: usize = 0;
    assert(marks.skip(0) =~= marks);
    while j < 6 && message_mark(j) < last
        invariant
            marks == message_marks(),
            j <= 6,
            last == len - 1,
            count_below(marks, last as int) == j + count_below(marks.skip(j as int), last as int),
            cuts@.len() == j + 1,
            cuts@[0] == 0,
            forall|k: int| 1 <= k <= j ==> #[trigger] cuts@[k] == marks[k - 1],
        decreases 6 - j,
    {
        proof {
            lemma_count_below_skip(marks, last as int, j as int);
        }
        cuts.push(message_mark(j));
        j = j + 1;
    }
    assert(count_below(marks.skip(j as int), last as int) == 0) by {
        if j < 6 {
            assert(marks.skip(j as int)[0] == marks[j as int]);
        }
    }
    cuts.push(last);
    assert(cuts@.len() == message_cuts(len as int).len());
    assert forall|k: int| 0 <= k < cuts@.len() implies #[trigger] cuts@[k] == message_cuts(
        len as int,
    )[k] by {
        if 1 <= k <= j {
            assert(message_cuts(len as int)[k] == marks[k - 1]);
        }
    }
    cuts
}

/// The lyrics that [`lyric_messages`] can cut: not empty, and with a
/// character boundary at every cut.
pub open spec fn messages_cuttable(b: Seq<u8>) -> bool {
    &&& b.len() >= 1
    &&& forall|k: int|
        0 <= k < message_cuts(b.len() as int).len() ==> is_char_boundary(
            b,
            #[trigger] message_cuts(b.len() as int)[k],
        )
}

/// Whether `lyrics` can be cut into messages.
pub fn can_cut_messages(lyrics: &str) -> (r: bool)
    ensures
        r == messages_cuttable(lyrics.spec_bytes()),
{
    let len = lyrics.as_bytes().len();
    if len == 0 {
        return false;
    }
    let cuts = message_cut_offsets(len);
    let mut k: usize = 0;
    while k < cuts.len()
        invariant
            len == lyrics.spec_bytes().len(),
            len >= 1,
            cuts@.len() == message_cuts(len as int).len(),
            forall|i: int|
                0 <= i < cuts@.len() ==> #[trigger] cuts@[i] == message_cuts(len as int)[i],
            k <= cuts@.len(),
            forall|i: int|
                0 <= i < k ==> is_char_boundary(
                    lyrics.spec_bytes(),
                    #[trigger] message_cuts(len as int)[i],
                ),
        decreases cuts@.len() - k,
    {
        if !lyrics.is_char_boundary(cuts[k]) {
            assert(cuts@[k as int] == message_cuts(len as int)[k as int]);
            return false;
        }
        assert(cuts@[k as int] == message_cuts(len as int)[k as int]);
        k = k + 1;
    }
    true
}

/// The message that carries one piece of the lyrics: the piece in a `css`
/// code block.
pub open spec fn lyric_message(piece: Seq<char>) -> Seq<char> {
    "```css\n"@ + piece + "\n```"@
}

/// `messages` are the lyrics `b` cut into messages: message `k` carries the
/// text between cut `k` and cut `k + 1` of [`message_cuts`].
pub open spec fn are_lyric_messages(b: Seq<u8>, messages: Seq<String>) -> bool {
    &&& messages.len() == message_cuts(b.len() as int).len() - 1
    &&& forall|k: int|
        0 <= k < messages.len() ==> (#[trigger] messages[k])@ == lyric_message(
            text(b.subrange(message_cuts(b.len() as int)[k], message_cuts(b.len() as int)[k + 1])),
        )
}

/// The lyrics cut into messages, as [`are_lyric_messages`] describes.
pub fn lyric_messages(lyrics: &str) -> (messages: Vec<String>)
    requires
        messages_cuttable(lyrics.spec_bytes()),
    ensures
        are_lyric_messages(lyrics.spec_bytes(), messages@),
{
    let ghost b = lyrics.spec_bytes();
    let len = lyrics.as_bytes().len();
    let cuts = message_cut_offsets(len);
    let ghost c = message_cuts(len as int);
    proof {
        lemma_count_below(message_marks(), len - 1);
        assert forall|k: int| 0 <= k < cuts@.len() implies #[trigger] cuts@[k] <= len by {
            assert(cuts@[k] == c[k]);
        }
        assert forall|k: int| 0 <= k < cuts@.len() implies is_char_boundary(
            b,
            #[trigger] cuts@[k] as int,
        ) by {
            assert(cuts@[k] == c[k]);
        }
        assert forall|k: int| 0 <= k < cuts@.len() - 1 implies #[trigger] cuts@[k] <= cuts@[k
            + 1] by {
            assert(cuts@[k] == c[k]);
            assert(cuts@[k + 1] == c[k + 1]);
            let n = count_below(message_marks(), len - 1) as int;
            if 1 <= k && k + 1 <= n {
                assert(message_marks()[k - 1] < message_marks()[k]);
            }
        }
    }
    let pieces = pieces_between(lyrics, &cuts);
    let mut messages: Vec<String> = Vec::new();
    for k in 0..pieces.len()
        invariant
            pieces@.len() == cuts@.len() - 1,
            cuts@.len() == c.len(),
            forall|i: int| 0 <= i < cuts@.len() ==> #[trigger] cuts@[i] == c[i],
            forall|i: int|
                0 <= i < pieces@.len() ==> (#[trigger] pieces@[i]).spec_bytes() == b.subrange(
                    cuts@[i] as int,
                    cuts@[i + 1] as int,
                ),
            messages@.len() == k,
            forall|i: int|
                0 <= i < k ==> (#[trigger] messages@[i])@ == lyric_message(
                    text(b.subrange(c[i], c[i + 1])),
                ),
    {
        let piece = pieces[k];
        proof {
            lemma_text_of_bytes(piece);
            assert(cuts@[k as int] == c[k as int]);
            assert(cuts@[k + 1] == c[k + 1]);
        }
        messages.push(join3("```css\n", piece, "\n```"));
    }
    messages
}

/// The byte offsets after which a new lyrics field begins, in the embedded
/// form of the lyrics.
pub open spec fn field_marks() -> Seq<int> {
    seq![1020, 2040, 3060, 4080, 5100, 6120, 7140]
}

/// Where the lyrics fields begin and end, for lyrics of `len` bytes: at the
/// start, at each mark below `len`, and at the end, except when the last
/// byte's offset is itself a mark: then the last field ends there and the
/// last byte is not shown.
pub open spec fn field_cuts(len: int) -> Seq<int> {
    let taken = field_marks().take(count_below(field_marks(), len) as int);
    if field_marks().contains(len - 1) {
        seq![0] + taken
    } else {
        seq![0] + taken + seq![len]
    }
}

/// For increasing `ts`, `x` is an entry exactly when it is the last of the
/// entries below `x + 1`.
pub proof fn lemma_sorted_contains(ts: Seq<int>, x: int)
    requires
        forall|i: int, j: int| 0 <= i < j < ts.len() ==> ts[i] < ts[j],
    ensures
        ts.contains(x) <==> count_below(ts, x + 1) > 0 && ts[count_below(ts, x + 1) - 1] == x,
{
    lemma_count_below(ts, x + 1);
    let n = count_below(ts, x + 1) as int;
    if n > 0 && ts[n - 1] == x {
        assert(ts[n - 1] == x);
    }
    if ts.contains(x) {
        let i = choose|i: int| 0 <= i < ts.len() && ts[i] == x;
        if i >= n {
            assert(ts[n] <= ts[i]);
        }
        if i < n - 1 {
            assert(ts[i] < ts[n - 1]);
        }
    }
}

fn field_mark(j: usize) -> (m: usize)
    requires
        j < 7,
    ensures
        m == field_marks()[j as int],
{
    match j {
        0 => 1020,
        1 => 2040,
        2 => 3060,
        3 => 4080,
        4 => 5100,
        5 => 6120,
        _ => 7140,
    }
}

/// The offsets of [`field_cuts`], for lyrics of `len` bytes.
fn field_cut_offsets(len: usize) -> (cuts: Vec<usize>)
    requires
        len >= 1,
    ensures
        cuts@.len() == field_cuts(len as int).len(),
        forall|k: int| 0 <= k < cuts@.len() ==> #[trigger] cuts@[k] == field_cuts(len as int)[k],
{
    let ghost marks = field_marks();
    let mut cuts: Vec<usize> = Vec::new();
    cuts.push(0);
    let mut j: usize = 0;
    assert(marks.skip(0) =~= marks);
    while j < 7 && field_mark(j) < len
        invariant
            marks == field_marks(),
            j <= 7,
            count_below(marks, len as int) == j + count_below(marks.skip(j as int), len as int),
            cuts@.len() == j + 1,
            cuts@[0] == 0,
            forall|k: int| 1 <= k <= j ==> #[trigger] cuts@[k] == marks[k - 1],
        decreases 7 - j,
    {
        proof {
            lemma_count_below_skip(marks, len as int, j as int);
        }
        cuts.push(field_mark(j));
        j = j + 1;
    }
    assert(count_below(marks.skip(j as int), len as int) == 0) by {
        if j < 7 {
            assert(marks.skip(j as int)[0] == marks[j as int]);
        }
    }
    proof {
        assert forall|a: int, c: int| 0 <= a < c < marks.len() implies marks[a] < marks[c] by {}
        lemma_sorted_contains(marks, len - 1);
    }
    let ends_on_mark = j > 0 && field_mark(j - 1) == len - 1;
    if !ends_on_mark {
        cuts.push(len);
    }
    assert(cuts@.len() == field_cuts(len as int).len());
    assert forall|k: int| 0 <= k < cuts@.len() implies #[trigger] cuts@[k] == field_cuts(
        len as int,
    )[k] by {
        if 1 <= k <= j {
            assert(field_cuts(len as int)[k] == marks[k - 1]);
        }
    }
    cuts
}

/// The lyrics that [`lyric_fields`] can cut: not empty, and with a character
/// boundary at every cut.
pub open spec fn fields_cuttable(b: Seq<u8>) -> bool {
    &&& b.len() >= 1
    &&& forall|k: int|
        0 <= k < field_cuts(b.len() as int).len() ==> is_char_boundary(
            b,
            #[trigger] field_cuts(b.len() as int)[k],
        )
}

/// Whether `lyrics` can be cut into fields.
pub fn can_cut_fields(lyrics: &str) -> (r: bool)
    ensures
        r == fields_cuttable(lyrics.spec_bytes()),
{
    let len = lyrics.as_bytes().len();
    if len == 0 {
        return false;
    }
    let cuts = field_cut_offsets(len);
    let mut k: usize = 0;
    while k < cuts.len()
        invariant
            len == lyrics.spec_bytes().len(),
            len >= 1,
            cuts@.len() == field_cuts(len as int).len(),
            forall|i: int| 0 <= i < cuts@.len() ==> #[trigger] cuts@[i] == field_cuts(len as int)[i],
            k <= cuts@.len(),
            forall|i: int|
                0 <= i < k ==> is_char_boundary(
                    lyrics.spec_bytes(),
                    #[trigger] field_cuts(len as int)[i],
                ),
        decreases cuts@.len() - k,
    {
        if !lyrics.is_char_boundary(cuts[k]) {
            assert(cuts@[k as int] == field_cuts(len as int)[k as int]);
            return false;
        }
        assert(cuts@[k as int] == field_cuts(len as int)[k as int]);
        k = k + 1;
    }
    true
}

/// `fields` are the lyrics `b` cut into embed fields: field `k` is named
/// `-`, stands on its own line and holds the text between cut `k` and cut
/// `k + 1` of [`field_cuts`].
pub open spec fn are_lyric_fields(b: Seq<u8>, fields: Seq<EmbedField>) -> bool {
    &&& fields.len() == field_cuts(b.len() as int).len() - 1
    &&& forall|k: int|
        0 <= k < fields.len() ==> {
            let f = #[trigger] fields[k];
            &&& f.name@ == "-"@
            &&& !f.inline
            &&& f.value@ == text(
                b.subrange(field_cuts(b.len() as int)[k], field_cuts(b.len() as int)[k + 1]),
            )
        }
}

/// The lyrics cut into embed fields, as [`are_lyric_fields`] describes.
pub fn lyric_fields(lyrics: &str) -> (fields: Vec<EmbedField>)
    requires
        fields_cuttable(lyrics.spec_bytes()),
    ensures
        are_lyric_fields(lyrics.spec_bytes(), fields@),
{
    let ghost b = lyrics.spec_bytes();
    let len = lyrics.as_bytes().len();
    let cuts = field_cut_offsets(len);
    let ghost c = field_cuts(len as int);
    proof {
        lemma_count_below(field_marks(), len as int);
        assert forall|k: int| 0 <= k < cuts@.len() implies #[trigger] cuts@[k] <= len by {
            assert(cuts@[k] == c[k]);
        }
        assert forall|k: int| 0 <= k < cuts@.len() implies is_char_boundary(
            b,
            #[trigger] cuts@[k] as int,
        ) by {
            assert(cuts@[k] == c[k]);
        }
        assert forall|k: int| 0 <= k < cuts@.len() - 1 implies #[trigger] cuts@[k] <= cuts@[k
            + 1] by {
            assert(cuts@[k] == c[k]);
            assert(cuts@[k + 1] == c[k + 1]);
            let n = count_below(field_marks(), len as int) as int;
            if 1 <= k && k + 1 <= n {
                assert(field_marks()[k - 1] < field_marks()[k]);
            }
        }
    }
    let pieces = pieces_between(lyrics, &cuts);
    let mut fields: Vec<EmbedField> = Vec::new();
    for k in 0..pieces.len()
        invariant
            pieces@.len() == cuts@.len() - 1,
            cuts@.len() == c.len(),
            forall|i: int| 0 <= i < cuts@.len() ==> #[trigger] cuts@[i] == c[i],
            forall|i: int|
                0 <= i < pieces@.len() ==> (#[trigger] pieces@[i]).spec_bytes() == b.subrange(
                    cuts@[i] as int,
                    cuts@[i + 1] as int,
                ),
            fields@.len() == k,
            forall|i: int|
                0 <= i < k ==> {
                    let f = #[trigger] fields@[i];
                    &&& f.name@ == "-"@
                    &&& !f.inline
                    &&& f.value@ == text(b.subrange(c[i], c[i + 1]))
                },
    {
        let piece = pieces[k];
        proof {
            lemma_text_of_bytes(piece);
            assert(cuts@[k as int] == c[k as int]);
            assert(cuts@[k + 1] == c[k + 1]);
        }
        fields.push(field("-", piece, false));
    }
    fields
}

/// The reply when no lyrics were found.
pub open spec fn lyrics_not_found_text() -> Seq<char> {
    "❌ | No se han podido encontrar las lyrics de esa cancion"@
}

/// The reply when no lyrics were found.
pub fn lyrics_not_found() -> (r: String)
    ensures
        r@ == lyrics_not_found_text(),
{
    String::from_str("❌ | No se han podido encontrar las lyrics de esa cancion")
}

/// The line of dashes under the title of the lyrics.
pub open spec fn rule_text() -> Seq<char> {
    "--------------------------------------------------------------"@
}

/// What is answered for the lyrics of a track: the not-found reply for empty
/// lyrics, else a title field and the song text in messages.
#[derive(Debug, Clone, PartialEq, Eq)]
pub enum LyricsReply {
    NotFound(String),
    Found { title: EmbedField, messages: Vec<String> },
}

/// The title field over the lyrics of `track_name`: named "🎸 " and the
/// track name, holding the line of dashes, on a line of its own.
pub fn lyrics_title(track_name: &str) -> (title: EmbedField)
    ensures
        title.name@ == "🎸 "@ + track_name@,
        title.value@ == rule_text(),
        !title.inline,
{
    EmbedField {
        name: join2("🎸 ", track_name),
        value: String::from_str("--------------------------------------------------------------"),
        inline: false,
    }
}

/// The answer for the lyrics `lyrics` of `track_name`: the not-found reply
/// when they are empty, else a title field named "🎸 " and the track name,
/// holding the line of dashes on its own line, followed by the messages of
/// [`are_lyric_messages`].
pub fn lyrics_reply(track_name: &str, lyrics: &str) -> (r: LyricsReply)
    requires
        lyrics.spec_bytes().len() > 0 ==> messages_cuttable(lyrics.spec_bytes()),
    ensures
        r is NotFound <==> lyrics.spec_bytes().len() == 0,
        r matches LyricsReply::NotFound(t) ==> t@ == lyrics_not_found_text(),
        r matches LyricsReply::Found { title, messages } ==> {
            &&& title.name@ == "🎸 "@ + track_name@
            &&& title.value@ == rule_text()
            &&& !title.inline
            &&& are_lyric_messages(lyrics.spec_bytes(), messages@)
        },
{
    if lyrics.as_bytes().len() == 0 {
        LyricsReply::NotFound(lyrics_not_found())
    } else {
        LyricsReply::Found { title: lyrics_title(track_name), messages: lyric_messages(lyrics) }
    }
}

/// The embedded form of the lyrics of a track: the not-found reply for empty
/// lyrics, else a title field and the song text in fields.
#[derive(Debug, Clone, PartialEq, Eq)]
pub enum LyricsEmbed {
    NotFound(String),
    Found { title: EmbedField, fields: Vec<EmbedField> },
}

/// The embedded answer for the lyrics `lyrics` of `track_name`: the
/// not-found reply when they are empty, else a title field named "🎶 ", the
/// track name and a space, holding the line of dashes on its own line,
/// followed by the fields of [`are_lyric_fields`].
pub fn lyrics_embed(track_name: &str, lyrics: &str) -> (r: LyricsEmbed)
    requires
        lyrics.spec_bytes().len() > 0 ==> fields_cuttable(lyrics.spec_bytes()),
    ensures
        r is NotFound <==> lyrics.spec_bytes().len() == 0,
        r matches LyricsEmbed::NotFound(t) ==> t@ == lyrics_not_found_text(),
        r matches LyricsEmbed::Found { title, fields } ==> {
            &&& title.name@ == "🎶 "@ + track_name@ + " "@
            &&& title.value@ == rule_text()
            &&& !title.inline
            &&& are_lyric_fields(lyrics.spec_bytes(), fields@)
        },
{
    if lyrics.as_bytes().len() == 0 {
        LyricsEmbed::NotFound(lyrics_not_found())
    } else {
        let title = EmbedField {
            name: join3("🎶 ", track_name, " "),
            value: String::from_str("--------------------------------------------------------------"),
            inline: false,
        };
        LyricsEmbed::Found { title, fields: lyric_fields(lyrics) }
    }
}

/// The lyrics messages together carry the whole lyrics but their last
/// byte: the pieces between the cuts of [`message_cuts`], put back
/// together, give all of `b` except its last byte.
pub proof fn lemma_messages_cover(b: Seq<u8>)
    requires
        b.len() >= 1,
    ensures
        joined(pieces_at(b, message_cuts(b.len() as int))) == b.take(b.len() - 1),
{
    let len = b.len() as int;
    let c = message_cuts(len);
    let n = count_below(message_marks(), len - 1) as int;
    lemma_count_below(message_marks(), len - 1);
    assert forall|k: int| 0 <= k < c.len() - 1 implies #[trigger] c[k] <= c[k + 1] by {
        if 1 <= k && k + 1 <= n {
            assert(message_marks()[k - 1] < message_marks()[k]);
        }
    }
    lemma_joined_pieces(b, c);
}

/// The lyrics fields together carry the whole lyrics, except when the last
/// byte's offset is one of the marks: then they carry all but that byte.
pub proof fn lemma_fields_cover(b: Seq<u8>)
    requires
        b.len() >= 1,
    ensures
        joined(pieces_at(b, field_cuts(b.len() as int))) == if field_marks().contains(
            b.len() - 1,
        ) {
            b.take(b.len() - 1)
        } else {
            b
        },
{
    let len = b.len() as int;
    let marks = field_marks();
    let c = field_cuts(len);
    let n = count_below(marks, len) as int;
    lemma_count_below(marks, len);
    assert forall|a: int, d: int| 0 <= a < d < marks.len() implies marks[a] < marks[d] by {}
    lemma_sorted_contains(marks, len - 1);
    assert forall|k: int| 0 <= k < c.len() - 1 implies #[trigger] c[k] <= c[k + 1] by {
        if 1 <= k && k + 1 <= n {
            assert(marks[k - 1] < marks[k]);
        }
    }
    lemma_joined_pieces(b, c);
    assert(b.subrange(0, len) =~= b);
}

} // verus!
