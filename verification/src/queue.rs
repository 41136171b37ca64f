//! The messages about the track queue: the listing of queued tracks and the
//! card that announces a newly queued track.

use vstd::prelude::*;
use vstd::string::*;

use crate::message::{EmbedField, join2, join3, decimal, decimal_string, field};

verus! {

/// The name of the listing row of the track at 1-based position `position`.
pub open spec fn row_name(position: nat) -> Seq<char> {
    "💿 "@ + decimal(position) + "."@
}

/// The rows of the queue listing, one per track that has a title, in queue
/// order: the row name carries the track's position in the whole queue
/// (untitled tracks count too) and the row value is the title.
pub open spec fn queue_rows(titles: Seq<Option<String>>) -> Seq<(Seq<char>, Seq<char>)>
    decreases titles.len(),
{
    if titles.len() == 0 {
        seq![]
    } else {
        let rest = queue_rows(titles.drop_last());
        match titles.last() {
            Some(t) => rest.push((row_name(titles.len()), t@)),
            None => rest,
        }
    }
}

/// How many of the tracks have a title.
pub open spec fn titled_count(titles: Seq<Option<String>>) -> nat
    decreases titles.len(),
{
    if titles.len() == 0 {
        0
    } else if titles.last() is Some {
        titled_count(titles.drop_last()) + 1
    } else {
        titled_count(titles.drop_last())
    }
}

/// The queue listing has one row per titled track, and so none exactly when
/// no track has a title.
pub proof fn lemma_one_row_per_titled_track(titles: Seq<Option<String>>)
    ensures
        queue_rows(titles).len() == titled_count(titles),
        queue_rows(titles).len() == 0 <==> forall|i: int|
            0 <= i < titles.len() ==> #[trigger] titles[i] is None,
    decreases titles.len(),
{
    if titles.len() > 0 {
        let rest = titles.drop_last();
        lemma_one_row_per_titled_track(rest);
        if queue_rows(titles).len() == 0 {
            assert forall|i: int| 0 <= i < titles.len() implies #[trigger] titles[i] is None by {
                if i < titles.len() - 1 {
                    assert(titles[i] == rest[i]);
                }
            }
        } else {
            if titles.last() is None {
                let i = choose|i: int| 0 <= i < rest.len() && !(rest[i] is None);
                assert(titles[i] == rest[i]);
            }
        }
    }
}

/// The reply when the queue has no titled track.
pub open spec fn empty_queue_text() -> Seq<char> {
    "⛔ No hay mas canciones en la lista..."@
}

/// The listing of the queue: its fields, or the reply that the queue is
/// empty.
#[derive(Debug, Clone, PartialEq, Eq)]
pub enum QueueListing {
    Empty(String),
    Fields(Vec<EmbedField>),
}

/// The listing of a queue whose tracks have the titles `titles`: one field
/// per row of [`queue_rows`], each on its own line, or the empty-queue reply
/// when there is no row.
pub fn queue_listing(titles: &Vec<Option<String>>) -> (r: QueueListing)
    ensures
        r is Empty <==> queue_rows(titles@).len() == 0,
        r matches QueueListing::Empty(t) ==> t@ == empty_queue_text(),
        r matches QueueListing::Fields(fields) ==> {
            &&& fields@.len() == queue_rows(titles@).len()
            &&& forall|k: int|
                0 <= k < fields@.len() ==> {
                    let f = #[trigger] fields@[k];
                    &&& f.name@ == queue_rows(titles@)[k].0
                    &&& f.value@ == queue_rows(titles@)[k].1
                    &&& !f.inline
                }
        },
{
    let mut fields: Vec<EmbedField> = Vec::new();
    assert(titles@.take(0) =~= Seq::<Option<String>>::empty());
    for i in 0..titles.len()
        invariant
            fields@.len() == queue_rows(titles@.take(i as int)).len(),
            forall|k: int|
                0 <= k < fields@.len() ==> {
                    let f = #[trigger] fields@[k];
                    &&& f.name@ == queue_rows(titles@.take(i as int))[k].0
                    &&& f.value@ == queue_rows(titles@.take(i as int))[k].1
                    &&& !f.inline
                },
    {
        assert(titles@.take(i + 1).drop_last() =~= titles@.take(i as int));
        assert(titles@.take(i + 1).last() == titles@[i as int]);
        match &titles[i] {
            Some(title) => {
                let position = decimal_string((i + 1) as u64);
                let name = join3("💿 ", position.as_str(), ".");
                fields.push(EmbedField { name, value: title.clone(), inline: false });
            },
            None => {},
        }
    }
    assert(titles@.take(titles@.len() as int) =~= titles@);
    if fields.len() == 0 {
        QueueListing::Empty(String::from_str("⛔ No hay mas canciones en la lista..."))
    } else {
        QueueListing::Fields(fields)
    }
}

/// The largest whole number of seconds in a `chrono::Duration` (which holds
/// at most `i64::MAX` milliseconds).
pub const CHRONO_MAX_SECS: u64 = 9223372036854775;

/// The nanoseconds beyond [`CHRONO_MAX_SECS`] that a `chrono::Duration`
/// still holds.
pub const CHRONO_MAX_NANOS: u32 = 807000000;

/// The `std` durations, given as whole seconds and nanoseconds, that
/// `chrono::Duration::from_std` converts: those up to `i64::MAX` milliseconds.
pub open spec fn chrono_convertible(secs: u64, nanos: u32) -> bool {
    secs < CHRONO_MAX_SECS || (secs == CHRONO_MAX_SECS && nanos <= CHRONO_MAX_NANOS)
}

/// The duration shown for a track: its whole minutes, as
/// `chrono::Duration::from_std(..).num_minutes()` counts them, or 0 when the
/// track has no duration.
pub open spec fn shown_minutes(duration: Option<(u64, u32)>) -> nat {
    match duration {
        Some((secs, _)) => (secs / 60) as nat,
        None => 0,
    }
}

/// The minutes shown for a duration are all its whole minutes: sixty times
/// them is at most its seconds, and less than a minute short of them; a
/// track without a duration shows none.
pub proof fn lemma_shown_minutes(secs: u64, nanos: u32)
    ensures
        shown_minutes(Some((secs, nanos))) * 60 <= secs < shown_minutes(Some((secs, nanos))) * 60
            + 60,
        shown_minutes(None) == 0,
{
}

/// The durations that can be shown: none, or one that chrono converts.
pub open spec fn duration_showable(duration: Option<(u64, u32)>) -> bool {
    match duration {
        Some((secs, nanos)) => nanos < 1_000_000_000 && chrono_convertible(secs, nanos),
        None => true,
    }
}

/// Whether `duration` can be shown.
pub fn can_show_duration(duration: Option<(u64, u32)>) -> (r: bool)
    ensures
        r == duration_showable(duration),
{
    match duration {
        Some((secs, nanos)) => nanos < 1_000_000_000 && (secs < CHRONO_MAX_SECS || (secs
            == CHRONO_MAX_SECS && nanos <= CHRONO_MAX_NANOS)),
        None => true,
    }
}

/// The whole minutes of `duration` that a track card shows.
pub fn minutes_of(duration: Option<(u64, u32)>) -> (m: u64)
    requires
        duration_showable(duration),
    ensures
        m == shown_minutes(duration),
        duration is None ==> m == 0,
        duration matches Some((secs, _)) ==> m * 60 <= secs < m * 60 + 60,
{
    match duration {
        Some((secs, _)) => secs / 60,
        None => 0,
    }
}

/// What is known of a track that was found for the queue.
#[derive(Debug, Clone, PartialEq, Eq)]
pub struct TrackInfo {
    pub title: Option<String>,
    pub artist: Option<String>,
    pub source_url: Option<String>,
    pub thumbnail: Option<String>,
    /// The track's length as whole seconds and nanoseconds.
    pub duration: Option<(u64, u32)>,
}

/// The tracks that can be announced: those without a title (nothing is
/// announced), and those with a title, an artist, a link, a thumbnail and a
/// duration that can be shown.
pub open spec fn announceable(track: TrackInfo) -> bool {
    track.title is Some ==> {
        &&& track.artist is Some
        &&& track.source_url is Some
        &&& track.thumbnail is Some
        &&& duration_showable(track.duration)
    }
}

/// Whether `track` can be announced.
pub fn can_announce(track: &TrackInfo) -> (r: bool)
    ensures
        r == announceable(*track),
{
    track.title.is_none() || (track.artist.is_some() && track.source_url.is_some()
        && track.thumbnail.is_some() && can_show_duration(track.duration))
}

/// The text of the duration field of a track card.
pub open spec fn minutes_text(duration: Option<(u64, u32)>) -> Seq<char> {
    decimal(shown_minutes(duration)) + " minutos"@
}

/// The card that announces a queued track.
#[derive(Debug, Clone, PartialEq, Eq)]
pub struct TrackCard {
    pub title: String,
    pub description: String,
    pub fields: Vec<EmbedField>,
    pub url: String,
    pub thumbnail: String,
}

/// The description of a track card.
pub open spec fn card_description() -> Seq<char> {
    "```css\n🎙️ Se ha añadido a la lista de canciones\n```"@
}

/// The card that announces `track`, queued at the request of `author`:
/// nothing for a track without a title; else a card titled with the track's
/// title, linking to it, with its thumbnail, the fixed description, and the
/// side-by-side fields "Autor: " (the artist), "Solicitado por:" (the author)
/// and "⌚ Duracion:" (the whole minutes followed by " minutos").
pub fn track_card(track: &TrackInfo, author: &str) -> (card: Option<TrackCard>)
    requires
        announceable(*track),
    ensures
        card is None <==> track.title is None,
        card matches Some(c) ==> {
            &&& c.title@ == track.title->0@
            &&& c.description@ == card_description()
            &&& c.url@ == track.source_url->0@
            &&& c.thumbnail@ == track.thumbnail->0@
            &&& c.fields@.len() == 3
            &&& c.fields@[0].name@ == "Autor: "@
            &&& c.fields@[0].value@ == track.artist->0@
            &&& c.fields@[0].inline
            &&& c.fields@[1].name@ == "Solicitado por:"@
            &&& c.fields@[1].value@ == author@
            &&& c.fields@[1].inline
            &&& c.fields@[2].name@ == "⌚ Duracion:"@
            &&& c.fields@[2].value@ == minutes_text(track.duration)
            &&& c.fields@[2].inline
        },
{
    match &track.title {
        None => None,
        Some(title) => {
            let minutes = decimal_string(minutes_of(track.duration));
            let mut fields: Vec<EmbedField> = Vec::new();
            fields.push(field("Autor: ", track.artist.as_ref().unwrap().as_str(), true));
            fields.push(field("Solicitado por:", author, true));
            fields.push(
                EmbedField {
                    name: String::from_str("⌚ Duracion:"),
                    value: join2(minutes.as_str(), " minutos"),
                    inline: true,
                },
            );
            Some(
                TrackCard {
                    title: title.clone(),
                    description: String::from_str(
                        "```css\n🎙️ Se ha añadido a la lista de canciones\n```",
                    ),
                    fields,
                    url: track.source_url.as_ref().unwrap().clone(),
                    thumbnail: track.thumbnail.as_ref().unwrap().clone(),
                },
            )
        },
    }
}

/// The fields that announce a queued track in the embedded form: nothing for
/// a track without a title; else "🎙️ Se ha añadido una cancion a la lista de
/// canciones:" holding the title on its own line, then side by side
/// "Solicitado por:" (the author) and "⌚ Duracion:" (the whole minutes
/// followed by " minutes").
pub fn queued_track_fields(title: &Option<String>, duration: Option<(u64, u32)>, author: &str) -> (fields: Option<Vec<EmbedField>>)
    requires
        title is Some ==> duration_showable(duration),
    ensures
        fields is None <==> title is None,
        fields matches Some(fs) ==> {
            &&& fs@.len() == 3
            &&& fs@[0].name@ == "🎙️ Se ha añadido una cancion a la lista de canciones:"@
            &&& fs@[0].value@ == title->0@
            &&& !fs@[0].inline
            &&& fs@[1].name@ == "Solicitado por:"@
            &&& fs@[1].value@ == author@
            &&& fs@[1].inline
            &&& fs@[2].name@ == "⌚ Duracion:"@
            &&& fs@[2].value@ == decimal(shown_minutes(duration)) + " minutes"@
            &&& fs@[2].inline
        },
{
    match title {
        None => None,
        Some(name) => {
            let minutes = decimal_string(minutes_of(duration));
            let mut fs: Vec<EmbedField> = Vec::new();
            fs.push(field("🎙️ Se ha añadido una cancion a la lista de canciones:", name.as_str(), false));
            fs.push(field("Solicitado por:", author, true));
            fs.push(
                EmbedField {
                    name: String::from_str("⌚ Duracion:"),
                    value: join2(minutes.as_str(), " minutes"),
                    inline: true,
                },
            );
            Some(fs)
        },
    }
}

} // verus!
