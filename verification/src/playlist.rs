//! Playlists: their listing message, and which of their entries are queued.

use vstd::prelude::*;
use vstd::string::*;

use crate::message::{EmbedField, field};

verus! {

/// An entry of a playlist: a track with its name, or anything else (an
/// episode).
#[derive(Debug, Clone, PartialEq, Eq)]
pub enum PlaylistEntry {
    Track(String),
    Other,
}

/// The field that names the playlist.
pub open spec fn is_playlist_header(f: EmbedField, name: Seq<char>) -> bool {
    &&& f.name@ == "🎸 PlayList:"@
    &&& f.value@ == name
    &&& f.inline
}

/// The listing of the playlist `name`: a side-by-side header field holding
/// the playlist's name, then one field named "." per entry: a track's field
/// holds its name on its own line; any other entry's field is empty and
/// side by side.
pub fn playlist_fields(name: &str, entries: &Vec<PlaylistEntry>) -> (fields: Vec<EmbedField>)
    ensures
        fields@.len() == entries@.len() + 1,
        is_playlist_header(fields@[0], name@),
        forall|k: int|
            0 <= k < entries@.len() ==> {
                let f = #[trigger] fields@[k + 1];
                &&& f.name@ == "."@
                &&& match entries@[k] {
                    PlaylistEntry::Track(t) => f.value@ == t@ && !f.inline,
                    PlaylistEntry::Other => f.value@ == ""@ && f.inline,
                }
            },
{
    let mut fields: Vec<EmbedField> = Vec::new();
    fields.push(field("🎸 PlayList:", name, true));
    for k in 0..entries.len()
        invariant
            fields@.len() == k + 1,
            is_playlist_header(fields@[0], name@),
            forall|j: int|
                0 <= j < k ==> {
                    let f = #[trigger] fields@[j + 1];
                    &&& f.name@ == "."@
                    &&& match entries@[j] {
                        PlaylistEntry::Track(t) => f.value@ == t@ && !f.inline,
                        PlaylistEntry::Other => f.value@ == ""@ && f.inline,
                    }
                },
    {
        match &entries[k] {
            PlaylistEntry::Track(t) => fields.push(field(".", t.as_str(), false)),
            PlaylistEntry::Other => fields.push(field(".", "", true)),
        }
    }
    fields
}

/// The song listing of the playlist `name` in the embedded form: nothing as
/// soon as an entry is not a track; else a side-by-side header field holding
/// the playlist's name, then one side-by-side field named "." per track,
/// holding its name.
pub fn playlist_songs(name: &str, entries: &Vec<PlaylistEntry>) -> (fields: Option<
    Vec<EmbedField>,
>)
    ensures
        fields is None <==> exists|k: int| 0 <= k < entries@.len() && #[trigger] entries@[k] is Other,
        fields matches Some(fs) ==> {
            &&& fs@.len() == entries@.len() + 1
            &&& is_playlist_header(fs@[0], name@)
            &&& forall|k: int|
                0 <= k < entries@.len() ==> {
                    let f = #[trigger] fs@[k + 1];
                    &&& f.name@ == "."@
                    &&& f.inline
                    &&& entries@[k] matches PlaylistEntry::Track(t) && f.value@ == t@
                }
        },
{
    let mut fields: Vec<EmbedField> = Vec::new();
    fields.push(field("🎸 PlayList:", name, true));
    for k in 0..entries.len()
        invariant
            fields@.len() == k + 1,
            is_playlist_header(fields@[0], name@),
            forall|j: int| 0 <= j < k ==> #[trigger] entries@[j] is Track,
            forall|j: int|
                0 <= j < k ==> {
                    let f = #[trigger] fields@[j + 1];
                    &&& f.name@ == "."@
                    &&& f.inline
                    &&& entries@[j] matches PlaylistEntry::Track(t) && f.value@ == t@
                },
    {
        match &entries[k] {
            PlaylistEntry::Track(t) => fields.push(field(".", t.as_str(), true)),
            PlaylistEntry::Other => {
                return None;
            },
        }
    }
    Some(fields)
}

/// The reply when the playlist that was found cannot be fetched.
pub fn playlist_not_found() -> (r: String)
    ensures
        r@ == "❌ | No se ha podido encontrar esa play list"@,
{
    String::from_str("❌ | No se ha podido encontrar esa play list")
}

/// Which entries of a playlist are fetched and queued, in order.
#[derive(Debug, Clone, PartialEq, Eq)]
pub struct EnqueuePlan {
    /// The names of the tracks to fetch and queue.
    pub names: Vec<String>,
    /// Whether every entry was a track; when not, queueing stops at the
    /// first other entry and nothing is answered.
    pub complete: bool,
}

/// What queueing `entries` does: the leading tracks, up to the first entry
/// that is not a track, are fetched and queued in order, and the queue is
/// answered only when every entry was a track.
pub fn enqueue_plan(entries: &Vec<PlaylistEntry>) -> (plan: EnqueuePlan)
    ensures
        plan.names@.len() <= entries@.len(),
        forall|k: int|
            0 <= k < plan.names@.len() ==> (#[trigger] entries@[k] matches PlaylistEntry::Track(t)
                && t@ == plan.names@[k]@),
        plan.complete <==> plan.names@.len() == entries@.len(),
        !plan.complete ==> entries@[plan.names@.len() as int] is Other,
{
    let mut names: Vec<String> = Vec::new();
    for k in 0..entries.len()
        invariant
            names@.len() == k,
            forall|j: int|
                0 <= j < k ==> (#[trigger] entries@[j] matches PlaylistEntry::Track(t) && t@
                    == names@[j]@),
    {
        match &entries[k] {
            PlaylistEntry::Track(t) => names.push(t.clone()),
            PlaylistEntry::Other => {
                return EnqueuePlan { names, complete: false };
            },
        }
    }
    EnqueuePlan { names, complete: true }
}

} // verus!
