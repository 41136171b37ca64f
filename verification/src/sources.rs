//! Where a track is looked up, and what is answered when it is not found.

use vstd::prelude::*;
use vstd::string::*;

use crate::message::join3;

verus! {

/// Whether the bytes `b` begin with the bytes `p`.
pub open spec fn has_prefix(b: Seq<u8>, p: Seq<u8>) -> bool {
    p.len() <= b.len() && b.take(p.len() as int) == p
}

/// Whether `s` begins with `prefix`, as `str::starts_with` tells.
pub fn starts_with(s: &str, prefix: &str) -> (r: bool)
    ensures
        r == has_prefix(s.spec_bytes(), prefix.spec_bytes()),
{
    let b = s.as_bytes();
    let p = prefix.as_bytes();
    if p.len() > b.len() {
        return false;
    }
    let mut i: usize = 0;
    while i < p.len()
        invariant
            b@ == s.spec_bytes(),
            p@ == prefix.spec_bytes(),
            p@.len() <= b@.len(),
            i <= p@.len(),
            forall|j: int| 0 <= j < i ==> b@[j] == p@[j],
        decreases p@.len() - i,
    {
        if b[i] != p[i] {
            assert(b@.take(p@.len() as int)[i as int] != p@[i as int]);
            return false;
        }
        i = i + 1;
    }
    assert(b@.take(p@.len() as int) =~= p@);
    true
}

/// How a track is looked up: from a link, or by searching for its name.
#[derive(Debug, Clone, Copy, PartialEq, Eq)]
pub enum SourceQuery {
    Link,
    Search,
}

/// Names that begin with "https" or "http" are links; any other name is
/// searched for.
pub open spec fn is_link(b: Seq<u8>) -> bool {
    has_prefix(b, "https".spec_bytes()) || has_prefix(b, "http".spec_bytes())
}

/// How the track `track_name` is looked up.
pub fn source_query(track_name: &str) -> (q: SourceQuery)
    ensures
        q is Link <==> is_link(track_name.spec_bytes()),
{
    if starts_with(track_name, "https") || starts_with(track_name, "http") {
        SourceQuery::Link
    } else {
        SourceQuery::Search
    }
}

/// The reply when the track of a link cannot be fetched.
pub open spec fn link_failed_text() -> Seq<char> {
    "❌ | No se ha podido encontrar esa cacion"@
}

/// The reply when the search for `track_name` fails.
pub open spec fn search_failed_text(track_name: Seq<char>) -> Seq<char> {
    "❌ | Ha ocurrido un error al buscar '"@ + track_name
        + "', puede ser por no ser encontrada o por restricción de edad"@
}

/// The reply when the track `track_name`, looked up as `query`, cannot be
/// fetched: for a link, that the song was not found; for a search, that the
/// search for the name failed.
pub fn source_failed(query: &SourceQuery, track_name: &str) -> (r: String)
    ensures
        query is Link ==> r@ == link_failed_text(),
        query is Search ==> r@ == search_failed_text(track_name@),
{
    match query {
        SourceQuery::Link => String::from_str("❌ | No se ha podido encontrar esa cacion"),
        SourceQuery::Search => join3(
            "❌ | Ha ocurrido un error al buscar '",
            track_name,
            "', puede ser por no ser encontrada o por restricción de edad",
        ),
    }
}

/// The plain reply when no song could be fetched.
pub fn song_not_found() -> (r: String)
    ensures
        r@ == "No se ha podido encontrar esa cacion"@,
{
    String::from_str("No se ha podido encontrar esa cacion")
}

} // verus!
