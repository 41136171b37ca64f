use discord_bot::playlist::{enqueue_plan, playlist_fields, playlist_not_found, playlist_songs, PlaylistEntry};
use discord_bot::queue::{
    can_announce, can_show_duration, minutes_of, queue_listing, queued_track_fields, track_card,
    QueueListing, TrackInfo,
};
use discord_bot::sources::{source_failed, source_query, song_not_found, starts_with, SourceQuery};

#[test]
fn listing_numbers_tracks_by_their_place_in_the_queue() {
    let titles = vec![Some("a".to_string()), None, Some("b".to_string())];
    match queue_listing(&titles) {
        QueueListing::Fields(fields) => {
            assert_eq!(fields.len(), 2);
            assert_eq!(fields[0].name, "💿 1.");
            assert_eq!(fields[0].value, "a");
            assert_eq!(fields[1].name, "💿 3.");
            assert_eq!(fields[1].value, "b");
            assert!(!fields[0].inline && !fields[1].inline);
        }
        other => panic!("unexpected {:?}", other),
    }
}

#[test]
fn listing_of_untitled_queue_is_empty() {
    let expected = QueueListing::Empty("⛔ No hay mas canciones en la lista...".to_string());
    assert_eq!(queue_listing(&vec![]), expected);
    assert_eq!(queue_listing(&vec![None, None]), expected);
}

#[test]
fn listing_has_one_row_per_titled_track() {
    let titles: Vec<Option<String>> =
        (0..12).map(|i| if i % 3 == 0 { None } else { Some(format!("t{}", i)) }).collect();
    match queue_listing(&titles) {
        QueueListing::Fields(fields) => {
            assert_eq!(fields.len(), 8);
            assert_eq!(fields[7].name, "💿 12.");
        }
        other => panic!("unexpected {:?}", other),
    }
}

fn track(title: Option<&str>, duration: Option<(u64, u32)>) -> TrackInfo {
    TrackInfo {
        title: title.map(|t| t.to_string()),
        artist: Some("Luis Fonsi".to_string()),
        source_url: Some("https://youtu.be/x".to_string()),
        thumbnail: Some("https://img/x.jpg".to_string()),
        duration,
    }
}

#[test]
fn track_card_of_a_titled_track() {
    let card = track_card(&track(Some("Despacito"), Some((229, 500))), "ana").unwrap();
    assert_eq!(card.title, "Despacito");
    assert_eq!(card.description, "```css\n🎙️ Se ha añadido a la lista de canciones\n```");
    assert_eq!(card.url, "https://youtu.be/x");
    assert_eq!(card.thumbnail, "https://img/x.jpg");
    assert_eq!(card.fields.len(), 3);
    assert_eq!((card.fields[0].name.as_str(), card.fields[0].value.as_str()), ("Autor: ", "Luis Fonsi"));
    assert_eq!((card.fields[1].name.as_str(), card.fields[1].value.as_str()), ("Solicitado por:", "ana"));
    assert_eq!((card.fields[2].name.as_str(), card.fields[2].value.as_str()), ("⌚ Duracion:", "3 minutos"));
    assert!(card.fields.iter().all(|f| f.inline));
}

#[test]
fn track_card_without_duration_shows_zero_minutes() {
    let card = track_card(&track(Some("x"), None), "ana").unwrap();
    assert_eq!(card.fields[2].value, "0 minutos");
}

#[test]
fn untitled_track_gets_no_card() {
    assert!(track_card(&track(None, None), "ana").is_none());
}

#[test]
fn announceable_tracks() {
    assert!(can_announce(&track(None, Some((u64::MAX, 0)))));
    assert!(can_announce(&track(Some("x"), Some((60, 0)))));
    assert!(!can_announce(&track(Some("x"), Some((u64::MAX, 0)))));
    let mut no_artist = track(Some("x"), None);
    no_artist.artist = None;
    assert!(!can_announce(&no_artist));
}

#[test]
fn chrono_range_of_durations() {
    assert!(can_show_duration(Some((9223372036854775, 807000000))));
    assert!(!can_show_duration(Some((9223372036854775, 807000001))));
    assert!(!can_show_duration(Some((9223372036854776, 0))));
    assert!(can_show_duration(None));
    assert_eq!(minutes_of(Some((119, 999_999_999))), 1);
    assert_eq!(minutes_of(Some((120, 0))), 2);
    assert_eq!(minutes_of(None), 0);
}

#[test]
fn queued_track_fields_in_embedded_form() {
    let fields = queued_track_fields(&Some("Despacito".to_string()), Some((600, 0)), "ana").unwrap();
    assert_eq!(fields[0].name, "🎙️ Se ha añadido una cancion a la lista de canciones:");
    assert_eq!(fields[0].value, "Despacito");
    assert!(!fields[0].inline);
    assert_eq!(fields[1].value, "ana");
    assert_eq!(fields[2].value, "10 minutes");
    assert!(queued_track_fields(&None, None, "ana").is_none());
}

fn entries() -> Vec<PlaylistEntry> {
    vec![
        PlaylistEntry::Track("uno".to_string()),
        PlaylistEntry::Other,
        PlaylistEntry::Track("dos".to_string()),
    ]
}

#[test]
fn playlist_listing_marks_other_entries() {
    let fields = playlist_fields("Mix", &entries());
    assert_eq!(fields.len(), 4);
    assert_eq!((fields[0].name.as_str(), fields[0].value.as_str(), fields[0].inline), ("🎸 PlayList:", "Mix", true));
    assert_eq!((fields[1].name.as_str(), fields[1].value.as_str(), fields[1].inline), (".", "uno", false));
    assert_eq!((fields[2].name.as_str(), fields[2].value.as_str(), fields[2].inline), (".", "", true));
    assert_eq!((fields[3].name.as_str(), fields[3].value.as_str(), fields[3].inline), (".", "dos", false));
}

#[test]
fn playlist_songs_refuse_other_entries() {
    assert!(playlist_songs("Mix", &entries()).is_none());
    let only_tracks = vec![PlaylistEntry::Track("uno".to_string())];
    let fields = playlist_songs("Mix", &only_tracks).unwrap();
    assert_eq!(fields.len(), 2);
    assert_eq!((fields[1].name.as_str(), fields[1].value.as_str(), fields[1].inline), (".", "uno", true));
    assert_eq!(playlist_songs("Vacía", &vec![]).unwrap().len(), 1);
}

#[test]
fn enqueue_plan_stops_at_the_first_other_entry() {
    let plan = enqueue_plan(&entries());
    assert_eq!(plan.names, vec!["uno".to_string()]);
    assert!(!plan.complete);
    let plan = enqueue_plan(&vec![PlaylistEntry::Track("a".into()), PlaylistEntry::Track("b".into())]);
    assert_eq!(plan.names, vec!["a".to_string(), "b".to_string()]);
    assert!(plan.complete);
    let plan = enqueue_plan(&vec![]);
    assert!(plan.names.is_empty() && plan.complete);
}

#[test]
fn playlist_not_found_text() {
    assert_eq!(playlist_not_found(), "❌ | No se ha podido encontrar esa play list");
}

#[test]
fn links_and_searches() {
    assert_eq!(source_query("https://youtu.be/x"), SourceQuery::Link);
    assert_eq!(source_query("http://x"), SourceQuery::Link);
    assert_eq!(source_query("httpx"), SourceQuery::Link);
    assert_eq!(source_query("htt"), SourceQuery::Search);
    assert_eq!(source_query("despacito"), SourceQuery::Search);
    assert!(starts_with("ñandú", "ñ"));
    assert!(!starts_with("a", "ab"));
}

#[test]
fn source_failure_replies() {
    assert_eq!(source_failed(&SourceQuery::Link, "x"), "❌ | No se ha podido encontrar esa cacion");
    assert_eq!(
        source_failed(&SourceQuery::Search, "despacito"),
        "❌ | Ha ocurrido un error al buscar 'despacito', puede ser por no ser encontrada o por restricción de edad"
    );
    assert_eq!(song_not_found(), "No se ha podido encontrar esa cacion");
}
