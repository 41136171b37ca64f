use discord_bot::lyrics::{
    can_cut_fields, can_cut_messages, can_search_title, count_of, lyric_fields, lyric_messages,
    lyrics_embed, lyrics_not_found, lyrics_reply, search_title, LyricsEmbed, LyricsReply,
};

fn inner(message: &str) -> &str {
    message.strip_prefix("```css\n").unwrap().strip_suffix("\n```").unwrap()
}

#[test]
fn search_title_drops_the_part_in_brackets() {
    assert_eq!(search_title("Despacito (Remix)"), "Despacito");
    assert_eq!(search_title("Despacito"), "Despacito");
    assert_eq!(search_title("A(b)"), "");
}

#[test]
fn titles_that_cannot_be_cut() {
    assert!(!can_search_title("(intro)"));
    assert!(!can_search_title("a (b) (c)"));
    assert!(!can_search_title("é(x)"));
    assert!(can_search_title("é (x)"));
    assert!(can_search_title("sin parentesis"));
}

#[test]
fn count_of_bytes() {
    assert_eq!(count_of("a(b(c", b'('), 2);
    assert_eq!(count_of("", b'('), 0);
}

#[test]
fn short_lyrics_lose_their_last_byte() {
    assert_eq!(lyric_messages("abc"), vec!["```css\nab\n```".to_string()]);
    assert_eq!(lyric_messages("a"), vec!["```css\n\n```".to_string()]);
}

#[test]
fn lyrics_messages_are_cut_at_the_marks() {
    let lyrics = "x".repeat(5000);
    let messages = lyric_messages(&lyrics);
    let sizes: Vec<usize> = messages.iter().map(|m| inner(m).len()).collect();
    assert_eq!(sizes, vec![1020, 980, 2000, 999]);
}

#[test]
fn lyrics_ending_on_a_mark() {
    let messages = lyric_messages(&"x".repeat(1021));
    assert_eq!(messages.len(), 1);
    assert_eq!(inner(&messages[0]).len(), 1020);
    let messages = lyric_messages(&"x".repeat(1022));
    let sizes: Vec<usize> = messages.iter().map(|m| inner(m).len()).collect();
    assert_eq!(sizes, vec![1020, 1]);
}

#[test]
fn lyrics_messages_cover_all_but_the_last_byte() {
    for len in [1usize, 2, 1019, 1020, 1021, 2001, 4000, 10001, 12345] {
        let lyrics: String = (0..len).map(|i| (b'a' + (i % 26) as u8) as char).collect();
        let rejoined: String = lyric_messages(&lyrics).iter().map(|m| inner(m)).collect();
        assert_eq!(rejoined, &lyrics[..len - 1]);
    }
}

#[test]
fn lyrics_fields_cover_the_lyrics() {
    for len in [1usize, 2, 1020, 1022, 2040, 7140, 8000] {
        let lyrics: String = (0..len).map(|i| (b'a' + (i % 26) as u8) as char).collect();
        let rejoined: String = lyric_fields(&lyrics).iter().map(|f| f.value.as_str()).collect();
        assert_eq!(rejoined, lyrics);
    }
    for len in [1021usize, 2041, 7141] {
        let lyrics = "y".repeat(len);
        let rejoined: String = lyric_fields(&lyrics).iter().map(|f| f.value.as_str()).collect();
        assert_eq!(rejoined, &lyrics[..len - 1]);
    }
}

#[test]
fn lyrics_fields_are_named_with_a_dash() {
    let fields = lyric_fields(&"z".repeat(2100));
    assert_eq!(fields.len(), 3);
    for f in &fields {
        assert_eq!(f.name, "-");
        assert!(!f.inline);
    }
    assert_eq!(fields[0].value.len(), 1020);
    assert_eq!(fields[1].value.len(), 1020);
    assert_eq!(fields[2].value.len(), 60);
}

#[test]
fn cutting_inside_a_character_is_refused() {
    let lyrics = format!("{}é{}", "x".repeat(1019), "x".repeat(10));
    assert!(!can_cut_messages(&lyrics));
    assert!(!can_cut_fields(&lyrics));
    assert!(can_cut_messages(&"x".repeat(3000)));
    assert!(!can_cut_messages(""));
    assert!(!can_cut_messages("é"));
    assert!(can_cut_fields("é"));
}

#[test]
fn empty_lyrics_are_not_found() {
    assert_eq!(
        lyrics_reply("t", ""),
        LyricsReply::NotFound("❌ | No se han podido encontrar las lyrics de esa cancion".to_string())
    );
    assert_eq!(
        lyrics_embed("t", ""),
        LyricsEmbed::NotFound(lyrics_not_found())
    );
}

#[test]
fn found_lyrics_have_a_title() {
    match lyrics_reply("Despacito", "abc") {
        LyricsReply::Found { title, messages } => {
            assert_eq!(title.name, "🎸 Despacito");
            assert_eq!(title.value, "-".repeat(62));
            assert!(!title.inline);
            assert_eq!(messages, vec!["```css\nab\n```".to_string()]);
        }
        other => panic!("unexpected {:?}", other),
    }
    match lyrics_embed("Despacito", "abc") {
        LyricsEmbed::Found { title, fields } => {
            assert_eq!(title.name, "🎶 Despacito ");
            assert_eq!(title.value, "-".repeat(62));
            assert_eq!(fields.len(), 1);
            assert_eq!(fields[0].value, "abc");
        }
        other => panic!("unexpected {:?}", other),
    }
}
