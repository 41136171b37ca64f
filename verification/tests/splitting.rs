use discord_bot::commands::{command_argument, same_text, seek_unit, seek_words, SeekUnit};
use discord_bot::string_to_vec::{convert, first_space};
use discord_bot::string_to_vector::{getConfig, getName};
use discord_bot::strings::trim;

#[test]
fn convert_keeps_the_space_in_front_of_later_pieces() {
    assert_eq!(convert("a b c"), vec!["a", " b"]);
}

#[test]
fn convert_without_space_gives_the_whole_text() {
    assert_eq!(convert("despacito"), vec!["despacito"]);
    assert_eq!(convert(""), vec![""]);
}

#[test]
fn convert_drops_the_text_after_the_last_space() {
    assert_eq!(convert("-play hola mundo"), vec!["-play", " hola"]);
    assert_eq!(convert("uno "), vec!["uno"]);
}

#[test]
fn convert_pieces_rejoin_to_the_text_before_the_last_space() {
    let text = "-p una  cancion larga";
    let pieces = convert(text);
    let last_space = text.rfind(' ').unwrap();
    let rejoined: String = pieces.iter().map(|p| *p).collect();
    assert_eq!(rejoined, &text[..last_space]);
}

#[test]
fn convert_handles_multibyte_text() {
    assert_eq!(convert("canción ñandú fin"), vec!["canción", " ñandú"]);
}

#[test]
fn get_name_splits_at_the_first_space_and_trims_the_rest() {
    assert_eq!(getName("-play  despacito remix  "), vec!["-play", "despacito remix"]);
}

#[test]
fn get_name_without_space_gives_nothing() {
    assert!(getName("-pause").is_empty());
    assert!(getName("").is_empty());
}

#[test]
fn get_config_reads_each_word() {
    assert_eq!(getConfig("seek 10 -s"), vec!["seek", "10", "-s"]);
}

#[test]
fn get_config_of_empty_message_is_empty() {
    assert!(getConfig("").is_empty());
}

#[test]
fn get_config_with_trailing_space() {
    assert_eq!(getConfig("a b "), vec!["a", "b"]);
}

#[test]
fn get_config_single_word() {
    assert_eq!(getConfig("x"), vec!["x"]);
}

#[test]
fn trim_removes_unicode_white_space_on_both_ends() {
    assert_eq!(trim("\u{3000}\t hola mundo \n\u{a0}"), "hola mundo");
    assert_eq!(trim("   "), "");
    assert_eq!(trim("sin"), "sin");
}

#[test]
fn trim_matches_std_trim() {
    for s in ["", " a ", "\u{2028}b\u{85}", "c\u{200b}", " \u{1680}d e\u{202f}"] {
        assert_eq!(trim(s), s.trim());
    }
}

#[test]
fn trim_twice_is_trim_once() {
    let s = "  \u{2003}texto con espacios\t ";
    assert_eq!(trim(trim(s)), trim(s));
}

#[test]
fn first_space_finds_the_first_offset() {
    assert_eq!(first_space("ab cd ef"), Some(2));
    assert_eq!(first_space("abcdef"), None);
}

#[test]
fn command_argument_is_the_trimmed_rest() {
    assert_eq!(command_argument("-p  hola "), Some("hola"));
    assert_eq!(command_argument("-p"), None);
}

#[test]
fn seek_units() {
    assert_eq!(seek_unit("-s"), Some(SeekUnit::Seconds));
    assert_eq!(seek_unit("-m"), Some(SeekUnit::Minutes));
    assert_eq!(seek_unit("-h"), Some(SeekUnit::Hours));
    assert_eq!(seek_unit("-x"), None);
    assert_eq!(seek_unit("-ss"), None);
    assert_eq!(seek_unit(""), None);
}

#[test]
fn same_text_compares_whole_texts() {
    assert!(same_text("ñ", "ñ"));
    assert!(!same_text("ñ", "n"));
    assert!(!same_text("ab", "a"));
}

#[test]
fn convert_ignores_a_tail_without_spaces() {
    for (s, t) in [("play the", "song"), ("a b c", "ñandú"), (" x", ""), ("uno dos ", "tres")] {
        let whole = format!("{}{}", s, t);
        assert_eq!(convert(&whole), convert(s));
    }
    assert_eq!(convert("play the"), vec!["play"]);
}

#[test]
fn get_name_round_trip() {
    for msg in ["!play  Bohemian Rhapsody  ", "!p x", "!lyrics ", "!a\t b c", "áé  ñ"] {
        let r = getName(msg);
        assert_eq!(r.len(), 2);
        let rebuilt = format!("{} {}", r[0], r[1]);
        assert_eq!(getName(&rebuilt), r);
    }
}

#[test]
fn seek_announcement_words() {
    assert_eq!(seek_words(&SeekUnit::Seconds), "🦘 Salto al segundo");
    assert_eq!(seek_words(&SeekUnit::Minutes), "🦘 Salto al minuto");
    assert_eq!(seek_words(&SeekUnit::Hours), "🦘 Salto a la hora");
}
