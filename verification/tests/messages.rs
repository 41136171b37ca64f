use discord_bot::commands::{help_fields, seconds_per, unknown_command_notice, wrong_command_notice, SeekUnit};
use discord_bot::message::{join2, join3, decimal_string, field};
use discord_bot::utils::{get_rand_colors, notice_field};

#[test]
fn decimal_string_matches_to_string() {
    for n in [0u64, 7, 10, 99, 100, 1234567890, u64::MAX] {
        assert_eq!(decimal_string(n), n.to_string());
    }
}

#[test]
fn concatenation() {
    assert_eq!(join2("ab", "cd"), "abcd");
    assert_eq!(join3("a", "ñ", "c"), "añc");
}

#[test]
fn field_holds_its_parts() {
    let f = field("n", "v", true);
    assert_eq!(f.name, "n");
    assert_eq!(f.value, "v");
    assert!(f.inline);
}

#[test]
fn notice_wraps_the_value_in_a_code_block() {
    let f = notice_field("Error", "algo", false);
    assert_eq!(f.name, "Error");
    assert_eq!(f.value, "```css\nalgo\n```");
    assert!(!f.inline);
}

#[test]
fn unknown_command_notice_names_the_command() {
    let f = unknown_command_notice("bailar");
    assert_eq!(f.name, "Error");
    assert_eq!(f.value, "```css\nEl comando bailar no es correcto\n```");
    assert!(!f.inline);
}

#[test]
fn wrong_seek_flag_notice() {
    let f = wrong_command_notice();
    assert_eq!(f.name, "🛑 Comando incorrecto");
    assert_eq!(f.value, "```css\n-\n```");
    assert!(!f.inline);
}

#[test]
fn help_lists_pause() {
    let fields = help_fields();
    assert_eq!(fields.len(), 1);
    assert_eq!(fields[0].name, "🛑 pause:");
    assert_eq!(fields[0].value, "pausar una cancion");
    assert!(!fields[0].inline);
}

#[test]
fn seconds_per_unit() {
    assert_eq!(seconds_per(&SeekUnit::Seconds), 1);
    assert_eq!(seconds_per(&SeekUnit::Minutes), 60);
    assert_eq!(seconds_per(&SeekUnit::Hours), 360);
}

#[test]
fn random_colours_stay_below_255_and_vary() {
    let mut seen = std::collections::HashSet::new();
    for _ in 0..50 {
        let (r, g, b) = get_rand_colors();
        assert!(r < 255 && g < 255 && b < 255);
        seen.insert(r);
        seen.insert(g);
        seen.insert(b);
    }
    assert!(seen.len() > 1);
}
