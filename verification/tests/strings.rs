use discord_bot::strings::{byte_slice, first_offset, pieces_between, white_space};

#[test]
fn byte_slice_is_str_slicing() {
    let s = "añb c";
    assert_eq!(byte_slice(s, 0, 1), "a");
    assert_eq!(byte_slice(s, 1, 3), "ñ");
    assert_eq!(byte_slice(s, 3, 6), "b c");
    assert_eq!(byte_slice(s, 6, 6), "");
}

#[test]
fn pieces_between_cuts() {
    let s = "uno dos tres";
    assert_eq!(pieces_between(s, &vec![0, 3, 7, 12]), vec!["uno", " dos", " tres"]);
    assert!(pieces_between(s, &vec![5]).is_empty());
}

#[test]
fn first_offset_of_a_byte() {
    assert_eq!(first_offset("ab(c(", b'('), Some(2));
    assert_eq!(first_offset("abc", b'('), None);
}

#[test]
fn white_space_matches_std() {
    for u in 0u32..0x3100 {
        if let Some(c) = char::from_u32(u) {
            assert_eq!(white_space(c), c.is_whitespace(), "{:x}", u);
        }
    }
}
