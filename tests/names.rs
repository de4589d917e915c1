use demus::bank::WaveEntry;
use demus::name::{name_to_str, parse_name};

#[test]
fn test_parse_name() {
    assert_eq!(
        parse_name("C Hit          \0\0\0\0\0\0\0\0\0\0\0\0\0\0\0".as_bytes())[6],
        '\0'
    );
    assert_eq!(
        parse_name("C Hit\0\0\0\0\0\0\0\0\0\0\0\0\0\0\0\0\0\0\0\0".as_bytes())[2],
        'H'
    );
}

#[test]
fn trailing_spaces_become_nulls() {
    let name = parse_name("C Hit          \0\0\0\0\0\0\0\0\0\0\0\0\0\0\0".as_bytes());
    assert_eq!(name.len(), 20);
    assert_eq!(name_to_str(&name), "C Hit");
    assert!(name[5..].iter().all(|c| *c == '\0'));
}

#[test]
fn garbage_tail_is_dropped() {
    let name = parse_name(b"Kick*junk after star");
    assert_eq!(name_to_str(&name), "Kick");
    let name = parse_name(b"Snare \xffA  B         ");
    assert_eq!(name_to_str(&name), "Snare");
}

#[test]
fn interior_spaces_are_kept() {
    let name = parse_name(b"Big  Drum   \0\0\0\0\0\0\0\0");
    assert_eq!(name_to_str(&name), "Big  Drum");
}

#[test]
fn all_spaces_is_empty() {
    let name = parse_name(b"                    ");
    assert_eq!(name_to_str(&name), "");
}

#[test]
fn full_width_name_is_kept() {
    let name = parse_name(b"ABCDEFGHIJKLMNOPQRST");
    assert_eq!(name_to_str(&name), "ABCDEFGHIJKLMNOPQRST");
}

#[test]
fn reserved_characters_are_invalid() {
    for c in b"\"$*/:;<>?\\^`" {
        assert!(!WaveEntry::valid_char(c));
    }
    assert!(WaveEntry::valid_char(&b' '));
    assert!(WaveEntry::valid_char(&b'~'));
    assert!(WaveEntry::valid_char(&b'a'));
    assert!(!WaveEntry::valid_char(&0x7f));
    assert!(!WaveEntry::valid_char(&0x1f));
    assert!(!WaveEntry::valid_char(&0));
}
