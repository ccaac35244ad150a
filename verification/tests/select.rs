use yagami_decryption_agency::key::{KeyTable, KEY_LEN};
use yagami_decryption_agency::select::{
    detect_variant, direction_from_name, ends_with, select_key, starts_with, KeySet, Resolved,
    SelectError, Variant, ARCHIVE_SUFFIX, CHARA2_MAGIC, CHARA_MAGIC, CLEARED_SUFFIX, MAGIC_LEN,
};
use yagami_decryption_agency::transform::Direction;

fn key_set() -> KeySet {
    KeySet {
        chara: KeyTable::new([0x11; KEY_LEN]),
        chara2: KeyTable::new([0x22; KEY_LEN]),
    }
}

#[test]
fn magic_signatures_are_the_known_bytes() {
    assert_eq!(MAGIC_LEN, 4);
    assert_eq!(CHARA_MAGIC, [0xAC, 0xC5, 0x8B, 0x99]);
    assert_eq!(CHARA2_MAGIC, [0x01, 0x6E, 0x58, 0xE4]);
    assert_eq!(Variant::Chara.magic(), [0xAC, 0xC5, 0x8B, 0x99]);
    assert_eq!(Variant::Chara2.magic(), [0x01, 0x6E, 0x58, 0xE4]);
}

#[test]
fn suffixes_are_the_bytes_of_the_endings() {
    assert_eq!(&CLEARED_SUFFIX[..], ".decrypted.par".as_bytes());
    assert_eq!(&ARCHIVE_SUFFIX[..], ".par".as_bytes());
}

#[test]
fn chara_signature_is_recognised() {
    let data: Vec<u8> = vec![0xAC, 0xC5, 0x8B, 0x99, 0x00, 0x01, 0x02, 0x03];
    assert_eq!(detect_variant(&data), Ok(Resolved::Definite(Variant::Chara)));
}

#[test]
fn chara2_signature_is_recognised() {
    let data: Vec<u8> = vec![0x01, 0x6E, 0x58, 0xE4, 0xFF, 0xFF];
    assert_eq!(detect_variant(&data), Ok(Resolved::Definite(Variant::Chara2)));
}

#[test]
fn exactly_four_bytes_are_enough() {
    assert_eq!(
        detect_variant(&[0xAC, 0xC5, 0x8B, 0x99]),
        Ok(Resolved::Definite(Variant::Chara))
    );
    assert_eq!(
        detect_variant(&[0x01, 0x6E, 0x58, 0xE4]),
        Ok(Resolved::Definite(Variant::Chara2))
    );
}

#[test]
fn other_first_bytes_are_ambiguous() {
    assert_eq!(detect_variant(&[0, 0, 0, 0]), Ok(Resolved::Ambiguous));
    assert_eq!(detect_variant(b"PARC\x02\x01\x00\x00"), Ok(Resolved::Ambiguous));
    assert_eq!(detect_variant(&[0xFF; 64]), Ok(Resolved::Ambiguous));
}

#[test]
fn a_signature_with_one_byte_off_is_ambiguous() {
    assert_eq!(detect_variant(&[0xAD, 0xC5, 0x8B, 0x99]), Ok(Resolved::Ambiguous));
    assert_eq!(detect_variant(&[0xAC, 0xC4, 0x8B, 0x99]), Ok(Resolved::Ambiguous));
    assert_eq!(detect_variant(&[0xAC, 0xC5, 0x8A, 0x99]), Ok(Resolved::Ambiguous));
    assert_eq!(detect_variant(&[0xAC, 0xC5, 0x8B, 0x98]), Ok(Resolved::Ambiguous));
    assert_eq!(detect_variant(&[0x01, 0x6E, 0x58, 0xE5]), Ok(Resolved::Ambiguous));
    assert_eq!(detect_variant(&[0x00, 0x6E, 0x58, 0xE4]), Ok(Resolved::Ambiguous));
}

#[test]
fn a_signature_that_does_not_stand_first_is_ambiguous() {
    assert_eq!(
        detect_variant(&[0x00, 0xAC, 0xC5, 0x8B, 0x99]),
        Ok(Resolved::Ambiguous)
    );
    assert_eq!(
        detect_variant(&[0xAC, 0xC5, 0x01, 0x6E, 0x58, 0xE4]),
        Ok(Resolved::Ambiguous)
    );
}

#[test]
fn a_buffer_shorter_than_four_bytes_is_malformed() {
    assert_eq!(detect_variant(&[]), Err(SelectError::MalformedInput));
    assert_eq!(detect_variant(&[0xAC]), Err(SelectError::MalformedInput));
    assert_eq!(detect_variant(&[0xAC, 0xC5]), Err(SelectError::MalformedInput));
    assert_eq!(
        detect_variant(&[0xAC, 0xC5, 0x8B]),
        Err(SelectError::MalformedInput)
    );
    assert_eq!(
        detect_variant(&[0x01, 0x6E, 0x58]),
        Err(SelectError::MalformedInput)
    );
}

#[test]
fn select_key_hands_out_the_table_of_the_variant() {
    let keys = key_set();
    match select_key(&[0xAC, 0xC5, 0x8B, 0x99, 0x00], &keys) {
        Ok(Resolved::Definite(key)) => assert_eq!(key.as_slice(), &[0x11u8; KEY_LEN][..]),
        other => panic!("no definite key for the first signature: {other:?}"),
    }
    match select_key(&[0x01, 0x6E, 0x58, 0xE4], &keys) {
        Ok(Resolved::Definite(key)) => assert_eq!(key.as_slice(), &[0x22u8; KEY_LEN][..]),
        other => panic!("no definite key for the second signature: {other:?}"),
    }
}

#[test]
fn select_key_never_guesses() {
    let keys = key_set();
    assert!(matches!(
        select_key(&[0x50, 0x41, 0x52, 0x43], &keys),
        Ok(Resolved::Ambiguous)
    ));
    assert!(matches!(
        select_key(&[0xAC, 0xC5, 0x8B], &keys),
        Err(SelectError::MalformedInput)
    ));
    assert!(matches!(
        select_key(&[], &keys),
        Err(SelectError::MalformedInput)
    ));
}

#[test]
fn key_set_hands_out_each_table() {
    let keys = key_set();
    assert_eq!(keys.key(Variant::Chara).as_slice()[0], 0x11);
    assert_eq!(keys.key(Variant::Chara2).as_slice()[0], 0x22);
}

#[test]
fn a_cleared_archive_is_to_be_obfuscated() {
    assert_eq!(
        direction_from_name("chara.decrypted.par"),
        Resolved::Definite(Direction::ToObfuscated)
    );
    assert_eq!(
        direction_from_name("chara2.decrypted.par"),
        Resolved::Definite(Direction::ToObfuscated)
    );
    assert_eq!(
        direction_from_name(".decrypted.par"),
        Resolved::Definite(Direction::ToObfuscated)
    );
}

#[test]
fn another_archive_is_to_be_cleared() {
    assert_eq!(
        direction_from_name("chara.par"),
        Resolved::Definite(Direction::ToClear)
    );
    assert_eq!(
        direction_from_name("chara2.par"),
        Resolved::Definite(Direction::ToClear)
    );
    assert_eq!(direction_from_name(".par"), Resolved::Definite(Direction::ToClear));
    assert_eq!(
        direction_from_name("decrypted.par"),
        Resolved::Definite(Direction::ToClear)
    );
    assert_eq!(
        direction_from_name("chara.decrypted..par"),
        Resolved::Definite(Direction::ToClear)
    );
}

#[test]
fn a_name_outside_ascii_is_read_by_its_ending() {
    assert_eq!(
        direction_from_name("キャラ.par"),
        Resolved::Definite(Direction::ToClear)
    );
    assert_eq!(
        direction_from_name("キャラ.decrypted.par"),
        Resolved::Definite(Direction::ToObfuscated)
    );
    assert_eq!(direction_from_name("chara.paré"), Resolved::Ambiguous);
}

#[test]
fn any_other_name_tells_nothing() {
    for name in [
        "",
        "par",
        "chara",
        "chara.bin",
        "chara.par.bak",
        "chara.PAR",
        "chara.decrypted.par ",
        "chara.pa",
        "chara_par",
        "ar",
    ] {
        assert_eq!(direction_from_name(name), Resolved::Ambiguous, "{name:?}");
    }
}

#[test]
fn menu_places_of_the_directions() {
    assert_eq!(Direction::from_index(0), Some(Direction::ToObfuscated));
    assert_eq!(Direction::from_index(1), Some(Direction::ToClear));
    assert_eq!(Direction::from_index(2), None);
    assert_eq!(Direction::from_index(usize::MAX), None);
}

#[test]
fn menu_places_of_the_variants() {
    assert_eq!(Variant::from_index(0), Some(Variant::Chara));
    assert_eq!(Variant::from_index(1), Some(Variant::Chara2));
    assert_eq!(Variant::from_index(2), None);
    assert_eq!(Variant::from_index(usize::MAX), None);
}

#[test]
fn menu_labels() {
    assert_eq!(Direction::ToObfuscated.label(), "Encrypt");
    assert_eq!(Direction::ToClear.label(), "Decrypt");
    assert_eq!(Variant::Chara.label(), "chara.par");
    assert_eq!(Variant::Chara2.label(), "chara2.par");
}

#[test]
fn output_extensions() {
    assert_eq!(Direction::ToClear.output_extension(), "decrypted.par");
    assert_eq!(Direction::ToObfuscated.output_extension(), "par");
}

#[test]
fn the_output_of_one_direction_is_named_as_input_of_the_other() {
    let cleared: String = format!("chara.{}", Direction::ToClear.output_extension());
    assert_eq!(
        direction_from_name(&cleared),
        Resolved::Definite(Direction::ToObfuscated)
    );
    let obfuscated: String = format!("chara.{}", Direction::ToObfuscated.output_extension());
    assert_eq!(
        direction_from_name(&obfuscated),
        Resolved::Definite(Direction::ToClear)
    );
}

#[test]
fn starts_with_compares_the_first_bytes() {
    assert!(starts_with(&[1, 2, 3, 4], &[1, 2]));
    assert!(starts_with(&[1, 2, 3, 4], &[1, 2, 3, 4]));
    assert!(starts_with(&[1, 2, 3, 4], &[]));
    assert!(starts_with(&[], &[]));
    assert!(!starts_with(&[1, 2, 3, 4], &[2]));
    assert!(!starts_with(&[1, 2, 3, 4], &[1, 3]));
    assert!(!starts_with(&[1, 2], &[1, 2, 3]));
    assert!(!starts_with(&[], &[1]));
}

#[test]
fn ends_with_compares_the_last_bytes() {
    assert!(ends_with(&[1, 2, 3, 4], &[3, 4]));
    assert!(ends_with(&[1, 2, 3, 4], &[1, 2, 3, 4]));
    assert!(ends_with(&[1, 2, 3, 4], &[]));
    assert!(ends_with(&[], &[]));
    assert!(!ends_with(&[1, 2, 3, 4], &[3]));
    assert!(!ends_with(&[1, 2, 3, 4], &[2, 4]));
    assert!(!ends_with(&[3, 4], &[2, 3, 4]));
    assert!(!ends_with(&[], &[4]));
}
