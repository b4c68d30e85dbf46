use canparse::dbc::{Entry, ParseEntryError, SignalAttribute, Version};
use canparse::decimal::Decimal;
use canparse::pgn::{AddEntryError, DefinitionErrorKind, PgnDefinition, PgnLibrary, SpnDefinition};
use std::str::FromStr;

fn sample_dbc() -> Vec<u8> {
    let mut t = String::new();
    t.push_str("VERSION \"created for testing\"\r\n");
    t.push_str("\r\n");
    t.push_str("BO_ 2364539904 EEC1: 8 Vector__XXX\r\n");
    t.push_str("SG_ Engine_Speed : 24|16@1+ (0.125,0) [0|8031.88] \"rpm\" Vector__XXX\r\n");
    t.push_str("CM_ SG_ 2364539904 Engine_Speed \"A description for Engine speed.\";\r\n");
    t.push_str("BA_ \"SPN\" SG_ 2364539904 Engine_Speed 190;\r\n");
    t.into_bytes()
}

fn engine_speed_spn() -> SpnDefinition {
    SpnDefinition::new(
        b"Engine_Speed".to_vec(),
        190,
        2364539904,
        b"A description for Engine speed.".to_vec(),
        24,
        16,
        true,
        false,
        Decimal::new(false, 125, -3),
        Decimal::new(false, 0, 0),
        Decimal::new(false, 0, 0),
        Decimal::new(false, 803188, -2),
        b"rpm".to_vec(),
    )
}

#[test]
fn default_pgnlibrary() {
    let lib = PgnLibrary::default();
    assert_eq!(lib.pgns.len(), 0);
}

#[test]
fn get_spndefinition_by_pgn() {
    let lib = PgnLibrary::from_dbc_text(&sample_dbc());
    let pgn = lib
        .get_pgn(0xF004)
        .expect("failed to get PgnDefinition from PgnLibrary");
    let spn = pgn
        .get_spn(&b"Engine_Speed".to_vec())
        .expect("failed to get SpnDefinition from PgnDefinition");
    assert_eq!(*spn, engine_speed_spn());
}

#[test]
fn get_spndefinition_by_arb() {
    let lib = PgnLibrary::from_dbc_text(&sample_dbc());
    let pgn = lib
        .get_arbitration(2364539904)
        .expect("failed to get PgnDefinition from PgnLibrary");
    let spn = pgn
        .get_spn(&b"Engine_Speed".to_vec())
        .expect("failed to get SpnDefinition from PgnDefinition");
    assert_eq!(*spn, engine_speed_spn());
}

#[test]
fn unsupported_entry() {
    let mut pgnlib = PgnLibrary::default();
    let unsupported = Entry::Version(Version(b"Don't care about version entry".to_vec()));
    let res = pgnlib.add_entry(unsupported);
    assert!(res.is_err(), "Unsupported entry: Version");
}

#[test]
fn test_parse_array() {
    let spndef = engine_speed_spn();
    let msg: [u8; 8] = [0x11, 0x22, 0x33, 0x44, 0x55, 0x66, 0x77, 0x88];
    let raw = spndef.parse_array(&msg);
    assert_eq!(raw, 21828);
    let value = raw as f32 * 0.125f32 + 0.0f32;
    assert!((value - 2728.5f32).abs() < 1e-4);

    let mut spndef_be = engine_speed_spn();
    spndef_be.little_endian = false;
    let msg_be: [u8; 8] = [0x88, 0x77, 0x66, 0x55, 0x44, 0x33, 0x22, 0x11];
    let raw_be = spndef_be.parse_array(&msg_be);
    assert_eq!(raw_be, 21828);
    let value_be = raw_be as f32 * 0.125f32 + 0.0f32;
    assert!((value_be - 2728.5f32).abs() < 1e-4);
}

#[test]
fn test_parse_message() {
    let spndef = engine_speed_spn();
    let msg: [u8; 8] = [0x11, 0x22, 0x33, 0x44, 0x55, 0x66, 0x77, 0x88];
    let raw = spndef.parse_message(&msg[..]).unwrap();
    assert_eq!(raw, 21828);
    let value = raw as f32 * 0.125f32 + 0.0f32;
    assert!((value - 2728.5f32).abs() < 1e-4);
}

#[test]
fn signal_definition_without_message_is_rejected() {
    let text = b"SG_ S : 0|8@1+ (1,0) [0|1] \"u\" N\r\n".to_vec();
    let mut lib = PgnLibrary::default();
    match canparse::parser::entry(&text) {
        Ok((e, _)) => {
            let res = lib.add_entry(e);
            assert_eq!(res, Err(AddEntryError::NoCurrentMessage));
            assert_eq!(lib.pgns.len(), 0);
        }
        Err(_) => panic!("signal line did not parse"),
    }
}

#[test]
fn signal_remerge_updates_scale_in_place() {
    let mut t = String::new();
    t.push_str("BO_ 256 M: 8 N\r\n");
    t.push_str("SG_ S : 0|8@1+ (1,0) [0|1] \"u\" N\r\n");
    t.push_str("SG_ S : 0|8@1+ (2,0) [0|1] \"u\" N\r\n");
    let lib = PgnLibrary::from_dbc_text(t.as_bytes());
    let pgn = lib.get_arbitration(256).expect("message missing");
    assert_eq!(pgn.spns.len(), 1);
    let spn = pgn.get_spn(&b"S".to_vec()).expect("signal missing");
    assert_eq!(spn.scale, Decimal::new(false, 2, 0));
}

#[test]
fn non_spn_attribute_is_accepted_and_ignored() {
    let mut t = String::new();
    t.push_str("BO_ 256 M: 8 N\r\n");
    t.push_str("SG_ S : 0|8@1+ (1,0) [0|1] \"u\" N\r\n");
    t.push_str("BA_ \"SPN\" SG_ 256 S 42;\r\n");
    let mut lib = PgnLibrary::from_dbc_text(t.as_bytes());
    {
        let spn = lib
            .get_arbitration(256)
            .unwrap()
            .get_spn(&b"S".to_vec())
            .unwrap();
        assert_eq!(spn.number, 42);
    }
    let other = Entry::SignalAttribute(SignalAttribute {
        name: b"GenSigStartValue".to_vec(),
        id: 256,
        signal_name: b"S".to_vec(),
        value: b"7".to_vec(),
    });
    let res = lib.add_entry(other);
    assert!(res.is_ok());
    let spn = lib
        .get_arbitration(256)
        .unwrap()
        .get_spn(&b"S".to_vec())
        .unwrap();
    assert_eq!(spn.number, 42);
}

#[test]
fn bad_spn_attribute_value_is_fatal_for_the_record() {
    let mut lib = PgnLibrary::default();
    let bad = Entry::SignalAttribute(SignalAttribute {
        name: b"SPN".to_vec(),
        id: 256,
        signal_name: b"S".to_vec(),
        value: b"99999999999999999999999999".to_vec(),
    });
    let res = lib.add_entry(bad);
    assert_eq!(res, Err(AddEntryError::BadAttributeValue));
    assert_eq!(lib.pgns.len(), 0);
}

#[test]
fn round_trip_engine_speed() {
    let text = b"BO_ 2364539904 EEC1: 8 Vector__XXX\r\nSG_ Engine_Speed : 24|16@1+ (0.125,0) [0|8031.88] \"rpm\" Vector__XXX\r\n";
    let lib = PgnLibrary::from_dbc_text(&text[..]);
    let pgn = lib.get_arbitration(2364539904).expect("message missing");
    assert_eq!(pgn.id, 2364539904);
    let spn = pgn.get_spn(&b"Engine_Speed".to_vec()).expect("signal missing");
    assert_eq!(spn.start_bit, 24);
    assert_eq!(spn.bit_len, 16);
    assert!(spn.little_endian);
    assert!(!spn.signed);
    assert_eq!(spn.scale, Decimal::new(false, 125, -3));
    assert_eq!(spn.offset, Decimal::new(false, 0, 0));
    assert_eq!(spn.min_value, Decimal::new(false, 0, 0));
    assert_eq!(spn.max_value, Decimal::new(false, 803188, -2));
    assert_eq!(spn.units, b"rpm".to_vec());

    let msg: [u8; 8] = [0x11, 0x22, 0x33, 0x44, 0x55, 0x66, 0x77, 0x88];
    let raw = spn.parse_message(&msg[..]).expect("decode failed");
    let scale = spn.scale.mantissa as f32 * 10f32.powi(spn.scale.exponent);
    let offset = spn.offset.mantissa as f32 * 10f32.powi(spn.offset.exponent);
    let value = raw as f32 * scale + offset;
    assert!((value - 2728.5f32).abs() < 1e-4);
}

#[test]
fn message_definition_sets_name_and_length_at_creation() {
    let mut t = String::new();
    t.push_str("BO_ 256 M: 8 N\r\n");
    let lib = PgnLibrary::from_dbc_text(t.as_bytes());
    let pgn = lib.get_arbitration(256).unwrap();
    assert_eq!(pgn.name_abbrev, b"M".to_vec());
    assert_eq!(pgn.length, 8);

    // A later definition for the same id re-merges the byte length but the
    // name keeps its creation-time value.
    t.push_str("BO_ 256 Renamed: 6 N\r\n");
    let lib2 = PgnLibrary::from_dbc_text(t.as_bytes());
    let pgn2 = lib2.get_arbitration(256).unwrap();
    assert_eq!(pgn2.name_abbrev, b"M".to_vec());
    assert_eq!(pgn2.length, 6);
}

#[test]
fn message_description_and_attribute_merge() {
    let mut t = String::new();
    t.push_str("BO_ 256 M: 8 N\r\n");
    t.push_str("CM_ BO_ 256 \"A message.\";\r\n");
    t.push_str("BA_ \"NmMessage\" BO_ 256 1;\r\n");
    let lib = PgnLibrary::from_dbc_text(t.as_bytes());
    let pgn = lib.get_arbitration(256).unwrap();
    assert_eq!(pgn.description, b"A message.".to_vec());
    assert_eq!(pgn.id, 256);
}

#[test]
fn pgn_and_sa_decompose_the_id() {
    let lib = PgnLibrary::from_dbc_text(&sample_dbc());
    let pgn = lib.get_arbitration(2364539904).unwrap();
    assert_eq!(pgn.pgn(), 0xF004);
    assert_eq!(pgn.sa(), 0x00);
    assert_eq!(lib.get_spn(&b"Engine_Speed".to_vec()).unwrap().number, 190);
}

#[test]
fn loader_skips_junk_and_discards_a_truncated_tail() {
    let mut t = String::new();
    t.push_str("NS_ : nonsense\r\n");
    t.push_str("BO_ 256 M: 8 N\r\n");
    t.push_str("SG_ S : 0|8@1+ (1,0) [0|1] \"u\" N\r\n");
    t.push_str("BO_ 512 T: 8 N"); // no terminator: dropped
    let lib = PgnLibrary::from_dbc_text(t.as_bytes());
    assert_eq!(lib.pgns.len(), 1);
    assert!(lib.get_arbitration(256).is_some());
    assert!(lib.get_arbitration(512).is_none());
    assert!(lib.get_spn(&b"S".to_vec()).is_some());
}

#[test]
fn non_spn_attribute_for_an_unknown_id_creates_an_empty_message() {
    let mut lib = PgnLibrary::default();
    let other = Entry::SignalAttribute(SignalAttribute {
        name: b"GenSigStartValue".to_vec(),
        id: 300,
        signal_name: b"S".to_vec(),
        value: b"7".to_vec(),
    });
    assert!(lib.add_entry(other).is_ok());
    let pgn = lib.get_arbitration(300).expect("entity missing");
    assert_eq!(pgn.spns.len(), 0);
    assert_eq!(pgn.length, 0);
}

#[test]
fn from_str_builds_definitions_from_single_lines() {
    let pgn = PgnDefinition::from_str("BO_ 256 M: 8 N\r\n").expect("message line");
    assert_eq!(pgn.id, 256);
    assert_eq!(pgn.name_abbrev, b"M".to_vec());
    assert_eq!(pgn.length, 8);

    let spn =
        SpnDefinition::from_str("SG_ S : 0|8@1+ (1,0) [0|1] \"u\" N\r\n").expect("signal line");
    assert_eq!(spn.name, b"S".to_vec());
    assert_eq!(spn.bit_len, 8);

    // A signal line does not convert into a message definition.
    let wrong = PgnDefinition::from_str("SG_ S : 0|8@1+ (1,0) [0|1] \"u\" N\r\n").unwrap_err();
    assert!(matches!(wrong.kind, DefinitionErrorKind::UnusedEntry(_)));

    // A line without its terminator is an incomplete record.
    let incomplete = SpnDefinition::from_str("BO_ 256 M: 8 N").unwrap_err();
    assert_eq!(incomplete.kind, DefinitionErrorKind::Entry(ParseEntryError));
    assert!(incomplete.__cause().is_some());
}
