use canparse::dbc::Entry;
use canparse::decimal::Decimal;
use canparse::parser::{entry, unknown, version};

#[test]
fn version_line_parses() {
    let text = b"VERSION \"created by canmatrix\"\r\n";
    let (v, n) = version(&text[..]).expect("version line did not parse");
    assert_eq!(v.0, b"created by canmatrix".to_vec());
    assert_eq!(n, text.len());
}

#[test]
fn version_line_unescapes_quotes_and_backslashes() {
    let text = b"VERSION \"a\\\"b\\\\c\"\n";
    let (v, _) = version(&text[..]).expect("escaped version did not parse");
    assert_eq!(v.0, b"a\"b\\c".to_vec());
}

#[test]
fn bus_configuration_line_parses() {
    let text = b"BS_: 250000\r\n";
    match entry(&text[..]) {
        Ok((Entry::BusConfiguration(b), n)) => {
            assert_eq!(b.0, 250000);
            assert_eq!(n, text.len());
        }
        other => panic!("unexpected parse: {:?}", other),
    }
}

#[test]
fn message_definition_line_parses() {
    let text = b"BO_ 2364539904 EEC1: 8 Vector__XXX\r\n";
    match entry(&text[..]) {
        Ok((Entry::MessageDefinition(m), n)) => {
            assert_eq!(m.id, 2364539904);
            assert_eq!(m.name, b"EEC1".to_vec());
            assert_eq!(m.message_len, 8);
            assert_eq!(m.sending_node, b"Vector__XXX".to_vec());
            assert_eq!(n, text.len());
        }
        other => panic!("unexpected parse: {:?}", other),
    }
}

#[test]
fn message_description_line_parses() {
    let text = b"CM_ BO_ 2364539904 \"Engine Controller 1.\";\r\n";
    match entry(&text[..]) {
        Ok((Entry::MessageDescription(m), _)) => {
            assert_eq!(m.id, 2364539904);
            assert_eq!(m.description, b"Engine Controller 1.".to_vec());
        }
        other => panic!("unexpected parse: {:?}", other),
    }
}

#[test]
fn message_attribute_line_parses_before_signal_attribute() {
    let text = b"BA_ \"NmMessage\" BO_ 256 1;\r\n";
    match entry(&text[..]) {
        Ok((Entry::MessageAttribute(m), _)) => {
            assert_eq!(m.name, b"NmMessage".to_vec());
            assert_eq!(m.id, 256);
            assert_eq!(m.value, b"1".to_vec());
        }
        other => panic!("unexpected parse: {:?}", other),
    }
}

#[test]
fn signal_definition_line_parses() {
    let text = b"SG_ Engine_Speed : 24|16@1+ (0.125,0) [0|8031.88] \"rpm\" Vector__XXX\r\n";
    match entry(&text[..]) {
        Ok((Entry::SignalDefinition(sd), n)) => {
            assert_eq!(sd.name, b"Engine_Speed".to_vec());
            assert_eq!(sd.start_bit, 24);
            assert_eq!(sd.bit_len, 16);
            assert!(sd.little_endian);
            assert!(!sd.signed);
            assert_eq!(sd.scale, Decimal::new(false, 125, -3));
            assert_eq!(sd.offset, Decimal::new(false, 0, 0));
            assert_eq!(sd.min_value, Decimal::new(false, 0, 0));
            assert_eq!(sd.max_value, Decimal::new(false, 803188, -2));
            assert_eq!(sd.units, b"rpm".to_vec());
            assert_eq!(sd.receiving_node, b"Vector__XXX".to_vec());
            assert_eq!(n, text.len());
        }
        other => panic!("unexpected parse: {:?}", other),
    }
}

#[test]
fn signal_definition_big_endian_signed_with_exponents() {
    let text = b" SG_ T : 2|8@0- (-1.5,2e2) [0.5|10.] \"degC\" N\r\n";
    match entry(&text[..]) {
        Ok((Entry::SignalDefinition(sd), _)) => {
            assert_eq!(sd.start_bit, 2);
            assert_eq!(sd.bit_len, 8);
            assert!(!sd.little_endian);
            assert!(sd.signed);
            assert_eq!(sd.scale, Decimal::new(true, 15, -1));
            assert_eq!(sd.offset, Decimal::new(false, 2, 2));
            assert_eq!(sd.min_value, Decimal::new(false, 5, -1));
            assert_eq!(sd.max_value, Decimal::new(false, 10, 0));
        }
        other => panic!("unexpected parse: {:?}", other),
    }
}

#[test]
fn signal_description_line_parses() {
    let text = b"CM_ SG_ 2364539904 Engine_Speed \"A description for Engine speed.\";\r\n";
    match entry(&text[..]) {
        Ok((Entry::SignalDescription(sd), _)) => {
            assert_eq!(sd.id, 2364539904);
            assert_eq!(sd.signal_name, b"Engine_Speed".to_vec());
            assert_eq!(sd.description, b"A description for Engine speed.".to_vec());
        }
        other => panic!("unexpected parse: {:?}", other),
    }
}

#[test]
fn signal_attribute_line_parses() {
    let text = b"BA_ \"SPN\" SG_ 2364539904 Engine_Speed 190;\r\n";
    match entry(&text[..]) {
        Ok((Entry::SignalAttribute(sa), _)) => {
            assert_eq!(sa.name, b"SPN".to_vec());
            assert_eq!(sa.id, 2364539904);
            assert_eq!(sa.signal_name, b"Engine_Speed".to_vec());
            assert_eq!(sa.value, b"190".to_vec());
        }
        other => panic!("unexpected parse: {:?}", other),
    }
}

#[test]
fn unrecognised_line_becomes_unknown() {
    let text = b"NS_ : something else\r\nBO_ 1 A: 8 N\r\n";
    match entry(&text[..]) {
        Ok((Entry::Unknown(raw), n)) => {
            assert_eq!(raw, b"NS_ : something else".to_vec());
            assert_eq!(n, b"NS_ : something else\r\n".len());
        }
        other => panic!("unexpected parse: {:?}", other),
    }
}

#[test]
fn malformed_message_definition_falls_back_to_unknown() {
    let text = b"BO_ 12x broken\r\n";
    match entry(&text[..]) {
        Ok((Entry::Unknown(raw), _)) => {
            assert_eq!(raw, b"BO_ 12x broken".to_vec());
        }
        other => panic!("unexpected parse: {:?}", other),
    }
}

#[test]
fn input_without_terminator_is_incomplete() {
    assert!(entry(b"BO_ 1 A: 8 N").is_err());
    assert!(entry(b"").is_err());
    assert!(unknown(b"half a line").is_none());
}

#[test]
fn empty_line_is_an_empty_unknown() {
    match entry(b"\r\nrest") {
        Ok((Entry::Unknown(raw), n)) => {
            assert_eq!(raw, b"".to_vec());
            assert_eq!(n, 2);
        }
        other => panic!("unexpected parse: {:?}", other),
    }
}

#[test]
fn oversized_numbers_do_not_match_the_grammar() {
    // An id beyond `u32` fails the message grammar; the line is kept verbatim.
    let text = b"BO_ 99999999999 A: 8 N\r\n";
    match entry(&text[..]) {
        Ok((Entry::Unknown(raw), _)) => {
            assert_eq!(raw, b"BO_ 99999999999 A: 8 N".to_vec());
        }
        other => panic!("unexpected parse: {:?}", other),
    }
}

#[test]
fn decimal_forms_leading_dot_and_negative_exponent() {
    let text = b"SG_ S : 0|8@1+ (.5,1e-2) [-3.|2.5e1] \"u\" N\r\n";
    match entry(&text[..]) {
        Ok((Entry::SignalDefinition(sd), _)) => {
            assert_eq!(sd.scale, Decimal::new(false, 5, -1));
            assert_eq!(sd.offset, Decimal::new(false, 1, -2));
            assert_eq!(sd.min_value, Decimal::new(true, 3, 0));
            assert_eq!(sd.max_value, Decimal::new(false, 25, 0));
        }
        other => panic!("unexpected parse: {:?}", other),
    }
}

#[test]
fn bus_configuration_rejects_a_non_integer_rate() {
    let text = b"BS_: 250000.5\r\n";
    match entry(&text[..]) {
        Ok((Entry::Unknown(raw), _)) => {
            assert_eq!(raw, b"BS_: 250000.5".to_vec());
        }
        other => panic!("unexpected parse: {:?}", other),
    }
}

#[test]
fn description_unescapes_inner_quotes() {
    let text = b"CM_ BO_ 1 \"say \\\"hi\\\"\";\r\n";
    match entry(&text[..]) {
        Ok((Entry::MessageDescription(m), _)) => {
            assert_eq!(m.description, b"say \"hi\"".to_vec());
        }
        other => panic!("unexpected parse: {:?}", other),
    }
}

#[test]
fn lone_carriage_return_terminates_a_line() {
    let text = b"junk\rBO_ 1 A: 8 N\r\n";
    match entry(&text[..]) {
        Ok((Entry::Unknown(raw), n)) => {
            assert_eq!(raw, b"junk".to_vec());
            assert_eq!(n, 5);
        }
        other => panic!("unexpected parse: {:?}", other),
    }
}

#[test]
fn missing_required_separators_fall_back_to_unknown() {
    // No space after the keyword.
    match entry(b"BO_1 A: 8 N\r\n") {
        Ok((Entry::Unknown(raw), _)) => assert_eq!(raw, b"BO_1 A: 8 N".to_vec()),
        other => panic!("unexpected parse: {:?}", other),
    }
    // No space between the colon and the byte length.
    match entry(b"BO_ 1 A:8 N\r\n") {
        Ok((Entry::Unknown(raw), _)) => assert_eq!(raw, b"BO_ 1 A:8 N".to_vec()),
        other => panic!("unexpected parse: {:?}", other),
    }
    // No space between the id and the quoted description.
    match entry(b"CM_ BO_ 5\"x\";\r\n") {
        Ok((Entry::Unknown(raw), _)) => assert_eq!(raw, b"CM_ BO_ 5\"x\";".to_vec()),
        other => panic!("unexpected parse: {:?}", other),
    }
    // No space between the closing bracket and the quoted units.
    match entry(b"SG_ S : 0|8@1+ (1,0) [0|1]\"u\" N\r\n") {
        Ok((Entry::Unknown(raw), _)) => {
            assert_eq!(raw, b"SG_ S : 0|8@1+ (1,0) [0|1]\"u\" N".to_vec());
        }
        other => panic!("unexpected parse: {:?}", other),
    }
}
