use bytes::BytesMut;
use rusttorney::client_command::ClientCommand;
use rusttorney::codec::{ignore_ill_utf8, strip_replacement, AOMessageCodec, MAX_MESSAGE_LEN};
use rusttorney::command::Command;
use rusttorney::error::Error;
use rusttorney::records::{CasePreferences, EvidenceArgs};
use rusttorney::server_command::ServerCommand;
use rusttorney::text::ParseError;

fn buffer(bytes: &[u8]) -> BytesMut {
    BytesMut::from(bytes)
}

#[test]
fn codec_parse_handshake() {
    let mut input: BytesMut = b"HI#hdid#%"[..].into();
    let expected = ClientCommand::Handshake("hdid".into());
    let actual = AOMessageCodec.decode(&mut input).unwrap().unwrap();
    assert_eq!(actual, expected);
}

#[test]
fn command_parse_handshake() {
    let mut input: BytesMut = b"HI#hdid#%"[..].into();
    let expected = ClientCommand::Handshake("hdid".into());
    let actual = AOMessageCodec.decode(&mut input).unwrap().unwrap();
    assert_eq!(actual, expected);
}

#[test]
fn encode_handshake() {
    let command = ServerCommand::Handshake("hdid".into());
    let mut actual = BytesMut::new();
    let expected = BytesMut::from(&b"HI#hdid#%"[..]);
    AOMessageCodec.encode(command, &mut actual).unwrap();
    assert_eq!(actual, expected);
}

#[test]
fn codec_mismatched_number_of_args() {
    let mut input1: BytesMut = b"HI#%"[..].into();
    let mut input2: BytesMut = b"HI#hdid#junk#%"[..].into();
    assert!(AOMessageCodec.decode(&mut input1).is_err());
    assert!(AOMessageCodec.decode(&mut input2).is_err());
}

#[test]
fn command_mismatched_number_of_args() {
    let mut input1: BytesMut = b"HI#%"[..].into();
    let mut input2: BytesMut = b"HI#hdid#junk#%"[..].into();
    assert!(AOMessageCodec.decode(&mut input1).is_err());
    assert!(AOMessageCodec.decode(&mut input2).is_err());
}

#[test]
fn codec_two_messages_in_one_chunk() {
    let mut src: BytesMut = b"HI#hdid1#%HI#hdid2#%"[..].into();
    let expected1 = ClientCommand::Handshake("hdid1".into());
    let expected2 = ClientCommand::Handshake("hdid2".into());
    let mut codec = AOMessageCodec;
    let actual1 = codec.decode(&mut src).unwrap().unwrap();
    assert_eq!(expected1, actual1);
    let actual2 = codec.decode(&mut src).unwrap().unwrap();
    assert_eq!(expected2, actual2);
}

#[test]
fn command_two_messages_in_one_chunk() {
    let mut src: BytesMut = b"HI#hdid1#%HI#hdid2#%"[..].into();
    let expected1 = ClientCommand::Handshake("hdid1".into());
    let expected2 = ClientCommand::Handshake("hdid2".into());
    let mut codec = AOMessageCodec;
    let actual1 = codec.decode(&mut src).unwrap().unwrap();
    assert_eq!(expected1, actual1);
    let actual2 = codec.decode(&mut src).unwrap().unwrap();
    assert_eq!(expected2, actual2);
    assert!(src.is_empty());
}

#[test]
fn mismatched_arguments_name_their_error() {
    let mut missing = buffer(b"HI#%");
    assert!(matches!(AOMessageCodec.decode(&mut missing), Err(Error::NotEnoughArgs)));
    assert!(missing.is_empty());
    let mut extra = buffer(b"HI#hdid#junk#%");
    assert!(matches!(AOMessageCodec.decode(&mut extra), Err(Error::TooManyArgs)));
    assert!(extra.is_empty());
}

#[test]
fn unknown_code_is_an_error() {
    let mut input = buffer(b"NOPE#1#%rest");
    match AOMessageCodec.decode(&mut input) {
        Err(Error::UnknownCode(code)) => assert_eq!(code, "NOPE"),
        other => panic!("unexpected: {:?}", other),
    }
    assert_eq!(&input[..], b"rest");
    let mut lower = buffer(b"hi#hdid#%");
    assert!(matches!(AOMessageCodec.decode(&mut lower), Err(Error::UnknownCode(_))));
}

#[test]
fn unknown_code_message_names_the_code() {
    let error = Error::UnknownCode("XX".to_string());
    assert_eq!(error.message(), "Unknown command code: XX");
    assert_eq!(Error::TooMuchData.message(), "Too much data");
    assert_eq!(Error::TooManyArgs.message(), "Too many args");
    assert_eq!(Error::NotEnoughArgs.message(), "Not enough args");
    assert_eq!(Error::Timeout.message(), "Client disconnected because of timeout");
    assert_eq!(Error::Disconnected.message(), "Client disconnected");
    assert_eq!(Error::ServerFull.message(), "This server is full!");
    assert_eq!(Error::Parse(ParseError::InvalidDigit).message(), "invalid digit found in string");
    assert_eq!(Error::Handler("db is down".to_string()).message(), "db is down");
    assert_eq!(Error::UnexpectedEnd.message(), "unexpected end");
    assert_eq!(Error::MessageTooLong.message(), "Message too long");
}

#[test]
fn timeout_is_no_fault() {
    assert!(!Error::Timeout.is_fault());
    assert!(Error::Disconnected.is_fault());
    assert!(Error::TooMuchData.is_fault());
    assert!(Error::Handler(String::new()).is_fault());
}

#[test]
fn field_parse_error_is_reported() {
    let mut input = buffer(b"AN#page#%");
    assert!(matches!(
        AOMessageCodec.decode(&mut input),
        Err(Error::Parse(ParseError::InvalidDigit))
    ));
    let mut empty = buffer(b"AN##%");
    assert!(matches!(AOMessageCodec.decode(&mut empty), Err(Error::Parse(ParseError::Empty))));
    let mut large = buffer(b"AN#4294967296#%");
    assert!(matches!(
        AOMessageCodec.decode(&mut large),
        Err(Error::Parse(ParseError::PosOverflow))
    ));
    let mut flag = buffer(b"SETCASE#all#1#0#0#0#0#0#%");
    assert!(matches!(AOMessageCodec.decode(&mut flag), Err(Error::Parse(ParseError::NotBool))));
}

#[test]
fn need_more_data_leaves_the_buffer() {
    let mut codec = AOMessageCodec;
    for chunk in [&b""[..], b"H", b"HI#hdid", b"HI#hdid#", b"HI#hdid%", b"%#", b"#"] {
        let mut input = buffer(chunk);
        assert!(matches!(codec.decode(&mut input), Ok(None)));
        assert_eq!(&input[..], chunk);
    }
}

#[test]
fn need_more_data_up_to_the_limit() {
    let bytes = vec![b'a'; MAX_MESSAGE_LEN];
    let mut input = buffer(&bytes);
    assert!(matches!(AOMessageCodec.decode(&mut input), Ok(None)));
    assert_eq!(&input[..], &bytes[..]);
}

#[test]
fn too_much_data_consumes_nothing() {
    let bytes = vec![b'a'; MAX_MESSAGE_LEN + 1];
    let mut input = buffer(&bytes);
    assert!(matches!(AOMessageCodec.decode(&mut input), Err(Error::TooMuchData)));
    assert_eq!(&input[..], &bytes[..]);
}

#[test]
fn message_that_ends_beyond_the_limit_is_too_much() {
    // the end of the message stands at 8191 and 8192: one byte too late
    let mut bytes = vec![b'a'; MAX_MESSAGE_LEN - 1];
    bytes.extend_from_slice(b"#%");
    let mut input = buffer(&bytes);
    assert!(matches!(AOMessageCodec.decode(&mut input), Err(Error::TooMuchData)));
    assert_eq!(&input[..], &bytes[..]);
}

#[test]
fn message_of_exactly_the_limit_is_read() {
    let mut bytes = b"HI#".to_vec();
    bytes.extend(vec![b'a'; MAX_MESSAGE_LEN - 5]);
    bytes.extend_from_slice(b"#%");
    assert_eq!(bytes.len(), MAX_MESSAGE_LEN);
    let mut input = buffer(&bytes);
    let expected = ClientCommand::Handshake("a".repeat(MAX_MESSAGE_LEN - 5));
    assert_eq!(AOMessageCodec.decode(&mut input).unwrap().unwrap(), expected);
    assert!(input.is_empty());
}

#[test]
fn short_message_before_a_long_tail_is_read() {
    let mut bytes = b"HI#hdid#%".to_vec();
    bytes.extend(vec![b'a'; 2 * MAX_MESSAGE_LEN]);
    let mut input = buffer(&bytes);
    let expected = ClientCommand::Handshake("hdid".into());
    assert_eq!(AOMessageCodec.decode(&mut input).unwrap().unwrap(), expected);
    assert_eq!(input.len(), 2 * MAX_MESSAGE_LEN);
    assert!(matches!(AOMessageCodec.decode(&mut input), Err(Error::TooMuchData)));
    assert_eq!(input.len(), 2 * MAX_MESSAGE_LEN);
}

#[test]
fn empty_arguments_are_arguments() {
    let mut input = buffer(b"HI##%");
    assert_eq!(
        AOMessageCodec.decode(&mut input).unwrap().unwrap(),
        ClientCommand::Handshake(String::new())
    );
    let mut two = buffer(b"CT###%");
    assert_eq!(
        AOMessageCodec.decode(&mut two).unwrap().unwrap(),
        ClientCommand::OOCMessage(String::new(), String::new())
    );
}

#[test]
fn code_without_arguments() {
    let mut input = buffer(b"askchaa#%");
    assert_eq!(AOMessageCodec.decode(&mut input).unwrap().unwrap(), ClientCommand::AskListLengths);
    let mut ready = buffer(b"RD#%MS#%");
    assert_eq!(AOMessageCodec.decode(&mut ready).unwrap().unwrap(), ClientCommand::AO2Ready);
    assert_eq!(AOMessageCodec.decode(&mut ready).unwrap().unwrap(), ClientCommand::ICMessage);
    assert!(matches!(AOMessageCodec.decode(&mut ready), Ok(None)));
}

#[test]
fn percent_inside_a_field_is_kept() {
    let mut input = buffer(b"HI#100%#%");
    assert_eq!(
        AOMessageCodec.decode(&mut input).unwrap().unwrap(),
        ClientCommand::Handshake("100%".into())
    );
}

#[test]
fn field_that_begins_with_percent_ends_the_message() {
    let mut input = buffer(b"CT#%name#text#%");
    assert!(matches!(AOMessageCodec.decode(&mut input), Err(Error::NotEnoughArgs)));
    assert_eq!(&input[..], b"name#text#%");
}

#[test]
fn ill_utf8_is_dropped() {
    assert_eq!(ignore_ill_utf8(b"hdid"), "hdid");
    assert_eq!(ignore_ill_utf8(b""), "");
    assert_eq!(ignore_ill_utf8(b"h\xffd\xfeid"), "hdid");
    assert_eq!(ignore_ill_utf8(b"\xc3"), "");
    assert_eq!(ignore_ill_utf8("grüß".as_bytes()), "grüß");
    assert_eq!(ignore_ill_utf8(b"a\xe2\x82"), "a");
}

#[test]
fn replacement_characters_are_stripped() {
    assert_eq!(strip_replacement(""), "");
    assert_eq!(strip_replacement("hdid"), "hdid");
    assert_eq!(strip_replacement("\u{fffd}"), "");
    assert_eq!(strip_replacement("a\u{fffd}b\u{fffd}\u{fffd}c"), "abc");
    assert_eq!(strip_replacement("\u{fffd}grüß\u{fffe}\u{fffc}"), "grüß\u{fffe}\u{fffc}");
}

#[test]
fn replacement_character_is_dropped_from_valid_text() {
    assert_eq!(ignore_ill_utf8("a\u{fffd}b".as_bytes()), "ab");
    let mut input = buffer("HI#a\u{fffd}b#%".as_bytes());
    assert_eq!(
        AOMessageCodec.decode(&mut input).unwrap().unwrap(),
        ClientCommand::Handshake("ab".into())
    );
}

#[test]
fn decoded_fields_hold_no_replacement_character() {
    let mut input = buffer(b"CT#na\xffme#\xf0\x9f text \xe2\x28\xa1#%");
    match AOMessageCodec.decode(&mut input).unwrap().unwrap() {
        ClientCommand::OOCMessage(name, message) => {
            assert_eq!(name, "name");
            assert!(!message.contains('\u{fffd}'));
            assert_eq!(message, " text (");
        }
        other => panic!("unexpected: {:?}", other),
    }
}

#[test]
fn ill_utf8_in_the_code() {
    let mut input = buffer(b"H\xffI#hdid#%");
    assert_eq!(
        AOMessageCodec.decode(&mut input).unwrap().unwrap(),
        ClientCommand::Handshake("hdid".into())
    );
}

#[test]
fn evidence_with_flattened_record() {
    let mut input = buffer(b"EE#7#name#desc#img#%");
    let decoded = AOMessageCodec.decode(&mut input).unwrap().unwrap();
    let expected = ClientCommand::EditEvidence(
        7,
        EvidenceArgs { name: "name".into(), description: "desc".into(), image: "img".into() },
    );
    assert_eq!(decoded, expected);
    assert!(input.is_empty());
    assert_eq!(decoded.to_message().as_bytes(), b"EE#7#name#desc#img#%");
}

#[test]
fn case_preferences_are_flattened() {
    let mut input = buffer(b"SETCASE#cases#true#false#true#false#true#false#%");
    let expected = ClientCommand::SetCasePreferences(
        "cases".into(),
        CasePreferences { cm: true, def: false, pro: true, judge: false, jury: true, steno: false },
    );
    assert_eq!(AOMessageCodec.decode(&mut input).unwrap().unwrap(), expected);
    let mut short = buffer(b"CASEA#title#true#false#true#%");
    assert!(matches!(AOMessageCodec.decode(&mut short), Err(Error::NotEnoughArgs)));
}

#[test]
fn first_variant_of_a_code_wins() {
    let mut page = buffer(b"AM#3#%");
    assert_eq!(AOMessageCodec.decode(&mut page).unwrap().unwrap(), ClientCommand::MusicList(3));
    let mut bare = buffer(b"AM#%");
    assert!(matches!(AOMessageCodec.decode(&mut bare), Err(Error::NotEnoughArgs)));
}

#[test]
fn decode_eof_drops_the_residue() {
    let mut codec = AOMessageCodec;
    let mut input = buffer(b"HI#hdid#%HI#hd");
    assert_eq!(
        codec.decode_eof(&mut input).unwrap().unwrap(),
        ClientCommand::Handshake("hdid".into())
    );
    assert_eq!(&input[..], b"HI#hd");
    assert!(matches!(codec.decode_eof(&mut input), Ok(None)));
    assert!(input.is_empty());
    assert!(matches!(codec.decode_eof(&mut input), Ok(None)));
}

#[test]
fn decode_eof_reports_errors() {
    let mut codec = AOMessageCodec;
    let mut input = buffer(b"HI#%");
    assert!(matches!(codec.decode_eof(&mut input), Err(Error::NotEnoughArgs)));
    let bytes = vec![b'a'; MAX_MESSAGE_LEN + 1];
    let mut long = buffer(&bytes);
    assert!(matches!(codec.decode_eof(&mut long), Err(Error::TooMuchData)));
    assert_eq!(long.len(), MAX_MESSAGE_LEN + 1);
}

#[test]
fn encode_every_server_command() {
    let cases: Vec<(ServerCommand, &[u8])> = vec![
        (ServerCommand::Handshake("1111".into()), b"HI#1111#%"),
        (ServerCommand::KeepAlive, b"CHECK#%"),
        (ServerCommand::Decryptor(34), b"decryptor#34#%"),
        (ServerCommand::BanReason("This server is full.".into()), b"BD#This server is full.#%"),
        (
            ServerCommand::ServerVersion(7, "rusttorney".into(), "0.1".into()),
            b"ID#7#rusttorney#0.1#%",
        ),
        (ServerCommand::PlayerCount(0, 255), b"PN#0#255#%"),
    ];
    for (command, expected) in cases {
        let mut out = BytesMut::new();
        AOMessageCodec.encode(command, &mut out).unwrap();
        assert_eq!(&out[..], expected);
    }
}

#[test]
fn encode_appends_to_what_is_there() {
    let mut out = buffer(b"CHECK#%");
    AOMessageCodec.encode(ServerCommand::PlayerCount(1, 2), &mut out).unwrap();
    AOMessageCodec.encode(ServerCommand::Handshake("grüß".into()), &mut out).unwrap();
    assert_eq!(&out[..], "CHECK#%PN#1#2#%HI#grüß#%".as_bytes());
}

#[test]
fn encoded_bytes_are_the_message_text() {
    let commands = vec![
        ServerCommand::ServerVersion(255, "söft".into(), "".into()),
        ServerCommand::KeepAlive,
        ServerCommand::Decryptor(u32::MAX),
    ];
    for command in commands {
        let text = command.to_message();
        let mut out = BytesMut::new();
        AOMessageCodec.encode(command, &mut out).unwrap();
        assert_eq!(&out[..], text.as_bytes());
    }
}

#[test]
fn decode_what_was_written() {
    let commands = vec![
        ClientCommand::Handshake("hdid".into()),
        ClientCommand::ClientVersion(4294967295, "AO2".into(), "2.8.5".into()),
        ClientCommand::KeepAlive(-2147483648),
        ClientCommand::KeepAlive(0),
        ClientCommand::AskListLengths,
        ClientCommand::AskListCharacters,
        ClientCommand::CharacterList(0),
        ClientCommand::EvidenceList(12),
        ClientCommand::MusicList(7),
        ClientCommand::AO2CharacterList,
        ClientCommand::AO2Ready,
        ClientCommand::SelectCharacter(1, 2, "h d i d".into()),
        ClientCommand::ICMessage,
        ClientCommand::OOCMessage("näme".into(), "50% off".into()),
        ClientCommand::PlaySong(3, 4),
        ClientCommand::WTCEButtons("".into()),
        ClientCommand::SetCasePreferences(
            "".into(),
            CasePreferences {
                cm: false,
                def: true,
                pro: false,
                judge: true,
                jury: false,
                steno: true,
            },
        ),
        ClientCommand::CaseAnnounce(
            "title".into(),
            CasePreferences {
                cm: true,
                def: true,
                pro: true,
                judge: true,
                jury: true,
                steno: true,
            },
        ),
        ClientCommand::Penalties(1, 10),
        ClientCommand::AddEvidence(EvidenceArgs {
            name: "knife".into(),
            description: "".into(),
            image: "knife.png".into(),
        }),
        ClientCommand::DeleteEvidence(9),
        ClientCommand::EditEvidence(
            7,
            EvidenceArgs { name: "n".into(), description: "d".into(), image: "i".into() },
        ),
        ClientCommand::CallModButton("help".into()),
    ];
    let mut stream = BytesMut::new();
    for command in &commands {
        stream.extend_from_slice(command.to_message().as_bytes());
    }
    let mut codec = AOMessageCodec;
    for command in &commands {
        assert_eq!(&codec.decode(&mut stream).unwrap().unwrap(), command);
    }
    assert!(stream.is_empty());
    assert!(matches!(codec.decode(&mut stream), Ok(None)));
}

#[test]
fn shadowed_variant_does_not_read_back() {
    let message = ClientCommand::AO2MusicList.to_message();
    assert_eq!(message, "AM#%");
    let mut input = buffer(message.as_bytes());
    assert!(matches!(AOMessageCodec.decode(&mut input), Err(Error::NotEnoughArgs)));
}
