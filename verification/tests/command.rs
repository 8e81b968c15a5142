use rusttorney::client_command::{ClientCommand, ClientKind};
use rusttorney::command::{read_message, Command, FromStrIter};
use rusttorney::error::Error;
use rusttorney::field::{
    read_value, read_values, render_value, render_values, FieldType, Scalar, Value,
};
use rusttorney::master_command::{MasterServerCommand, MasterServerKind};
use rusttorney::records::{CasePreferences, EvidenceArgs};
use rusttorney::server_command::{ServerCommand, ServerKind};
use rusttorney::text::ParseError;

fn strings(items: &[&str]) -> Vec<String> {
    items.iter().map(|s| s.to_string()).collect()
}

#[test]
fn tests() {
    // a pair of integers is read from its two arguments, and not from what is none
    let actual = ClientCommand::from_protocol("MC", strings(&["42", "36"])).unwrap();
    assert_eq!(actual, ClientCommand::PlaySong(42, 36));
    assert!(ClientCommand::from_protocol("MC", strings(&["42", "kek"])).is_err());
    // an enum with codes and handler methods is taken
    let (code, args) = ("HI", strings(&["hdid"]));
    let expected = ClientCommand::Handshake("hdid".into());
    let actual = ClientCommand::from_protocol(code, args).unwrap();
    assert_eq!(actual, expected);
    // a record stands in place of a field, with its fields in order
    assert_eq!(
        ClientCommand::AddEvidence(EvidenceArgs {
            name: "Yes".to_string(),
            description: "No".to_string(),
            image: "".to_string(),
        })
        .extract_args(),
        vec!["Yes".to_string(), "No".to_string(), "".to_string()]
    );
    assert_eq!(
        ClientCommand::OOCMessage("Yes".to_string(), "No".to_string()).extract_args(),
        vec!["Yes".to_string(), "No".to_string()]
    );
    // a negative number keeps its sign, before a record as well as alone
    assert_eq!(ClientCommand::KeepAlive(-1).extract_args(), vec!["-1".to_string()]);
    assert_eq!(
        ClientCommand::from_protocol("CH", strings(&["-1"])).unwrap(),
        ClientCommand::KeepAlive(-1)
    );
    let values = vec![
        Value::I32(-1),
        Value::Text("Yes".to_string()),
        Value::Text("No".to_string()),
    ];
    assert_eq!(
        render_values(&values),
        vec!["-1".to_string(), "Yes".to_string(), "No".to_string()]
    );
    let types = [FieldType::I32, FieldType::I32];
    let read = read_values(&types, &strings(&["42", "36"])).unwrap();
    assert!(matches!(&read[..], [Value::I32(42), Value::I32(36)]));
    assert!(read_values(&types, &strings(&["42", "kek"])).is_err());
}

#[test]
fn from_protocol_reads_every_client_command() {
    let prefs = CasePreferences {
        cm: true,
        def: false,
        pro: false,
        judge: true,
        jury: false,
        steno: true,
    };
    let flags = ["true", "false", "false", "true", "false", "true"];
    let cases: Vec<(&str, Vec<&str>, ClientCommand)> = vec![
        ("HI", vec!["h"], ClientCommand::Handshake("h".into())),
        ("ID", vec!["1", "s", "v"], ClientCommand::ClientVersion(1, "s".into(), "v".into())),
        ("CH", vec!["-5"], ClientCommand::KeepAlive(-5)),
        ("askchaa", vec![], ClientCommand::AskListLengths),
        ("askchar2", vec![], ClientCommand::AskListCharacters),
        ("AN", vec!["2"], ClientCommand::CharacterList(2)),
        ("AE", vec!["3"], ClientCommand::EvidenceList(3)),
        ("AM", vec!["4"], ClientCommand::MusicList(4)),
        ("AC", vec![], ClientCommand::AO2CharacterList),
        ("RD", vec![], ClientCommand::AO2Ready),
        ("CC", vec!["1", "2", "h"], ClientCommand::SelectCharacter(1, 2, "h".into())),
        ("MS", vec![], ClientCommand::ICMessage),
        ("CT", vec!["n", "m"], ClientCommand::OOCMessage("n".into(), "m".into())),
        ("MC", vec!["5", "6"], ClientCommand::PlaySong(5, 6)),
        ("RT", vec!["t"], ClientCommand::WTCEButtons("t".into())),
        ("HP", vec!["1", "9"], ClientCommand::Penalties(1, 9)),
        ("PE", vec!["n", "d", "i"], ClientCommand::AddEvidence(EvidenceArgs {
            name: "n".into(),
            description: "d".into(),
            image: "i".into(),
        })),
        ("DE", vec!["8"], ClientCommand::DeleteEvidence(8)),
        ("EE", vec!["7", "n", "d", "i"], ClientCommand::EditEvidence(7, EvidenceArgs {
            name: "n".into(),
            description: "d".into(),
            image: "i".into(),
        })),
        ("ZZ", vec!["r"], ClientCommand::CallModButton("r".into())),
    ];
    for (code, args, expected) in cases {
        let actual = ClientCommand::from_protocol(code, strings(&args)).unwrap();
        assert_eq!(actual, expected);
        assert_eq!(actual.ident(), code);
        assert_eq!(actual.extract_args(), strings(&args));
    }
    let mut set_case = vec!["all"];
    set_case.extend_from_slice(&flags);
    assert_eq!(
        ClientCommand::from_protocol("SETCASE", strings(&set_case)).unwrap(),
        ClientCommand::SetCasePreferences("all".into(), CasePreferences {
            cm: true,
            def: false,
            pro: false,
            judge: true,
            jury: false,
            steno: true,
        })
    );
    assert_eq!(
        ClientCommand::from_protocol("CASEA", strings(&set_case)).unwrap(),
        ClientCommand::CaseAnnounce("all".into(), prefs)
    );
}

#[test]
fn from_protocol_errors_in_order() {
    // the unknown code comes before anything about the arguments
    assert!(matches!(
        ClientCommand::from_protocol("??", strings(&["x", "y"])),
        Err(Error::UnknownCode(code)) if code == "??"
    ));
    // the first field that cannot be read decides
    assert!(matches!(
        ClientCommand::from_protocol("ID", strings(&["x"])),
        Err(Error::Parse(ParseError::InvalidDigit))
    ));
    assert!(matches!(
        ClientCommand::from_protocol("ID", strings(&["1"])),
        Err(Error::NotEnoughArgs)
    ));
    assert!(matches!(
        ClientCommand::from_protocol("CC", strings(&["1", "", "h", "extra"])),
        Err(Error::Parse(ParseError::Empty))
    ));
    // arguments that are left over come last
    assert!(matches!(
        ClientCommand::from_protocol("CC", strings(&["1", "2", "h", "extra"])),
        Err(Error::TooManyArgs)
    ));
    assert!(matches!(
        ClientCommand::from_protocol("askchaa", strings(&[""])),
        Err(Error::TooManyArgs)
    ));
    assert!(matches!(
        ClientCommand::from_protocol("EE", strings(&["7", "n", "d"])),
        Err(Error::NotEnoughArgs)
    ));
    assert!(matches!(
        ClientCommand::from_protocol("CH", strings(&[])),
        Err(Error::NotEnoughArgs)
    ));
    assert!(matches!(
        ClientCommand::from_protocol("CH", strings(&["no"])),
        Err(Error::Parse(ParseError::InvalidDigit))
    ));
}

#[test]
fn kinds_codes_and_handlers() {
    assert_eq!(ClientKind::Handshake.code(), "HI");
    assert_eq!(ClientKind::Handshake.handle(), "handle_handshake");
    assert_eq!(ClientKind::KeepAlive.handle(), "handle_keepalive");
    assert_eq!(ClientKind::EditEvidence.handle(), "handle_edit_evidence");
    assert_eq!(ClientKind::from_code("AM"), Some(ClientKind::MusicList));
    assert_eq!(ClientKind::AO2MusicList.code(), "AM");
    assert_eq!(ClientKind::from_code("am"), None);
    assert_eq!(ClientKind::from_code(""), None);
    assert_eq!(
        ClientKind::EditEvidence.field_types(),
        vec![FieldType::U32, FieldType::Text, FieldType::Text, FieldType::Text]
    );
    assert_eq!(ClientKind::SetCasePreferences.field_types().len(), 7);
    assert_eq!(ClientKind::AskListLengths.field_types(), vec![]);
    assert_eq!(ClientCommand::ICMessage.kind(), ClientKind::ICMessage);
    assert_eq!(ServerKind::from_code("decryptor"), Some(ServerKind::Decryptor));
    assert_eq!(ServerKind::PlayerCount.field_types(), vec![FieldType::U8, FieldType::U8]);
    assert_eq!(MasterServerKind::from_code("NOSERV"), Some(MasterServerKind::NOSERV));
    assert_eq!(MasterServerKind::from_code("PING"), None);
}

#[test]
fn server_commands_read_and_write() {
    let cases: Vec<(ServerCommand, &str)> = vec![
        (ServerCommand::Handshake("x".into()), "HI#x#%"),
        (ServerCommand::KeepAlive, "CHECK#%"),
        (ServerCommand::Decryptor(34), "decryptor#34#%"),
        (ServerCommand::BanReason("no".into()), "BD#no#%"),
        (ServerCommand::ServerVersion(3, "s".into(), "v".into()), "ID#3#s#v#%"),
        (ServerCommand::PlayerCount(1, 100), "PN#1#100#%"),
    ];
    for (command, text) in cases {
        assert_eq!(command.to_message(), text);
        let again = ServerCommand::from_protocol(command.ident(), command.extract_args()).unwrap();
        assert_eq!(again.to_message(), text);
        assert_eq!(again.kind(), command.kind());
    }
    assert!(matches!(
        ServerCommand::from_protocol("PN", strings(&["1", "256"])),
        Err(Error::Parse(ParseError::PosOverflow))
    ));
    assert!(matches!(
        ServerCommand::from_protocol("ID", strings(&["-1", "s", "v"])),
        Err(Error::Parse(ParseError::InvalidDigit))
    ));
}

#[test]
fn master_server_commands_read_and_write() {
    assert!(matches!(
        MasterServerCommand::from_protocol("CHECK", strings(&[])),
        Ok(MasterServerCommand::Check)
    ));
    assert!(matches!(
        MasterServerCommand::from_protocol("PONG", strings(&[])),
        Ok(MasterServerCommand::Pong)
    ));
    assert!(matches!(
        MasterServerCommand::from_protocol("NOSERV", strings(&[])),
        Ok(MasterServerCommand::NOSERV)
    ));
    assert!(matches!(
        MasterServerCommand::from_protocol("NOSERV", strings(&["x"])),
        Err(Error::TooManyArgs)
    ));
    assert!(matches!(
        MasterServerCommand::from_protocol("PING", strings(&[])),
        Err(Error::UnknownCode(_))
    ));
    assert_eq!(MasterServerCommand::Pong.to_message(), "PONG#%");
}

#[test]
fn records_read_from_the_first_arguments() {
    assert_eq!(EvidenceArgs::arity(), 3);
    assert_eq!(CasePreferences::arity(), 6);
    let args = strings(&["n", "d", "i", "more"]);
    let record = EvidenceArgs::from_str_iter(&args).unwrap();
    assert_eq!(record.into_iter(), strings(&["n", "d", "i"]));
    assert!(matches!(EvidenceArgs::from_str_iter(&args[2..]), Err(Error::NotEnoughArgs)));
    let flags = strings(&["true", "true", "false", "false", "true", "false"]);
    let prefs = CasePreferences::from_str_iter(&flags).unwrap();
    assert_eq!(
        prefs,
        CasePreferences { cm: true, def: true, pro: false, judge: false, jury: true, steno: false }
    );
    assert_eq!(prefs.into_iter(), flags);
    let bad = strings(&["true", "true", "no", "false", "true", "false"]);
    assert!(matches!(
        CasePreferences::from_str_iter(&bad),
        Err(Error::Parse(ParseError::NotBool))
    ));
}

#[test]
fn flattened_fields_are_the_record_read_from_its_slice() {
    let args = strings(&["7", "name", "desc", "img"]);
    let whole = ClientCommand::from_protocol("EE", args.clone()).unwrap();
    let record = EvidenceArgs::from_str_iter(&args[1..4]).unwrap();
    match whole {
        ClientCommand::EditEvidence(id, inner) => {
            assert_eq!(id, 7);
            assert_eq!(inner, record);
        }
        other => panic!("unexpected: {:?}", other),
    }
    let args = strings(&["title", "true", "false", "true", "false", "true", "false"]);
    let whole = ClientCommand::from_protocol("CASEA", args.clone()).unwrap();
    let record = CasePreferences::from_str_iter(&args[1..7]).unwrap();
    assert_eq!(whole, ClientCommand::CaseAnnounce("title".into(), record));
}

#[test]
fn values_read_and_write() {
    assert!(matches!(read_value(FieldType::Text, "a b"), Ok(Value::Text(s)) if s == "a b"));
    assert!(matches!(read_value(FieldType::U32, "12"), Ok(Value::U32(12))));
    assert!(matches!(read_value(FieldType::I32, "-12"), Ok(Value::I32(-12))));
    assert!(matches!(read_value(FieldType::U8, "12"), Ok(Value::U8(12))));
    assert!(matches!(read_value(FieldType::Bool, "true"), Ok(Value::Bool(true))));
    assert!(matches!(read_value(FieldType::U8, "300"), Err(ParseError::PosOverflow)));
    assert_eq!(render_value(&Value::Text("t".into())), "t");
    assert_eq!(render_value(&Value::U32(5)), "5");
    assert_eq!(render_value(&Value::I32(-5)), "-5");
    assert_eq!(render_value(&Value::U8(5)), "5");
    assert_eq!(render_value(&Value::Bool(false)), "false");
    let values = vec![Value::U8(1), Value::Text("x".into()), Value::Bool(true)];
    assert_eq!(render_values(&values), strings(&["1", "x", "true"]));
    let types = [FieldType::U8, FieldType::Text, FieldType::Bool];
    let read = read_values(&types, &strings(&["1", "x", "true", "rest"])).unwrap();
    assert_eq!(render_values(&read), strings(&["1", "x", "true"]));
    assert!(matches!(
        read_message(&types, &strings(&["1", "x", "true", "rest"])),
        Err(Error::TooManyArgs)
    ));
    assert!(matches!(read_message(&types, &strings(&["1", "x"])), Err(Error::NotEnoughArgs)));
    assert_eq!(read_message(&[], &[]).unwrap().len(), 0);
}

#[test]
fn message_text_of_commands() {
    assert_eq!(ClientCommand::Handshake("hdid".into()).to_message(), "HI#hdid#%");
    assert_eq!(ClientCommand::AskListLengths.to_message(), "askchaa#%");
    assert_eq!(ClientCommand::KeepAlive(-1).to_message(), "CH#-1#%");
    assert_eq!(
        ClientCommand::CaseAnnounce(
            "t".into(),
            CasePreferences {
                cm: true,
                def: false,
                pro: true,
                judge: false,
                jury: true,
                steno: false,
            }
        )
        .to_message(),
        "CASEA#t#true#false#true#false#true#false#%"
    );
}

#[test]
fn scalars_read_and_write_as_their_fields_do() {
    assert_eq!(<String as Scalar>::read("a b"), Ok("a b".to_string()));
    assert_eq!(<u32 as Scalar>::read("42"), Ok(42));
    assert_eq!(<u32 as Scalar>::read("-1"), Err(ParseError::InvalidDigit));
    assert_eq!(<i32 as Scalar>::read("-1"), Ok(-1));
    assert_eq!(<u8 as Scalar>::read("256"), Err(ParseError::PosOverflow));
    assert_eq!(<bool as Scalar>::read("false"), Ok(false));
    assert_eq!(<bool as Scalar>::read("0"), Err(ParseError::NotBool));
    assert_eq!("t".to_string().render(), "t");
    assert_eq!(7u32.render(), "7");
    assert_eq!((-7i32).render(), "-7");
    assert_eq!(255u8.render(), "255");
    assert_eq!(true.render(), "true");
}
