use rusttorney::client_command::ClientKind;
use rusttorney::schema::{
    check_outcome, command_derive, duplicate_code, find_marked, with_str_iter_derive,
    CommandMarker, CommandPlan, DeriveError, Field, Fields, HandlerOpt, ItemEnum, ItemStruct, Lit,
    LitStr, Member, Meta, NestedMeta, OptError, ParseAssign, ValueKind, Variant, VariantOpts,
    VariantPlan,
};
use rusttorney::server_command::ServerKind;

fn assign(key: &str, value: &str) -> NestedMeta {
    NestedMeta::NameValue(key.to_string(), Lit::Str(LitStr::new(value.to_string())))
}

/// An assignment whose value was read with the given outcomes.
fn assign_read(
    key: &str,
    value: &str,
    ident: Result<(), String>,
    path: Result<(), String>,
) -> NestedMeta {
    let lit = LitStr { value: value.to_string(), ident, path };
    NestedMeta::NameValue(key.to_string(), Lit::Str(lit))
}

fn command(items: Vec<NestedMeta>) -> Meta {
    Meta::List("command".to_string(), items)
}

fn word(name: &str) -> Meta {
    command(vec![NestedMeta::Path(name.to_string())])
}

fn plain() -> Field {
    Field { ident: None, attrs: vec![] }
}

fn flattened() -> Field {
    Field { ident: None, attrs: vec![Meta::Other, word("flatten")] }
}

fn named(name: &str, attrs: Vec<Meta>) -> Field {
    Field { ident: Some(name.to_string()), attrs }
}

fn variant(name: &str, attrs: Vec<Meta>, fields: Fields) -> Variant {
    Variant { ident: name.to_string(), attrs, fields }
}

fn client_request() -> ItemEnum {
    ItemEnum {
        ident: "ClientRequest".to_string(),
        attrs: vec![Meta::List("derive".to_string(), vec![NestedMeta::Path("Debug".to_string())])],
        variants: vec![
            variant(
                "Handshake",
                vec![command(vec![assign("code", "HI"), assign("handle", "handle_handshake")])],
                Fields::Unnamed(vec![plain()]),
            ),
            variant(
                "ClientVersion",
                vec![
                    command(vec![assign("code", "ID")]),
                    command(vec![assign("handle", "handle_client_version")]),
                ],
                Fields::Unnamed(vec![plain(), plain(), plain()]),
            ),
            variant(
                "KeepAlive",
                vec![
                    command(vec![assign("handle", "handle_keepalive")]),
                    command(vec![assign("code", "CH")]),
                ],
                Fields::Unnamed(vec![plain()]),
            ),
            variant(
                "Flattened",
                vec![command(vec![assign("code", "_NO"), assign("handle", "handle_flattened")])],
                Fields::Unnamed(vec![flattened()]),
            ),
        ],
    }
}

#[test]
fn accept_enum() {
    let plan = command_derive(&client_request()).unwrap();
    assert_eq!(plan.handler, None);
    assert_eq!(plan.variants.len(), 4);
    let codes: Vec<&str> = plan.variants.iter().map(|v| v.code.as_str()).collect();
    assert_eq!(codes, vec!["HI", "ID", "CH", "_NO"]);
    let handles: Vec<Option<&str>> = plan.variants.iter().map(|v| v.handle.as_deref()).collect();
    assert_eq!(
        handles,
        vec![
            Some("handle_handshake"),
            Some("handle_client_version"),
            Some("handle_keepalive"),
            Some("handle_flattened")
        ]
    );
    assert_eq!(plan.variants[0].flatten, vec![false]);
    assert_eq!(plan.variants[1].flatten, vec![false, false, false]);
    assert_eq!(plan.variants[3].flatten, vec![true]);
}

#[test]
fn accept_enum_with_handler() {
    let mut item = client_request();
    item.attrs.push(command(vec![assign("handler", "crate::server::AO2MessageHandler")]));
    let plan = command_derive(&item).unwrap();
    assert_eq!(plan.handler.as_deref(), Some("crate::server::AO2MessageHandler"));
    assert_eq!(plan.variants.len(), 4);
}

#[test]
fn accept_no_handler() {
    let item = ItemEnum {
        ident: "ClientCommand".to_string(),
        attrs: vec![],
        variants: vec![
            variant(
                "Handshake",
                vec![command(vec![assign("code", "HI")])],
                Fields::Unnamed(vec![plain()]),
            ),
            variant(
                "EditEvidence",
                vec![command(vec![assign("code", "EE")])],
                Fields::Unnamed(vec![plain(), flattened()]),
            ),
            variant("Pong", vec![command(vec![assign("code", "PONG")])], Fields::Unit),
            variant(
                "EditChar",
                vec![command(vec![assign("code", "EDIT")])],
                Fields::Named(vec![
                    named("char_id", vec![]),
                    named("character", vec![word("flatten")]),
                ]),
            ),
        ],
    };
    let plan = command_derive(&item).unwrap();
    assert_eq!(plan.handler, None);
    assert!(plan.variants.iter().all(|v| v.handle.is_none()));
    assert_eq!(plan.variants[1].flatten, vec![false, true]);
    assert_eq!(plan.variants[2].flatten, Vec::<bool>::new());
    assert_eq!(plan.variants[3].flatten, vec![false, true]);
}

#[test]
fn reject_no_code() {
    let item = ItemEnum {
        ident: "ClientRequest".to_string(),
        attrs: vec![],
        variants: vec![
            variant(
                "Handshake",
                vec![command(vec![assign("code", "HI"), assign("handle", "handle_handshake")])],
                Fields::Named(vec![named("hdid", vec![])]),
            ),
            variant("Ping", vec![], Fields::Unit),
        ],
    };
    let error = command_derive(&item).unwrap_err();
    assert!(matches!(error, DeriveError::NoCode { variant: 1 }));
    assert_eq!(error.message(&item), "No code parameter on ClientRequest::Ping");
}

#[test]
fn reject_no_handle_under_a_handler() {
    let item = ItemEnum {
        ident: "E".to_string(),
        attrs: vec![command(vec![assign("handler", "Handler<'a>")])],
        variants: vec![
            variant(
                "A",
                vec![command(vec![assign("code", "A"), assign("handle", "a")])],
                Fields::Unit,
            ),
            variant("B", vec![command(vec![assign("code", "B")])], Fields::Unit),
            variant("C", vec![], Fields::Unit),
        ],
    };
    let error = command_derive(&item).unwrap_err();
    assert!(matches!(error, DeriveError::NoHandle { variant: 1 }));
    assert_eq!(error.message(&item), "No handle parameter on E::B");
}

#[test]
fn reject_double_key() {
    let item = ItemEnum {
        ident: "ClientRequest".to_string(),
        attrs: vec![],
        variants: vec![variant(
            "Handshake",
            vec![
                command(vec![assign("code", "HI"), assign("handle", "handle_handshake")]),
                command(vec![assign("code", "HI")]),
            ],
            Fields::Named(vec![named("hdid", vec![])]),
        )],
    };
    let error = command_derive(&item).unwrap_err();
    assert!(matches!(
        error,
        DeriveError::Variant { variant: 0, attr: 1, error: OptError::Repeated { nested: 0 } }
    ));
    assert_eq!(error.message(&item), "Keys can't be repeated");
    let twice = ItemEnum {
        ident: "E".to_string(),
        attrs: vec![],
        variants: vec![variant(
            "A",
            vec![command(vec![assign("handle", "a"), assign("code", "A"), assign("handle", "b")])],
            Fields::Unit,
        )],
    };
    assert!(matches!(
        command_derive(&twice),
        Err(DeriveError::Variant { variant: 0, attr: 0, error: OptError::Repeated { nested: 2 } })
    ));
}

#[test]
fn reject_double_handler() {
    let item = ItemEnum {
        ident: "E".to_string(),
        attrs: vec![
            command(vec![assign("handler", "A")]),
            Meta::Other,
            command(vec![NestedMeta::Other, assign("handler", "B")]),
        ],
        variants: vec![],
    };
    let error = command_derive(&item).unwrap_err();
    assert!(matches!(
        error,
        DeriveError::Handler { attr: 2, error: OptError::Repeated { nested: 1 } }
    ));
    assert_eq!(error.message(&item), "`handler` specified multiply times");
}

#[test]
fn reject_wrong_code_lit() {
    let item = ItemEnum {
        ident: "E".to_string(),
        attrs: vec![],
        variants: vec![variant(
            "A",
            vec![command(vec![NestedMeta::NameValue("code".to_string(), Lit::Other)])],
            Fields::Unit,
        )],
    };
    let error = command_derive(&item).unwrap_err();
    assert!(matches!(
        error,
        DeriveError::Variant {
            variant: 0,
            attr: 0,
            error: OptError::ExpectedStringLiteral { nested: 0 }
        }
    ));
    assert_eq!(error.message(&item), "Expected string literal in `key = value` assignment");
}

#[test]
fn reject_handle_that_is_no_identifier() {
    for bad in ["", "two words", "1abc", "fn", "a::b", "a-b"] {
        let item = ItemEnum {
            ident: "E".to_string(),
            attrs: vec![],
            variants: vec![variant(
                "A",
                vec![command(vec![assign("code", "A"), assign("handle", bad)])],
                Fields::Unit,
            )],
        };
        match command_derive(&item) {
            Err(DeriveError::Variant {
                variant: 0,
                attr: 0,
                error: OptError::Invalid { message, nested: 1 },
            }) => assert!(!message.is_empty(), "{:?}", bad),
            other => panic!("{:?}: {:?}", bad, other),
        }
    }
    for good in ["handle_handshake", "_x", "r#fn", "h1"] {
        let opts = VariantOpts::default()
            .parse_from_meta(&command(vec![assign("handle", good)]))
            .unwrap();
        assert_eq!(opts.handle.as_deref(), Some(good));
    }
}

#[test]
fn reject_handler_that_is_no_path() {
    for bad in ["", "a b", "::", "1"] {
        let result = HandlerOpt::default().parse_from_meta(&command(vec![assign("handler", bad)]));
        assert!(matches!(result, Err(OptError::Invalid { nested: 0, .. })), "{:?}", bad);
    }
    for good in ["Handler", "crate::server::AO2MessageHandler", "AO2MessageHandler<'a>", "::a::B"] {
        let opt = HandlerOpt::default()
            .parse_from_meta(&command(vec![assign("handler", good)]))
            .unwrap();
        assert_eq!(opt.handler.as_deref(), Some(good));
    }
}

#[test]
fn reject_skip() {
    let item = ItemEnum {
        ident: "E".to_string(),
        attrs: vec![],
        variants: vec![
            variant("A", vec![command(vec![assign("code", "A")])], Fields::Unit),
            variant(
                "B",
                vec![
                    command(vec![assign("code", "B"), assign("code", "B")]),
                    Meta::Other,
                    word("skip"),
                ],
                Fields::Unit,
            ),
        ],
    };
    let error = command_derive(&item).unwrap_err();
    assert!(matches!(error, DeriveError::SkipDeprecated { variant: 1, attr: 2 }));
    assert_eq!(error.message(&item), "#[command(skip)] was hard-deprecated, sorry");
}

#[test]
fn first_error_in_the_declaration_wins() {
    let item = ItemEnum {
        ident: "E".to_string(),
        attrs: vec![command(vec![NestedMeta::NameValue("handler".to_string(), Lit::Other)])],
        variants: vec![variant("A", vec![], Fields::Unit)],
    };
    assert!(matches!(
        command_derive(&item),
        Err(DeriveError::Handler { attr: 0, error: OptError::ExpectedStringLiteral { nested: 0 } })
    ));
    let item = ItemEnum {
        ident: "E".to_string(),
        attrs: vec![],
        variants: vec![
            variant("A", vec![], Fields::Unit),
            variant("B", vec![word("skip")], Fields::Unit),
        ],
    };
    assert!(matches!(command_derive(&item), Err(DeriveError::NoCode { variant: 0 })));
}

#[test]
fn other_attributes_are_passed_over() {
    let opts = VariantOpts::default();
    let opts = opts.parse_from_meta(&Meta::Other).unwrap();
    let opts = opts
        .parse_from_meta(&Meta::List("serde".to_string(), vec![assign("code", "X")]))
        .unwrap();
    assert!(opts.code.is_none() && opts.handle.is_none());
    let opts = opts
        .parse_from_meta(&command(vec![
            NestedMeta::Path("flatten".to_string()),
            NestedMeta::Other,
            assign("other", "x"),
            assign("code", "HI"),
        ]))
        .unwrap();
    assert_eq!(opts.code.as_deref(), Some("HI"));
    assert!(opts.handle.is_none());
}

#[test]
fn markers() {
    assert!(CommandMarker("flatten").validate(&word("flatten")).is_ok());
    assert!(CommandMarker("flatten").validate(&word("skip")).is_err());
    assert!(CommandMarker("skip").validate(&Meta::Other).is_err());
    assert!(CommandMarker("skip").validate(&command(vec![])).is_err());
    assert!(CommandMarker("skip")
        .validate(&command(vec![NestedMeta::Path("skip".into()), NestedMeta::Path("skip".into())]))
        .is_err());
    assert!(CommandMarker("skip")
        .validate(&Meta::List("other".to_string(), vec![NestedMeta::Path("skip".into())]))
        .is_err());
    assert!(CommandMarker("skip").validate(&command(vec![assign("skip", "x")])).is_err());
    let attrs = vec![Meta::Other, word("a"), word("b"), word("a")];
    assert_eq!(find_marked("a", &attrs), Some(1));
    assert_eq!(find_marked("b", &attrs), Some(2));
    assert_eq!(find_marked("c", &attrs), None);
}

#[test]
fn assignments() {
    let code = assign("code", "HI");
    assert!(matches!(ParseAssign("code").parse_str(&code), Ok(Some(lit)) if lit.value == "HI"));
    assert!(matches!(ParseAssign("handle").parse_str(&code), Ok(None)));
    assert!(matches!(
        ParseAssign("code").parse_str(&NestedMeta::Path("code".into())),
        Ok(None)
    ));
    assert!(matches!(ParseAssign("code").parse_str(&NestedMeta::Other), Ok(None)));
    assert!(matches!(
        ParseAssign("code").parse_str(&NestedMeta::NameValue("code".into(), Lit::Other)),
        Err(())
    ));
    assert!(matches!(
        ParseAssign("code").parse_arg(ValueKind::Text, &assign("code", "not an ident"), 3),
        Ok(Some(text)) if text == "not an ident"
    ));
    assert!(matches!(
        ParseAssign("code").parse_arg(ValueKind::Ident, &assign("code", "not an ident"), 3),
        Err(OptError::Invalid { nested: 3, .. })
    ));
    assert!(matches!(
        ParseAssign("code").parse_arg(ValueKind::Path, &assign("code", "a::b"), 3),
        Ok(Some(text)) if text == "a::b"
    ));
}

#[test]
fn accept_fromstriter_both_named_and_unnamed() {
    let unnamed = ItemStruct {
        ident: "Unnamed".to_string(),
        fields: Fields::Unnamed(vec![plain(), plain()]),
    };
    let members = with_str_iter_derive(&unnamed);
    assert!(matches!(&members[..], [Member::Unnamed(0), Member::Unnamed(1)]));
    let named_struct = ItemStruct {
        ident: "Named".to_string(),
        fields: Fields::Named(vec![named("x", vec![]), named("y", vec![]), named("named", vec![])]),
    };
    let members = with_str_iter_derive(&named_struct);
    let names: Vec<String> = members
        .iter()
        .map(|m| match m {
            Member::Named(name) => name.clone(),
            Member::Unnamed(i) => panic!("unexpected position {}", i),
        })
        .collect();
    assert_eq!(names, vec!["x", "y", "named"]);
    let unit = ItemStruct { ident: "Unit".to_string(), fields: Fields::Unit };
    assert!(with_str_iter_derive(&unit).is_empty());
}

/// A variant as it is declared: its name, its code, its handler method, and
/// for each field how many arguments it takes if it is flattened.
fn declared(name: &str, code: &str, handle: Option<&str>, fields: &[Option<usize>]) -> Variant {
    let mut items = vec![assign("code", code)];
    if let Some(handle) = handle {
        items.push(assign("handle", handle));
    }
    let fields = if fields.is_empty() {
        Fields::Unit
    } else {
        Fields::Unnamed(
            fields.iter().map(|f| if f.is_some() { flattened() } else { plain() }).collect(),
        )
    };
    variant(name, vec![command(items)], fields)
}

#[test]
fn client_commands_are_what_their_declaration_says() {
    let evidence = Some(3);
    let case = Some(6);
    let table: Vec<(&str, &str, &str, Vec<Option<usize>>)> = vec![
        ("Handshake", "HI", "handle_handshake", vec![None]),
        ("ClientVersion", "ID", "handle_client_version", vec![None, None, None]),
        ("KeepAlive", "CH", "handle_keepalive", vec![None]),
        ("AskListLengths", "askchaa", "handle_ask_list_lengths", vec![]),
        ("AskListCharacters", "askchar2", "handle_ask_list_characters", vec![]),
        ("CharacterList", "AN", "handle_character_list", vec![None]),
        ("EvidenceList", "AE", "handle_evidence_list", vec![None]),
        ("MusicList", "AM", "handle_music_list", vec![None]),
        ("AO2CharacterList", "AC", "handle_ao2_character_list", vec![]),
        ("AO2MusicList", "AM", "handle_ao2_music_list", vec![]),
        ("AO2Ready", "RD", "handle_ao2_ready", vec![]),
        ("SelectCharacter", "CC", "handle_select_character", vec![None, None, None]),
        ("ICMessage", "MS", "handle_ic_message", vec![]),
        ("OOCMessage", "CT", "handle_ooc_message", vec![None, None]),
        ("PlaySong", "MC", "handle_play_song", vec![None, None]),
        ("WTCEButtons", "RT", "handle_wtce_buttons", vec![None]),
        ("SetCasePreferences", "SETCASE", "handle_set_case_preferences", vec![None, case]),
        ("CaseAnnounce", "CASEA", "handle_case_announce", vec![None, case]),
        ("Penalties", "HP", "handle_penalties", vec![None, None]),
        ("AddEvidence", "PE", "handle_add_evidence", vec![evidence]),
        ("DeleteEvidence", "DE", "handle_delete_evidence", vec![None]),
        ("EditEvidence", "EE", "handle_edit_evidence", vec![None, evidence]),
        ("CallModButton", "ZZ", "handle_call_mod_button", vec![None]),
    ];
    let declare = |skip: Option<usize>| ItemEnum {
        ident: "ClientCommand".to_string(),
        attrs: vec![command(vec![assign("handler", "crate::server::AO2MessageHandler")])],
        variants: table
            .iter()
            .enumerate()
            .filter(|(i, _)| Some(*i) != skip)
            .map(|(_, (name, code, handle, fields))| declared(name, code, Some(handle), fields))
            .collect(),
    };
    // two variants have the code `AM`: the declaration as a whole is refused
    let item = declare(None);
    let error = command_derive(&item).unwrap_err();
    assert!(matches!(error, DeriveError::DuplicateCode { first: 7, second: 9 }));
    assert_eq!(
        error.message(&item),
        "Codes can't be repeated: ClientCommand::MusicList and ClientCommand::AO2MusicList"
    );
    assert_eq!(ClientKind::from_code("AM"), Some(ClientKind::MusicList));
    // without the second of them it says what the kinds say
    let plan = command_derive(&declare(Some(9))).unwrap();
    let kinds: Vec<ClientKind> =
        ClientKind::all().into_iter().filter(|k| *k != ClientKind::AO2MusicList).collect();
    let rows: Vec<_> = table.iter().filter(|row| row.0 != "AO2MusicList").collect();
    assert_eq!(plan.variants.len(), kinds.len());
    for ((planned, kind), (name, _, _, fields)) in plan.variants.iter().zip(&kinds).zip(rows) {
        assert_eq!(format!("{:?}", kind), *name);
        assert_eq!(planned.code, kind.code());
        assert_eq!(planned.handle.as_deref(), Some(kind.handle()));
        let flags: Vec<bool> = fields.iter().map(|f| f.is_some()).collect();
        assert_eq!(planned.flatten, flags);
        let arity: usize = fields.iter().map(|f| f.unwrap_or(1)).sum();
        assert_eq!(kind.field_types().len(), arity);
        assert_eq!(ClientKind::from_code(kind.code()), Some(*kind));
    }
    assert_eq!(duplicate_code(&plan), None);
}

#[test]
fn server_commands_are_what_their_declaration_says() {
    let table: Vec<(&str, &str, Vec<Option<usize>>)> = vec![
        ("Handshake", "HI", vec![None]),
        ("KeepAlive", "CHECK", vec![]),
        ("Decryptor", "decryptor", vec![None]),
        ("BanReason", "BD", vec![None]),
        ("ServerVersion", "ID", vec![None, None, None]),
        ("PlayerCount", "PN", vec![None, None]),
    ];
    let item = ItemEnum {
        ident: "ServerCommand".to_string(),
        attrs: vec![],
        variants: table
            .iter()
            .map(|(name, code, fields)| declared(name, code, None, fields))
            .collect(),
    };
    let plan = command_derive(&item).unwrap();
    assert_eq!(plan.handler, None);
    let kinds = ServerKind::all();
    assert_eq!(plan.variants.len(), kinds.len());
    for ((planned, kind), (name, _, fields)) in plan.variants.iter().zip(&kinds).zip(&table) {
        assert_eq!(format!("{:?}", kind), *name);
        assert_eq!(planned.code, kind.code());
        assert_eq!(planned.handle, None);
        assert_eq!(kind.field_types().len(), fields.len());
        assert_eq!(ServerKind::from_code(kind.code()), Some(*kind));
    }
    assert_eq!(duplicate_code(&plan), None);
}

#[test]
fn duplicate_codes_are_found() {
    let planned = |codes: &[&str]| CommandPlan {
        handler: None,
        variants: codes
            .iter()
            .map(|code| VariantPlan { code: code.to_string(), handle: None, flatten: vec![] })
            .collect(),
    };
    assert_eq!(duplicate_code(&planned(&[])), None);
    assert_eq!(duplicate_code(&planned(&["A"])), None);
    assert_eq!(duplicate_code(&planned(&["A", "B", "a"])), None);
    assert_eq!(duplicate_code(&planned(&["A", "A"])), Some((0, 1)));
    assert_eq!(duplicate_code(&planned(&["A", "B", "C", "B", "A"])), Some((1, 3)));
    assert_eq!(duplicate_code(&planned(&["A", "B", "A", "A", "B"])), Some((0, 2)));
    let item = ItemEnum {
        ident: "E".to_string(),
        attrs: vec![],
        variants: vec![
            variant("A", vec![command(vec![assign("code", "X")])], Fields::Unit),
            variant("B", vec![command(vec![assign("code", "Y")])], Fields::Unit),
            variant("C", vec![command(vec![assign("code", "X")])], Fields::Unit),
            variant("D", vec![], Fields::Unit),
        ],
    };
    // a variant that is wrong by itself comes first
    assert!(matches!(command_derive(&item), Err(DeriveError::NoCode { variant: 3 })));
    let mut item = item;
    item.variants.pop();
    let error = command_derive(&item).unwrap_err();
    assert!(matches!(error, DeriveError::DuplicateCode { first: 0, second: 2 }));
    assert_eq!(error.message(&item), "Codes can't be repeated: E::A and E::C");
}

#[test]
fn what_the_reading_of_a_value_gave_decides() {
    let fine = || Ok(());
    let bad = |message: &str| Err(message.to_string());
    // a handle that was not read as an identifier is invalid, whatever it holds
    let opts = VariantOpts::default()
        .parse_from_meta(&command(vec![assign_read("handle", "h", bad("no ident"), fine())]));
    assert!(matches!(
        opts,
        Err(OptError::Invalid { message, nested: 0 }) if message == "no ident"
    ));
    // one that was read as an identifier is taken, whatever it holds
    let opts = VariantOpts::default()
        .parse_from_meta(&command(vec![assign_read("handle", "not one", fine(), bad("x"))]))
        .unwrap();
    assert_eq!(opts.handle.as_deref(), Some("not one"));
    // a code is any text: what the reading gave does not matter
    let opts = VariantOpts::default()
        .parse_from_meta(&command(vec![assign_read("code", "HI", bad("x"), bad("y"))]))
        .unwrap();
    assert_eq!(opts.code.as_deref(), Some("HI"));
    // a handler goes by the reading as a path
    let handler = HandlerOpt::default()
        .parse_from_meta(&command(vec![assign_read("handler", "H", bad("x"), fine())]))
        .unwrap();
    assert_eq!(handler.handler.as_deref(), Some("H"));
    let handler = HandlerOpt::default().parse_from_meta(&command(vec![
        NestedMeta::Other,
        assign_read("handler", "H", fine(), bad("no path")),
    ]));
    assert!(matches!(
        handler,
        Err(OptError::Invalid { message, nested: 1 }) if message == "no path"
    ));
    assert!(check_outcome(&Ok(()), 4).is_ok());
    assert!(matches!(
        check_outcome(&Err("why".to_string()), 4),
        Err(OptError::Invalid { message, nested: 4 }) if message == "why"
    ));
    assert!(matches!(
        ParseAssign("k").parse_arg(
            ValueKind::Path,
            &assign_read("k", "v", fine(), bad("p")),
            2
        ),
        Err(OptError::Invalid { message, nested: 2 }) if message == "p"
    ));
}

#[test]
fn literals_are_read_as_identifier_and_as_path() {
    let lit = LitStr::new("handle_handshake".to_string());
    assert_eq!(lit.value, "handle_handshake");
    assert!(lit.ident.is_ok() && lit.path.is_ok());
    let lit = LitStr::new("crate::server::Handler".to_string());
    assert!(lit.ident.is_err() && lit.path.is_ok());
    let lit = LitStr::new("two words".to_string());
    assert!(lit.ident.is_err() && lit.path.is_err());
    assert!(!lit.ident.unwrap_err().is_empty());
}
