use iso20022_validate::{
    decode, encode, Document, Facet, Field, Member, Presence, Scalar, Shape, Slot,
    SystemEventAcknowledgementV01, Token, CARDINALITY, PATTERN_MISMATCH, SESSION_ID_PATTERN,
    TOO_SHORT, UNKNOWN_TAG, ABOVE_MAXIMUM, NOT_IN_ENUMERATION,
};

fn s(x: &str) -> String {
    x.to_string()
}

fn text_field(v: &str) -> Field {
    Field::Scalar { value: Scalar::Text(s(v)), facets: vec![Facet::LengthBounds { min: 1, max: 35 }] }
}

fn member(tag: &str, field: Field) -> Member {
    Member { name: tag.to_lowercase(), tag: s(tag), field }
}

fn slot(tag: &str, presence: Presence, shape: Shape) -> Slot {
    Slot { name: tag.to_lowercase(), tag: s(tag), presence, shape }
}

fn text_shape() -> Shape {
    Shape::Text(vec![Facet::LengthBounds { min: 1, max: 35 }])
}

fn header_shape() -> Slot {
    slot(
        "Hdr",
        Presence::Required,
        Shape::Composite(vec![
            slot("MsgId", Presence::Required, text_shape()),
            slot("Ref", Presence::Optional, text_shape()),
            slot("Ntry", Presence::Repeated { min: 0 }, Shape::Number(vec![])),
            slot(
                "Sts",
                Presence::Required,
                Shape::Choice(vec![
                    slot("Cd", Presence::Required, text_shape()),
                    slot("Flg", Presence::Required, Shape::Flag),
                ]),
            ),
        ]),
    )
}

fn header(reference: Option<&str>, entries: Vec<i64>) -> Field {
    Field::Composite(vec![
        member("MsgId", text_field("M1")),
        member("Ref", Field::Optional(reference.map(|r| Box::new(text_field(r))))),
        member(
            "Ntry",
            Field::Repeated {
                min: 0,
                items: entries
                    .into_iter()
                    .map(|n| Field::Scalar { value: Scalar::Number(n), facets: vec![] })
                    .collect(),
            },
        ),
        member("Sts", Field::Choice(Box::new(member("Flg", Field::Scalar { value: Scalar::Flag(true), facets: vec![] })))),
    ])
}

#[test]
fn encode_omits_absent_optional_and_keeps_order() {
    let tokens = encode(&s("Hdr"), &header(None, vec![3, 1, 2]));
    assert_eq!(
        tokens,
        vec![
            Token::Open(s("Hdr")),
            Token::Text(s("MsgId"), s("M1")),
            Token::Number(s("Ntry"), 3),
            Token::Number(s("Ntry"), 1),
            Token::Number(s("Ntry"), 2),
            Token::Open(s("Sts")),
            Token::Flag(s("Flg"), true),
            Token::Close,
            Token::Close,
        ]
    );
}

#[test]
fn encode_emits_present_optional_under_its_tag() {
    let tokens = encode(&s("Hdr"), &header(Some("R9"), vec![]));
    assert_eq!(tokens[2], Token::Text(s("Ref"), s("R9")));
    assert_eq!(tokens.len(), 7);
}

#[test]
fn decode_then_encode_reproduces_stream() {
    let tokens = encode(&s("Hdr"), &header(Some("R9"), vec![5, 4]));
    let decoded = decode(&header_shape(), &tokens).unwrap();
    assert_eq!(encode(&s("Hdr"), &decoded), tokens);
    assert!(decoded.validate().is_ok());
}

#[test]
fn encode_then_decode_preserves_values_and_order() {
    let before = header(None, vec![9, 8, 7]);
    let tokens = encode(&s("Hdr"), &before);
    let decoded = decode(&header_shape(), &tokens).unwrap();
    match &decoded {
        Field::Composite(ms) => {
            assert_eq!(ms.len(), 4);
            match &ms[1].field {
                Field::Optional(None) => {}
                other => panic!("unexpected {:?}", other),
            }
            match &ms[2].field {
                Field::Repeated { items, .. } => {
                    let ns: Vec<i64> = items
                        .iter()
                        .map(|f| match f {
                            Field::Scalar { value: Scalar::Number(n), .. } => *n,
                            _ => panic!("not a number"),
                        })
                        .collect();
                    assert_eq!(ns, vec![9, 8, 7]);
                }
                other => panic!("unexpected {:?}", other),
            }
            match &ms[3].field {
                Field::Choice(m) => assert_eq!(m.tag, "Flg"),
                other => panic!("unexpected {:?}", other),
            }
        }
        other => panic!("unexpected {:?}", other),
    }
    assert_eq!(encode(&s("Hdr"), &decoded), tokens);
}

#[test]
fn decode_rejects_unknown_tag() {
    let mut tokens = encode(&s("Hdr"), &header(None, vec![]));
    tokens.insert(2, Token::Text(s("Bogus"), s("x")));
    assert_eq!(decode(&header_shape(), &tokens).unwrap_err().code, UNKNOWN_TAG);
}

#[test]
fn decode_rejects_missing_required() {
    let mut tokens = encode(&s("Hdr"), &header(None, vec![]));
    tokens.remove(1);
    assert_eq!(decode(&header_shape(), &tokens).unwrap_err().code, CARDINALITY);
}

#[test]
fn decode_rejects_duplicate_singular_tag() {
    let mut tokens = encode(&s("Hdr"), &header(Some("R1"), vec![]));
    tokens.insert(3, Token::Text(s("Ref"), s("R2")));
    assert_eq!(decode(&header_shape(), &tokens).unwrap_err().code, CARDINALITY);
}

#[test]
fn decode_rejects_unknown_choice_alternative() {
    let tokens = vec![
        Token::Open(s("Hdr")),
        Token::Text(s("MsgId"), s("M1")),
        Token::Open(s("Sts")),
        Token::Text(s("Prtry"), s("X")),
        Token::Close,
        Token::Close,
    ];
    assert_eq!(decode(&header_shape(), &tokens).unwrap_err().code, UNKNOWN_TAG);
}

#[test]
fn decode_rejects_trailing_entries() {
    let mut tokens = encode(&s("Hdr"), &header(None, vec![]));
    tokens.push(Token::Text(s("Other"), s("x")));
    assert_eq!(decode(&header_shape(), &tokens).unwrap_err().code, UNKNOWN_TAG);
}

fn event_shape() -> Shape {
    Shape::Composite(vec![
        slot("EvtCd", Presence::Required, Shape::Text(vec![Facet::LengthBounds { min: 1, max: 4 }])),
        slot("EvtParam", Presence::Repeated { min: 0 }, text_shape()),
    ])
}

fn acknowledgement_shape() -> Slot {
    slot(
        "SysEvtAck",
        Presence::Required,
        Shape::Composite(vec![
            slot("MsgId", Presence::Required, text_shape()),
            slot("OrgtrRef", Presence::Optional, text_shape()),
            slot("SttlmSsnIdr", Presence::Optional, Shape::Text(vec![Facet::Pattern(s(SESSION_ID_PATTERN))])),
            slot("AckDtls", Presence::Optional, event_shape()),
            slot("SplmtryData", Presence::Optional, Shape::Composite(vec![])),
        ]),
    )
}

fn acknowledgement(session: &str) -> SystemEventAcknowledgementV01 {
    SystemEventAcknowledgementV01 {
        msg_id: s("MSG-1"),
        orgtr_ref: None,
        sttlm_ssn_idr: Some(s(session)),
        ack_dtls: Some(Field::Composite(vec![
            member("EvtCd", text_field("E1")),
            member("EvtParam", Field::Repeated { min: 0, items: vec![text_field("p2"), text_field("p1")] }),
        ])),
        splmtry_data: None,
    }
}

#[test]
fn document_as_record_validates_like_document() {
    for session in ["AB12", "AB1", "AB123"] {
        let doc = acknowledgement(session);
        let direct = doc.validate().map_err(|e| e.code);
        let record = doc.into_field();
        assert_eq!(record.validate().map_err(|e| e.code), direct);
    }
    let mut doc = acknowledgement("AB12");
    doc.msg_id = String::new();
    assert_eq!(doc.into_field().validate().unwrap_err().code, TOO_SHORT);
}

#[test]
fn document_round_trip_through_tokens() {
    let record = acknowledgement("AB12").into_field();
    let tokens = encode(&s("SysEvtAck"), &record);
    assert_eq!(tokens[0], Token::Open(s("SysEvtAck")));
    assert_eq!(tokens[1], Token::Text(s("MsgId"), s("MSG-1")));
    assert_eq!(tokens[2], Token::Text(s("SttlmSsnIdr"), s("AB12")));
    assert_eq!(tokens[5], Token::Text(s("EvtParam"), s("p2")));
    assert_eq!(tokens[6], Token::Text(s("EvtParam"), s("p1")));
    let decoded = decode(&acknowledgement_shape(), &tokens).unwrap();
    assert_eq!(encode(&s("SysEvtAck"), &decoded), tokens);
    assert!(decoded.validate().is_ok());
}

#[test]
fn decoded_document_is_validated_with_schema_facets() {
    let record = acknowledgement("AB1").into_field();
    let tokens = encode(&s("SysEvtAck"), &record);
    let decoded = decode(&acknowledgement_shape(), &tokens).unwrap();
    assert_eq!(decoded.validate().unwrap_err().code, PATTERN_MISMATCH);
}

#[test]
fn any_document_converts_through_registry_enum() {
    let doc = Document::SystemEventAcknowledgementV01(acknowledgement("AB12"));
    assert!(doc.validate().is_ok());
    assert!(doc.into_field().validate().is_ok());
}

#[test]
fn shape_well_formedness() {
    assert!(header_shape().is_well_formed());
    assert!(acknowledgement_shape().is_well_formed());
    let clash = slot(
        "Root",
        Presence::Required,
        Shape::Composite(vec![
            slot("A", Presence::Optional, text_shape()),
            slot("A", Presence::Required, text_shape()),
        ]),
    );
    assert!(!clash.is_well_formed());
    let deep = slot(
        "Root",
        Presence::Required,
        Shape::Composite(vec![slot(
            "Inner",
            Presence::Required,
            Shape::Choice(vec![
                slot("X", Presence::Required, Shape::Flag),
                slot("X", Presence::Required, text_shape()),
            ]),
        )]),
    );
    assert!(!deep.is_well_formed());
}

#[test]
fn decode_rejects_wrong_scalar_kind() {
    let tokens = vec![
        Token::Open(s("Hdr")),
        Token::Flag(s("MsgId"), true),
        Token::Open(s("Sts")),
        Token::Flag(s("Flg"), false),
        Token::Close,
        Token::Close,
    ];
    assert_eq!(decode(&header_shape(), &tokens).unwrap_err().code, CARDINALITY);
}

#[test]
fn decode_of_empty_stream() {
    let optional_root = slot("Opt", Presence::Optional, text_shape());
    match decode(&optional_root, &vec![]).unwrap() {
        Field::Optional(None) => {}
        other => panic!("unexpected {:?}", other),
    }
    assert_eq!(decode(&header_shape(), &vec![]).unwrap_err().code, CARDINALITY);
}

#[test]
fn decoded_scalars_carry_schema_facets() {
    let root = slot(
        "Rec",
        Presence::Required,
        Shape::Composite(vec![
            slot(
                "Cd",
                Presence::Required,
                Shape::Text(vec![Facet::Enumeration(vec![s("CRDT"), s("DBIT")])]),
            ),
            slot(
                "Nb",
                Presence::Optional,
                Shape::Number(vec![Facet::NumericRange { min: 1, max: 9, exclusive: false }]),
            ),
        ]),
    );
    let stream = |code: &str, nb: i64| {
        vec![
            Token::Open(s("Rec")),
            Token::Text(s("Cd"), s(code)),
            Token::Number(s("Nb"), nb),
            Token::Close,
        ]
    };
    assert!(decode(&root, &stream("DBIT", 9)).unwrap().validate().is_ok());
    assert_eq!(
        decode(&root, &stream("XXXX", 9)).unwrap().validate().unwrap_err().code,
        NOT_IN_ENUMERATION
    );
    assert_eq!(
        decode(&root, &stream("CRDT", 10)).unwrap().validate().unwrap_err().code,
        ABOVE_MAXIMUM
    );
}
