use iso20022_validate::{
    resolve, Document, DocumentType, Facet, Field, FundDetailedEstimatedCashForecastReportV04,
    InformationRequestOpeningV02, InformationRequestStatusChangeNotificationV01,
    IntraBalanceMovementInstructionV02, MAX35_MAX, MAX35_MIN, SESSION_ID_PATTERN,
    Member, Scalar, StandingSettlementInstructionCancellationV01, SystemEventAcknowledgementV01,
    ValidationError, ABOVE_MAXIMUM, BELOW_MINIMUM, CARDINALITY, NOT_IN_ENUMERATION,
    PATTERN_MISMATCH, TOO_LONG, TOO_SHORT, UNKNOWN_DOCUMENT_TYPE,
};

fn text(s: &str, facets: Vec<Facet>) -> Field {
    Field::Scalar { value: Scalar::Text(s.to_string()), facets }
}

fn bounded(s: &str, min: usize, max: usize) -> Field {
    text(s, vec![Facet::LengthBounds { min, max }])
}

fn member(name: &str, tag: &str, field: Field) -> Member {
    Member { name: name.to_string(), tag: tag.to_string(), field }
}

fn code(r: Result<(), ValidationError>) -> u32 {
    r.unwrap_err().code
}

fn session(value: Option<&str>) -> SystemEventAcknowledgementV01 {
    SystemEventAcknowledgementV01 {
        msg_id: "MSG1".to_string(),
        orgtr_ref: None,
        sttlm_ssn_idr: value.map(|v| v.to_string()),
        ack_dtls: None,
        splmtry_data: None,
    }
}

#[test]
fn record_identifier_bounds() {
    assert_eq!(code(bounded("", 1, 35).validate()), TOO_SHORT);
    assert!(bounded(&"A".repeat(35), 1, 35).validate().is_ok());
    assert_eq!(code(bounded(&"A".repeat(36), 1, 35).validate()), TOO_LONG);
}

#[test]
fn record_identifier_bounds_in_document() {
    let mut doc = session(None);
    doc.msg_id = String::new();
    assert_eq!(code(doc.validate()), TOO_SHORT);
    doc.msg_id = "A".repeat(35);
    assert!(doc.validate().is_ok());
    doc.msg_id = "A".repeat(36);
    assert_eq!(code(doc.validate()), TOO_LONG);
}

#[test]
fn length_bounds_at_each_edge() {
    assert_eq!(code(bounded("ab", 3, 5).validate()), TOO_SHORT);
    assert!(bounded("abc", 3, 5).validate().is_ok());
    assert!(bounded("abcde", 3, 5).validate().is_ok());
    assert_eq!(code(bounded("abcdef", 3, 5).validate()), TOO_LONG);
}

#[test]
fn length_counts_code_points_not_bytes() {
    assert!(bounded("\u{e9}\u{e9}\u{e9}", 1, 3).validate().is_ok());
    assert_eq!(code(bounded("\u{e9}\u{e9}\u{e9}\u{e9}", 1, 3).validate()), TOO_LONG);
}

#[test]
fn session_identifier_pattern() {
    assert!(session(Some("AB12")).validate().is_ok());
    assert_eq!(code(session(Some("AB1")).validate()), PATTERN_MISMATCH);
    assert_eq!(code(session(Some("AB123")).validate()), PATTERN_MISMATCH);
    assert!(session(None).validate().is_ok());
}

#[test]
fn pattern_is_anchored_at_both_ends() {
    let p = || vec![Facet::Pattern("[a-zA-Z0-9]{4}".to_string())];
    assert!(text("AB12", p()).validate().is_ok());
    assert_eq!(code(text("-AB12", p()).validate()), PATTERN_MISMATCH);
    assert_eq!(code(text("AB12-", p()).validate()), PATTERN_MISMATCH);
    assert_eq!(code(text("AB-12", p()).validate()), PATTERN_MISMATCH);
}

#[test]
fn pattern_alternation_stays_anchored() {
    let p = || vec![Facet::Pattern("CRED|DEBT".to_string())];
    assert!(text("DEBT", p()).validate().is_ok());
    assert_eq!(code(text("CREDX", p()).validate()), PATTERN_MISMATCH);
    assert_eq!(code(text("XDEBT", p()).validate()), PATTERN_MISMATCH);
}

#[test]
fn pattern_that_does_not_compile_matches_nothing() {
    let f = text("abc", vec![Facet::Pattern("(".to_string())]);
    assert_eq!(code(f.validate()), PATTERN_MISMATCH);
}

#[test]
fn facets_apply_in_declared_order() {
    let f = text(
        "",
        vec![Facet::Pattern("[0-9]+".to_string()), Facet::LengthBounds { min: 1, max: 3 }],
    );
    assert_eq!(code(f.validate()), PATTERN_MISMATCH);
    let g = text(
        "",
        vec![Facet::LengthBounds { min: 1, max: 3 }, Facet::Pattern("[0-9]+".to_string())],
    );
    assert_eq!(code(g.validate()), TOO_SHORT);
}

#[test]
fn enumeration_membership() {
    let allowed = || vec![Facet::Enumeration(vec!["CRDT".to_string(), "DBIT".to_string()])];
    assert!(text("DBIT", allowed()).validate().is_ok());
    assert_eq!(code(text("dbit", allowed()).validate()), NOT_IN_ENUMERATION);
    assert_eq!(code(text("", allowed()).validate()), NOT_IN_ENUMERATION);
}

#[test]
fn numeric_range_inclusive_and_exclusive() {
    let num = |n: i64, exclusive: bool| Field::Scalar {
        value: Scalar::Number(n),
        facets: vec![Facet::NumericRange { min: 0, max: 10, exclusive }],
    };
    assert!(num(0, false).validate().is_ok());
    assert!(num(10, false).validate().is_ok());
    assert_eq!(code(num(-1, false).validate()), BELOW_MINIMUM);
    assert_eq!(code(num(11, false).validate()), ABOVE_MAXIMUM);
    assert_eq!(code(num(0, true).validate()), BELOW_MINIMUM);
    assert_eq!(code(num(10, true).validate()), ABOVE_MAXIMUM);
    assert!(num(5, true).validate().is_ok());
}

#[test]
fn facet_of_another_kind_holds() {
    let f = Field::Scalar { value: Scalar::Flag(true), facets: vec![Facet::LengthBounds { min: 1, max: 2 }] };
    assert!(f.validate().is_ok());
}

#[test]
fn composite_reports_first_declared_failure() {
    let f = Field::Composite(vec![
        member("a", "A", bounded("", 1, 4)),
        member("b", "B", bounded("toolong", 1, 4)),
    ]);
    assert_eq!(code(f.validate()), TOO_SHORT);
    let g = Field::Composite(vec![
        member("a", "A", bounded("ok", 1, 4)),
        member("b", "B", bounded("toolong", 1, 4)),
    ]);
    assert_eq!(code(g.validate()), TOO_LONG);
}

#[test]
fn composite_optional_before_required_keeps_declared_order() {
    let f = Field::Composite(vec![
        member("opt", "Opt", Field::Optional(Some(Box::new(bounded("toolong", 1, 4))))),
        member("req", "Req", bounded("", 1, 4)),
    ]);
    assert_eq!(code(f.validate()), TOO_LONG);
}

#[test]
fn repeated_reports_first_invalid_element() {
    let items = |n: usize| {
        let mut v = vec![bounded("ok", 1, 4), bounded("", 1, 4), bounded("toolong", 1, 4)];
        for _ in 0..n {
            v.push(bounded("x", 1, 4));
        }
        Field::Repeated { min: 0, items: v }
    };
    assert_eq!(code(items(0).validate()), TOO_SHORT);
    assert_eq!(code(items(5).validate()), TOO_SHORT);
}

#[test]
fn repeated_below_minimum_count() {
    let f = Field::Repeated { min: 2, items: vec![bounded("ok", 1, 4)] };
    assert_eq!(code(f.validate()), CARDINALITY);
    let g = Field::Repeated { min: 0, items: vec![] };
    assert!(g.validate().is_ok());
}

#[test]
fn choice_validates_its_populated_alternative() {
    let ok = Field::Choice(Box::new(member("cd", "Cd", bounded("ABCD", 1, 4))));
    assert!(ok.validate().is_ok());
    let bad = Field::Choice(Box::new(member("prtry", "Prtry", bounded("", 1, 35))));
    assert_eq!(code(bad.validate()), TOO_SHORT);
}

#[test]
fn composite_with_required_and_optional_child() {
    let record = |inner: &str, optional: Option<Field>| {
        Field::Composite(vec![
            member("req", "Req", Field::Composite(vec![member("id", "Id", bounded(inner, 1, 35))])),
            member("opt", "Opt", Field::Optional(optional.map(Box::new))),
        ])
    };
    assert!(record("ID1", None).validate().is_ok());
    assert_eq!(code(record("", None).validate()), TOO_SHORT);
    assert_eq!(code(record(&"A".repeat(36), Some(bounded("x", 1, 2))).validate()), TOO_LONG);
    assert_eq!(code(record("ID1", Some(bounded("xyz", 1, 2))).validate()), TOO_LONG);
}

#[test]
fn document_nested_children_in_declared_order() {
    let doc = StandingSettlementInstructionCancellationV01 {
        msg_ref_id: "REF".to_string(),
        fctv_dt_dtls: None,
        acct_id: vec![Field::Composite(vec![member("id", "Id", bounded("", 1, 35))])],
        mkt_id: Field::Choice(Box::new(member("id", "Id", bounded("toolong", 1, 4)))),
        sttlm_dtls: Field::Composite(vec![]),
        prvs_msg_ref: String::new(),
        splmtry_data: None,
    };
    assert_eq!(code(doc.validate()), TOO_SHORT);
    let wrapped = Document::StandingSettlementInstructionCancellationV01(doc);
    assert_eq!(code(wrapped.validate()), TOO_SHORT);
    assert_eq!(wrapped.document_type(), DocumentType::StandingSettlementInstructionCancellationV01);
}

#[test]
fn document_boolean_child_carries_no_check() {
    let doc = InformationRequestStatusChangeNotificationV01 {
        orgnl_biz_qry: "Q1".to_string(),
        cnfdtlty_sts: true,
        splmtry_data: Some(vec![]),
    };
    assert!(doc.validate().is_ok());
}

#[test]
fn registry_resolves_known_identifiers() {
    assert_eq!(resolve("admi.011.001.01").unwrap(), DocumentType::SystemEventAcknowledgementV01);
    assert_eq!(resolve("reda.059.001.01").unwrap(), DocumentType::StandingSettlementInstructionCancellationV01);
    for t in DocumentType::all() {
        assert_eq!(resolve(t.identifier()).unwrap(), t);
    }
}

#[test]
fn registry_rejects_unknown_identifier() {
    assert_eq!(resolve("admi.011.001.99").unwrap_err().code, UNKNOWN_DOCUMENT_TYPE);
    assert_eq!(resolve("").unwrap_err().code, UNKNOWN_DOCUMENT_TYPE);
}

#[test]
fn tag_table_lists_fields_in_declared_order() {
    let t = SystemEventAcknowledgementV01::tag_table();
    assert_eq!(t.len(), 5);
    assert_eq!(t[0], ("msg_id", "MsgId"));
    assert_eq!(t[2], ("sttlm_ssn_idr", "SttlmSsnIdr"));
}

#[test]
fn optional_text_in_document_is_checked_only_when_present() {
    let mut doc = IntraBalanceMovementInstructionV02 {
        id: None,
        corp_actn_evt_id: None,
        nb_counts: None,
        lnkgs: None,
        csh_acct: Field::Composite(vec![]),
        csh_acct_ownr: None,
        csh_acct_svcr: None,
        intra_bal: Field::Composite(vec![member("amt", "Amt", bounded("12", 1, 18))]),
        splmtry_data: None,
    };
    assert!(doc.validate().is_ok());
    doc.corp_actn_evt_id = Some(String::new());
    assert_eq!(code(doc.validate()), TOO_SHORT);
    doc.corp_actn_evt_id = Some("EVT".to_string());
    doc.intra_bal = Field::Composite(vec![member("amt", "Amt", bounded("", 1, 18))]);
    assert_eq!(code(doc.validate()), TOO_SHORT);
}

#[test]
fn required_repeated_child_in_document_is_fail_fast() {
    let doc = FundDetailedEstimatedCashForecastReportV04 {
        msg_id: Field::Composite(vec![member("id", "Id", bounded("M", 1, 35))]),
        pool_ref: None,
        prvs_ref: None,
        rltd_ref: None,
        msg_pgntn: Field::Composite(vec![]),
        fnd_or_sub_fnd_dtls: None,
        estmtd_fnd_csh_fcst_dtls: vec![bounded("ok", 1, 4), bounded("toolong", 1, 4), bounded("", 1, 4)],
        cnsltd_net_csh_fcst: None,
        xtnsn: Some(vec![bounded("", 1, 4)]),
    };
    assert_eq!(code(doc.validate()), TOO_LONG);
}

#[test]
fn text_before_nested_children_in_document() {
    let doc = InformationRequestOpeningV02 {
        invstgtn_id: "A".repeat(36),
        lgl_mndt_bsis: Field::Composite(vec![member("prgrph", "Prgrph", bounded("", 1, 35))]),
        cnfdtlty_sts: false,
        due_dt: None,
        invstgtn_prd: Field::Choice(Box::new(member("dt", "Dt", bounded("2024-01-01", 10, 10)))),
        sch_crit: Field::Choice(Box::new(member("acct", "Acct", Field::Composite(vec![])))),
        splmtry_data: None,
    };
    assert_eq!(code(doc.validate()), TOO_LONG);
    let doc = InformationRequestOpeningV02 { invstgtn_id: "INV1".to_string(), ..doc };
    assert_eq!(code(doc.validate()), TOO_SHORT);
}

#[test]
fn document_constants_match_catalog() {
    assert_eq!((MAX35_MIN, MAX35_MAX), (1, 35));
    assert_eq!(SESSION_ID_PATTERN, "[a-zA-Z0-9]{4}");
}

#[test]
fn error_carries_standard_message() {
    let e = ValidationError::of_code(TOO_SHORT);
    assert_eq!(e.code, TOO_SHORT);
    assert!(!e.message.is_empty());
    let f = ValidationError::new(CARDINALITY, "missing".to_string());
    assert_eq!((f.code, f.message.as_str()), (CARDINALITY, "missing"));
}

#[test]
fn returned_error_is_the_failing_childs_error() {
    let child = bounded("", 1, 4);
    let own = child.validate().unwrap_err();
    let f = Field::Composite(vec![member("a", "A", bounded("", 1, 4)), member("b", "B", bounded("toolong", 1, 4))]);
    let got = f.validate().unwrap_err();
    assert_eq!((got.code, got.message.clone()), (own.code, own.message.clone()));
    let g = Field::Repeated { min: 0, items: vec![bounded("ok", 1, 4), bounded("", 1, 4), bounded("toolong", 1, 4)] };
    let got = g.validate().unwrap_err();
    assert_eq!((got.code, got.message), (own.code, own.message));
}

#[test]
fn repeated_validation_gives_equal_results() {
    let doc = session(Some("AB1"));
    let a = doc.validate().unwrap_err();
    let b = doc.validate().unwrap_err();
    assert_eq!((a.code, a.message), (b.code, b.message));
}

#[test]
fn flipping_a_flag_never_changes_the_result() {
    let doc = InformationRequestStatusChangeNotificationV01 {
        orgnl_biz_qry: String::new(),
        cnfdtlty_sts: true,
        splmtry_data: None,
    };
    let a = doc.validate().unwrap_err();
    let flipped = InformationRequestStatusChangeNotificationV01 { cnfdtlty_sts: false, ..doc };
    let b = flipped.validate().unwrap_err();
    assert_eq!((a.code, a.message), (b.code, b.message));
}

#[test]
fn standard_messages_differ_by_code() {
    let short = ValidationError::of_code(TOO_SHORT);
    let long = ValidationError::of_code(TOO_LONG);
    assert_ne!(short.message, long.message);
    assert_eq!(ValidationError::of_code(UNKNOWN_DOCUMENT_TYPE).message, resolve("x").unwrap_err().message);
}

#[test]
fn document_rebuilt_from_its_record() {
    let doc = InformationRequestStatusChangeNotificationV01 {
        orgnl_biz_qry: "Q7".to_string(),
        cnfdtlty_sts: true,
        splmtry_data: Some(vec![bounded("x", 1, 2)]),
    };
    let back = InformationRequestStatusChangeNotificationV01::from_field(doc.into_field()).unwrap();
    assert_eq!(back.orgnl_biz_qry, "Q7");
    assert!(back.cnfdtlty_sts);
    assert_eq!(back.splmtry_data.map(|v| v.len()), Some(1));
}

#[test]
fn document_constructor_through_registry() {
    let t = resolve("admi.011.001.01").unwrap();
    let record = session(Some("AB12")).into_field();
    let doc = Document::from_field(t, record).unwrap();
    assert_eq!(doc.document_type(), DocumentType::SystemEventAcknowledgementV01);
    assert!(doc.validate().is_ok());
}

#[test]
fn document_constructor_refuses_wrong_record() {
    let wrong_tag = Field::Composite(vec![
        member("msg_id", "Id", bounded("M", 1, 35)),
        member("orgtr_ref", "OrgtrRef", Field::Optional(None)),
        member("sttlm_ssn_idr", "SttlmSsnIdr", Field::Optional(None)),
        member("ack_dtls", "AckDtls", Field::Optional(None)),
        member("splmtry_data", "SplmtryData", Field::Optional(None)),
    ]);
    assert_eq!(SystemEventAcknowledgementV01::from_field(wrong_tag).unwrap_err().code, CARDINALITY);
    let too_few = Field::Composite(vec![member("msg_id", "MsgId", bounded("M", 1, 35))]);
    assert_eq!(SystemEventAcknowledgementV01::from_field(too_few).unwrap_err().code, CARDINALITY);
    let t = DocumentType::InformationRequestStatusChangeNotificationV01;
    assert_eq!(Document::from_field(t, session(None).into_field()).unwrap_err().code, CARDINALITY);
}
