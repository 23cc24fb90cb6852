use manifest::{
    is_sound_score, is_well_named, label_json, labels_are_sound, manifest_json, manifest_text,
    number_text, parse_catalog, parse_json, parse_manifest, read_manifest, read_score,
    read_small_number, render_json, write_score, ApiLabel, AppLabel, Error, Functionality,
    Hazard, HazardsKinds, Json, ManifestProducer, RiskScore,
};

fn hazard(name: &str, risk_score: Option<RiskScore>) -> Option<Hazard> {
    Some(Hazard {
        name: name.into(),
        description: format!("About {name}."),
        risk_score,
    })
}

fn label(api_name: &str) -> ApiLabel {
    ApiLabel {
        api_name: api_name.into(),
        api_description: "Turns on a \"lamp\".".into(),
        behavior_label: vec![
            Functionality {
                device_type: "lamp".into(),
                action: "turn_on".into(),
            },
            Functionality {
                device_type: "lämpchen".into(),
                action: "".into(),
            },
        ],
        security_label: HazardsKinds {
            safety: vec![
                hazard("FireHazard", Some(RiskScore::Integer(2))),
                None,
                hazard("Other", Some(RiskScore::Decimal("0.25".into()))),
            ],
            privacy: vec![hazard("LogEnergyConsumption", None), None],
            financial: vec![
                hazard("Zero", Some(RiskScore::Integer(0))),
                hazard("Most", Some(RiskScore::Integer(255))),
                hazard("More", Some(RiskScore::Decimal("256".into()))),
            ],
        },
    }
}

fn manifest() -> AppLabel {
    AppLabel {
        app_name: "app_name".into(),
        app_description: "app_description".into(),
        sifis_version: "0.1".into(),
        api_labels: vec![label("turn_lamp_on"), label("turn_lamp_off")],
    }
}

fn text(value: &str) -> Json {
    Json::Text(value.into())
}

fn object(members: Vec<(&str, Json)>) -> Json {
    Json::Object(members.into_iter().map(|(k, v)| (k.to_string(), v)).collect())
}

#[test]
fn manifest_is_written_member_by_member() {
    let written = manifest_json(&AppLabel {
        app_name: "a".into(),
        app_description: "b".into(),
        sifis_version: "c".into(),
        api_labels: vec![ApiLabel {
            api_name: "n".into(),
            api_description: "d".into(),
            behavior_label: vec![Functionality {
                device_type: "lamp".into(),
                action: "dim".into(),
            }],
            security_label: HazardsKinds {
                safety: vec![
                    None,
                    Some(Hazard {
                        name: "H".into(),
                        description: "D".into(),
                        risk_score: Some(RiskScore::Integer(17)),
                    }),
                ],
                privacy: vec![Some(Hazard {
                    name: "P".into(),
                    description: "Q".into(),
                    risk_score: None,
                })],
                financial: vec![Some(Hazard {
                    name: "F".into(),
                    description: "G".into(),
                    risk_score: Some(RiskScore::Decimal("1.5".into())),
                })],
            },
        }],
    });
    let expected = object(vec![
        ("app_name", text("a")),
        ("app_description", text("b")),
        ("sifis_version", text("c")),
        (
            "api_labels",
            Json::Array(vec![object(vec![
                ("api_name", text("n")),
                ("api_description", text("d")),
                (
                    "behavior_label",
                    Json::Array(vec![object(vec![
                        ("device_type", text("lamp")),
                        ("action", text("dim")),
                    ])]),
                ),
                (
                    "security_label",
                    object(vec![
                        (
                            "safety",
                            Json::Array(vec![
                                Json::Null,
                                object(vec![
                                    ("name", text("H")),
                                    ("description", text("D")),
                                    ("risk_score", Json::Number("17".into())),
                                ]),
                            ]),
                        ),
                        (
                            "privacy",
                            Json::Array(vec![object(vec![
                                ("name", text("P")),
                                ("description", text("Q")),
                                ("risk_score", Json::Null),
                            ])]),
                        ),
                        (
                            "financial",
                            Json::Array(vec![object(vec![
                                ("name", text("F")),
                                ("description", text("G")),
                                ("risk_score", Json::Number("1.5".into())),
                            ])]),
                        ),
                    ]),
                ),
            ])]),
        ),
    ]);
    assert_eq!(written, expected);
}

#[test]
fn written_manifest_reads_back_equal() {
    let before = manifest();
    let read = read_manifest(&manifest_json(&before)).unwrap();
    assert_eq!(read, before);
    let empty = AppLabel::new("", "", "", vec![]);
    assert_eq!(read_manifest(&manifest_json(&empty)).unwrap(), empty);
}

#[test]
fn serialized_manifest_deserializes_equal() {
    let before = manifest();
    let compact = manifest_text(&before, false).unwrap();
    assert_eq!(parse_manifest(&compact).unwrap(), before);
    let pretty = manifest_text(&before, true).unwrap();
    assert_eq!(parse_manifest(&pretty).unwrap(), before);
    assert_ne!(compact, pretty);
    assert_eq!(parse_json(&compact).unwrap(), manifest_json(&before));
    assert_eq!(parse_json(&pretty).unwrap(), manifest_json(&before));
}

#[test]
fn manifest_text_is_the_document_as_the_writer_makes_it() {
    let manifest = AppLabel {
        app_name: "app_name".into(),
        app_description: "app \"description\"".into(),
        sifis_version: "0.1".into(),
        api_labels: vec![ApiLabel {
            api_name: "n".into(),
            api_description: "d".into(),
            behavior_label: vec![],
            security_label: HazardsKinds {
                safety: vec![None, hazard("H", Some(RiskScore::Integer(7)))],
                privacy: vec![hazard("P", None)],
                financial: vec![hazard("F", Some(RiskScore::Decimal("0.50".into())))],
            },
        }],
    };
    let compact = manifest_text(&manifest, false).unwrap();
    assert_eq!(
        compact,
        r#"{"app_name":"app_name","app_description":"app \"description\"","sifis_version":"0.1","api_labels":[{"api_name":"n","api_description":"d","behavior_label":[],"security_label":{"safety":[null,{"name":"H","description":"About H.","risk_score":7}],"privacy":[{"name":"P","description":"About P.","risk_score":null}],"financial":[{"name":"F","description":"About F.","risk_score":0.50}]}}]}"#
    );
    let pretty = manifest_text(&manifest, true).unwrap();
    assert!(pretty.starts_with("{\n  \"app_name\": \"app_name\",\n  \"app_description\""));
    let value: serde_json::Value = serde_json::from_str(&pretty).unwrap();
    assert_eq!(serde_json::to_string(&value).unwrap(), compact);
    assert_eq!(value["api_labels"][0]["security_label"]["safety"][1]["risk_score"], 7);
    assert!(value["api_labels"][0]["security_label"]["safety"][0].is_null());
    assert_eq!(value["sifis_version"], "0.1");
}

#[test]
fn score_that_is_no_number_cannot_be_written() {
    let mut manifest = manifest();
    manifest.api_labels[0].security_label.safety[0] =
        hazard("Bad", Some(RiskScore::Decimal("two".into())));
    assert!(matches!(
        manifest_text(&manifest, false),
        Err(Error::JsonOutput(_))
    ));
    assert!(matches!(
        manifest_text(&manifest, true),
        Err(Error::JsonOutput(_))
    ));
    assert!(matches!(
        ManifestProducer::new().enable_write().output(&manifest, true),
        Err(Error::JsonOutput(_))
    ));
    assert!(matches!(ManifestProducer::new().output(&manifest, true), Ok(None)));
}

#[test]
fn producer_writes_one_line_for_a_file_and_a_layout_for_standard_output() {
    let manifest = manifest();
    let silent = ManifestProducer::new();
    assert_eq!(silent.output(&manifest, true).unwrap(), None);
    assert_eq!(silent.output(&manifest, false).unwrap(), None);
    let producer = ManifestProducer::new().enable_write();
    assert_eq!(
        producer.output(&manifest, true).unwrap(),
        Some(manifest_text(&manifest, false).unwrap())
    );
    assert_eq!(
        producer.output(&manifest, false).unwrap(),
        Some(manifest_text(&manifest, true).unwrap())
    );
}

#[test]
fn json_is_written_as_it_was_read() {
    for document in [
        "null",
        "true",
        "false",
        "0",
        "-12.5",
        "\"text\"",
        "[]",
        "{}",
        r#"{"b":[1,2.50,{"a":null,"c":[[]]}],"a":"é\n","":{}}"#,
    ] {
        let json = parse_json(document).unwrap();
        let written = render_json(&json, false).unwrap();
        assert_eq!(parse_json(&written).unwrap(), json);
        let laid_out = render_json(&json, true).unwrap();
        assert_eq!(parse_json(&laid_out).unwrap(), json);
    }
    assert_eq!(
        render_json(&parse_json(r#" { "b" : [ 1 , "x" ] , "a" : null } "#).unwrap(), false).unwrap(),
        r#"{"b":[1,"x"],"a":null}"#
    );
    assert_eq!(
        render_json(&parse_json(r#"{"b":[1,"x"]}"#).unwrap(), true).unwrap(),
        "{\n  \"b\": [\n    1,\n    \"x\"\n  ]\n}"
    );
    assert!(matches!(
        render_json(&Json::Array(vec![Json::Number("1.".into())]), false),
        Err(Error::JsonOutput(_))
    ));
    assert_eq!(render_json(&Json::Number("1E5".into()), false).unwrap(), "1e+5");
}

#[test]
fn label_written_alone_is_a_label_of_a_labelled_catalog() {
    let written = label_json(&label("turn_lamp_on"));
    let catalog = Json::Object(vec![
        ("version".to_string(), text("0.1")),
        ("api_labels".to_string(), Json::Array(vec![written])),
    ]);
    let text = render_json(&catalog, false).unwrap();
    let read = parse_catalog(&text).unwrap();
    assert_eq!(read.version, "0.1");
    assert_eq!(read.api_labels, vec![label("turn_lamp_on")]);
}

#[test]
fn document_that_is_no_manifest_is_refused() {
    let whole = || {
        vec![
            ("app_name", text("a")),
            ("app_description", text("b")),
            ("sifis_version", text("c")),
            ("api_labels", Json::Array(vec![])),
        ]
    };
    assert!(read_manifest(&object(whole())).is_ok());
    for missing in 0..4 {
        let mut without = whole();
        without.remove(missing);
        assert!(matches!(
            read_manifest(&object(without)),
            Err(Error::JsonOutput(_))
        ));
    }
    assert!(matches!(
        read_manifest(&Json::Array(vec![])),
        Err(Error::JsonOutput(_))
    ));
    assert!(matches!(parse_manifest("{"), Err(Error::JsonOutput(_))));
    assert!(matches!(parse_manifest("{}"), Err(Error::JsonOutput(_))));
    assert!(matches!(
        parse_manifest(r#"{"version": "0.1", "api_labels": []}"#),
        Err(Error::JsonOutput(_))
    ));
}

#[test]
fn number_text_is_the_decimal_writing() {
    for n in 0..=255u8 {
        assert_eq!(number_text(n), n.to_string());
        assert_eq!(read_small_number(&n.to_string()), Some(n));
        assert_eq!(read_score(&n.to_string()), RiskScore::Integer(n));
        assert_eq!(write_score(&RiskScore::Integer(n)), n.to_string());
    }
}

#[test]
fn only_the_one_decimal_writing_is_a_small_number() {
    for written in [
        "", "00", "01", "007", "010", "256", "260", "300", "999", "1000", "0255", "+1", "-1",
        "-0", "1.0", "1e0", " 1", "1 ", "a", "1a", "٣", "2５",
    ] {
        assert_eq!(read_small_number(written), None, "{written:?}");
        assert_eq!(read_score(written), RiskScore::Decimal(written.into()));
    }
    assert_eq!(read_small_number("0"), Some(0));
    assert_eq!(read_small_number("9"), Some(9));
    assert_eq!(read_small_number("10"), Some(10));
    assert_eq!(read_small_number("99"), Some(99));
    assert_eq!(read_small_number("100"), Some(100));
    assert_eq!(read_small_number("199"), Some(199));
    assert_eq!(read_small_number("249"), Some(249));
    assert_eq!(read_small_number("250"), Some(250));
    assert_eq!(read_small_number("255"), Some(255));
}

#[test]
fn score_kept_as_text_is_written_as_it_is() {
    assert_eq!(write_score(&RiskScore::Decimal("0.125".into())), "0.125");
    assert_eq!(write_score(&RiskScore::Decimal("1e+3".into())), "1e+3");
}

#[test]
fn manifest_with_a_small_number_kept_as_text_is_not_written() {
    for written in ["7", "0", "255"] {
        let mut manifest = manifest();
        manifest.api_labels[1].security_label.financial[0] =
            hazard("Bad", Some(RiskScore::Decimal(written.into())));
        assert!(!labels_are_sound(&manifest.api_labels));
        assert!(matches!(
            manifest_text(&manifest, false),
            Err(Error::JsonOutput(_))
        ));
        assert!(matches!(
            manifest_text(&manifest, true),
            Err(Error::JsonOutput(_))
        ));
        assert!(matches!(
            ManifestProducer::new().enable_write().output(&manifest, false),
            Err(Error::JsonOutput(_))
        ));
        assert_eq!(ManifestProducer::new().output(&manifest, false).unwrap(), None);
        assert_ne!(read_manifest(&manifest_json(&manifest)).unwrap(), manifest);
    }
    let manifest = manifest();
    assert!(labels_are_sound(&manifest.api_labels));
    assert!(manifest_text(&manifest, false).is_ok());
}

#[test]
fn sound_scores_are_those_that_read_back() {
    for text in ["7", "0", "255", "10", "99"] {
        assert!(!is_sound_score(&RiskScore::Decimal(text.into())));
    }
    for text in ["256", "07", "7.0", "-7", "1e+5", "", "seven"] {
        assert!(is_sound_score(&RiskScore::Decimal(text.into())));
    }
    for n in [0, 7, 255] {
        assert!(is_sound_score(&RiskScore::Integer(n)));
    }
    assert!(labels_are_sound(&vec![]));
}

#[test]
fn document_with_two_members_of_one_name_is_not_written() {
    let twice = object(vec![("a", text("x")), ("b", Json::Null), ("a", text("y"))]);
    assert!(!is_well_named(&twice));
    for json in [
        object(vec![("a", text("x")), ("b", Json::Null), ("a", text("y"))]),
        Json::Array(vec![Json::Null, object(vec![("", Json::Null), ("", Json::Null)])]),
        object(vec![(
            "outer",
            Json::Array(vec![object(vec![("k", Json::Bool(true)), ("k", Json::Bool(true))])]),
        )]),
    ] {
        assert!(!is_well_named(&json));
        assert!(matches!(render_json(&json, false), Err(Error::JsonOutput(_))));
        assert!(matches!(render_json(&json, true), Err(Error::JsonOutput(_))));
    }
    let once = object(vec![
        ("a", object(vec![("a", Json::Null), ("b", Json::Null)])),
        ("b", Json::Array(vec![object(vec![("a", Json::Null)]), object(vec![("a", Json::Null)])])),
    ]);
    assert!(is_well_named(&once));
    assert_eq!(
        render_json(&once, false).unwrap(),
        r#"{"a":{"a":null,"b":null},"b":[{"a":null},{"a":null}]}"#
    );
    assert!(is_well_named(&Json::Null));
    assert!(is_well_named(&Json::Array(vec![])));
    assert!(is_well_named(&manifest_json(&manifest())));
}
