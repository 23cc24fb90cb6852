use manifest::{
    parse_catalog, parse_json, read_catalog, read_catalog_as, ApiLabel, CatalogShape, Error,
    Functionality, Hazard, HazardsKinds, Json, RiskScore, SifisApi,
};

const LABELLED: &str = r#"{
    "version": "0.1",
    "api_labels": [
        {
            "api_name": "turn_lamp_on",
            "api_description": "Turns on a lamp.",
            "behavior_label": [
                { "device_type": "lamp", "action": "turn_on" }
            ],
            "security_label": {
                "safety": [
                    {
                        "name": "FireHazard",
                        "description": "The execution may cause fire.",
                        "risk_score": 2
                    }
                ],
                "privacy": [
                    {
                        "name": "LogEnergyConsumption",
                        "description": "The execution allows the app to register information about energy consumption."
                    }
                ],
                "financial": [
                    {
                        "name": "ElectricEnergyConsumption",
                        "description": "The execution enables the device to consume further electricity.",
                        "risk_score": 5
                    }
                ]
            }
        }
    ]
}"#;

const FLAT: &str = r#"{
    "version": "1.0.0",
    "api_labels": [
        {
            "api_name": "turn_oven_on",
            "description": "Turns an oven on.",
            "security_label": {
                "safety": [
                    { "name": "FireHazard", "description": "May cause fire.", "risk_score": 0.75 },
                    { "name": "BurnHazard", "description": "May burn.", "risk_score": null }
                ],
                "privacy": [],
                "financial": [
                    { "name": "SpendMoney", "description": "Costs money.", "risk_score": 3 }
                ]
            }
        }
    ]
}"#;

fn hazard(name: &str, description: &str, risk_score: Option<RiskScore>) -> Option<Hazard> {
    Some(Hazard {
        name: name.into(),
        description: description.into(),
        risk_score,
    })
}

fn text(value: &str) -> Json {
    Json::Text(value.into())
}

fn number(value: &str) -> Json {
    Json::Number(value.into())
}

fn object(members: Vec<(&str, Json)>) -> Json {
    Json::Object(members.into_iter().map(|(k, v)| (k.to_string(), v)).collect())
}

fn hazard_json(risk_score: Option<Json>) -> Json {
    let mut members = vec![("name", text("H")), ("description", text("D"))];
    if let Some(score) = risk_score {
        members.push(("risk_score", score));
    }
    object(members)
}

fn catalog_with(label_members: Vec<(&str, Json)>) -> Json {
    object(vec![
        ("version", text("9")),
        ("api_labels", Json::Array(vec![object(label_members)])),
    ])
}

fn security(safety: Vec<Json>) -> Json {
    object(vec![
        ("safety", Json::Array(safety)),
        ("privacy", Json::Array(vec![])),
        ("financial", Json::Array(vec![])),
    ])
}

fn labelled_with(safety: Vec<Json>) -> Json {
    catalog_with(vec![
        ("api_name", text("n")),
        ("api_description", text("d")),
        ("behavior_label", Json::Array(vec![])),
        ("security_label", security(safety)),
    ])
}

fn flat_with(safety: Vec<Json>) -> Json {
    catalog_with(vec![
        ("api_name", text("n")),
        ("description", text("d")),
        ("security_label", security(safety)),
    ])
}

fn first_score(catalog: &SifisApi) -> Option<RiskScore> {
    catalog.api_labels[0].security_label.safety[0]
        .as_ref()
        .unwrap()
        .risk_score
        .as_ref()
        .map(|s| match s {
            RiskScore::Integer(n) => RiskScore::Integer(*n),
            RiskScore::Decimal(t) => RiskScore::Decimal(t.clone()),
        })
}

fn is_json_error<T: std::fmt::Debug>(result: Result<T, Error>) -> bool {
    matches!(result, Err(Error::JsonOutput(_)))
}

#[test]
fn labelled_catalog_is_read() {
    let catalog = parse_catalog(LABELLED).unwrap();
    assert_eq!(
        catalog,
        SifisApi {
            version: "0.1".into(),
            api_labels: vec![ApiLabel {
                api_name: "turn_lamp_on".into(),
                api_description: "Turns on a lamp.".into(),
                behavior_label: vec![Functionality {
                    device_type: "lamp".into(),
                    action: "turn_on".into(),
                }],
                security_label: HazardsKinds {
                    safety: vec![hazard(
                        "FireHazard",
                        "The execution may cause fire.",
                        Some(RiskScore::Integer(2))
                    )],
                    privacy: vec![hazard(
                        "LogEnergyConsumption",
                        "The execution allows the app to register information about energy consumption.",
                        None
                    )],
                    financial: vec![hazard(
                        "ElectricEnergyConsumption",
                        "The execution enables the device to consume further electricity.",
                        Some(RiskScore::Integer(5))
                    )],
                },
            }],
        }
    );
}

#[test]
fn flat_catalog_is_read() {
    let catalog = parse_catalog(FLAT).unwrap();
    assert_eq!(
        catalog,
        SifisApi {
            version: "1.0.0".into(),
            api_labels: vec![ApiLabel {
                api_name: "turn_oven_on".into(),
                api_description: "Turns an oven on.".into(),
                behavior_label: vec![],
                security_label: HazardsKinds {
                    safety: vec![
                        hazard(
                            "FireHazard",
                            "May cause fire.",
                            Some(RiskScore::Decimal("0.75".into()))
                        ),
                        hazard("BurnHazard", "May burn.", None),
                    ],
                    privacy: vec![],
                    financial: vec![hazard(
                        "SpendMoney",
                        "Costs money.",
                        Some(RiskScore::Integer(3))
                    )],
                },
            }],
        }
    );
}

#[test]
fn each_shape_is_read_only_as_itself() {
    let labelled = parse_json(LABELLED).unwrap();
    assert!(read_catalog_as(CatalogShape::Labelled, &labelled).is_some());
    assert!(read_catalog_as(CatalogShape::Flat, &labelled).is_none());
    let flat = parse_json(FLAT).unwrap();
    assert!(read_catalog_as(CatalogShape::Labelled, &flat).is_none());
    assert!(read_catalog_as(CatalogShape::Flat, &flat).is_some());
    assert_eq!(
        read_catalog(&flat).unwrap(),
        read_catalog_as(CatalogShape::Flat, &flat).unwrap()
    );
    assert_eq!(
        read_catalog(&labelled).unwrap(),
        read_catalog_as(CatalogShape::Labelled, &labelled).unwrap()
    );
}

#[test]
fn document_of_both_shapes_is_read_as_labelled() {
    let both = catalog_with(vec![
        ("api_name", text("n")),
        ("api_description", text("labelled")),
        ("description", text("flat")),
        (
            "behavior_label",
            Json::Array(vec![object(vec![
                ("device_type", text("lamp")),
                ("action", text("dim")),
            ])]),
        ),
        ("security_label", security(vec![])),
    ]);
    let catalog = read_catalog(&both).unwrap();
    assert_eq!(catalog.api_labels[0].api_description, "labelled");
    assert_eq!(catalog.api_labels[0].behavior_label.len(), 1);
    let flat = read_catalog_as(CatalogShape::Flat, &both).unwrap();
    assert_eq!(flat.api_labels[0].api_description, "flat");
    assert_eq!(flat.api_labels[0].behavior_label, vec![]);
}

#[test]
fn absent_hazard_keeps_its_place_in_a_labelled_catalog() {
    let json = labelled_with(vec![
        Json::Null,
        hazard_json(None),
        Json::Null,
        Json::Null,
    ]);
    let catalog = read_catalog(&json).unwrap();
    assert_eq!(
        catalog.api_labels[0].security_label.safety,
        vec![None, hazard("H", "D", None), None, None]
    );
}

#[test]
fn absent_hazard_is_refused_in_a_flat_catalog() {
    let json = flat_with(vec![hazard_json(None), Json::Null]);
    assert!(read_catalog_as(CatalogShape::Flat, &json).is_none());
    assert!(is_json_error(read_catalog(&json)));
    let json = flat_with(vec![hazard_json(None)]);
    assert!(read_catalog(&json).is_ok());
}

#[test]
fn risk_score_is_kept_as_it_was_read() {
    for (written, expected) in [
        ("0", RiskScore::Integer(0)),
        ("7", RiskScore::Integer(7)),
        ("42", RiskScore::Integer(42)),
        ("255", RiskScore::Integer(255)),
        ("256", RiskScore::Decimal("256".into())),
        ("1000", RiskScore::Decimal("1000".into())),
        ("-1", RiskScore::Decimal("-1".into())),
        ("2.0", RiskScore::Decimal("2.0".into())),
        ("0.5", RiskScore::Decimal("0.5".into())),
        ("12345678901234567890123", RiskScore::Decimal("12345678901234567890123".into())),
        ("1e+5", RiskScore::Decimal("1e+5".into())),
        ("2.5e-3", RiskScore::Decimal("2.5e-3".into())),
    ] {
        let labelled = labelled_with(vec![hazard_json(Some(number(written)))]);
        assert_eq!(first_score(&read_catalog(&labelled).unwrap()), Some(expected));
        let document = format!(
            r#"{{"version":"1","api_labels":[{{"api_name":"n","description":"d","security_label":{{"safety":[{{"name":"H","description":"D","risk_score":{written}}}],"privacy":[],"financial":[]}}}}]}}"#
        );
        let expected = match read_catalog(&labelled).unwrap() {
            catalog => first_score(&catalog),
        };
        assert_eq!(first_score(&parse_catalog(&document).unwrap()), expected);
    }
}

#[test]
fn risk_score_may_be_missing_or_null() {
    let json = labelled_with(vec![hazard_json(None)]);
    assert_eq!(first_score(&read_catalog(&json).unwrap()), None);
    let json = labelled_with(vec![hazard_json(Some(Json::Null))]);
    assert_eq!(first_score(&read_catalog(&json).unwrap()), None);
}

#[test]
fn risk_score_that_is_no_number_is_refused() {
    for score in [text("2"), Json::Bool(true), Json::Array(vec![]), object(vec![])] {
        let json = labelled_with(vec![hazard_json(Some(score))]);
        assert!(is_json_error(read_catalog(&json)));
    }
}

#[test]
fn text_that_is_no_json_is_refused() {
    for document in ["", "{", "version: 0.1", "{\"version\": \"0.1\",}", "[1, 2", "nul"] {
        assert!(is_json_error(parse_catalog(document)));
        assert!(is_json_error(parse_json(document)));
    }
}

#[test]
fn document_that_is_no_object_is_refused() {
    for document in ["null", "[]", "\"0.1\"", "1", "true"] {
        assert!(parse_json(document).is_ok());
        assert!(is_json_error(parse_catalog(document)));
    }
}

#[test]
fn catalog_without_version_is_refused() {
    assert!(is_json_error(parse_catalog(r#"{"api_labels": []}"#)));
    assert!(is_json_error(parse_catalog(r#"{"version": 1, "api_labels": []}"#)));
    assert!(is_json_error(parse_catalog(r#"{"version": null, "api_labels": []}"#)));
    assert_eq!(
        parse_catalog(r#"{"version": "", "api_labels": []}"#).unwrap(),
        SifisApi {
            version: "".into(),
            api_labels: vec![],
        }
    );
}

#[test]
fn catalog_without_labels_is_refused() {
    assert!(is_json_error(parse_catalog(r#"{"version": "0.1"}"#)));
    assert!(is_json_error(parse_catalog(r#"{"version": "0.1", "api_labels": {}}"#)));
    assert!(is_json_error(parse_catalog(r#"{"version": "0.1", "api_labels": [null]}"#)));
}

#[test]
fn label_without_a_required_member_is_refused() {
    let members = || {
        vec![
            ("api_name", text("n")),
            ("api_description", text("d")),
            ("behavior_label", Json::Array(vec![])),
            ("security_label", security(vec![])),
        ]
    };
    assert!(read_catalog(&catalog_with(members())).is_ok());
    for missing in 0..4 {
        let mut without = members();
        without.remove(missing);
        assert!(is_json_error(read_catalog(&catalog_with(without))));
    }
    let members = || {
        vec![
            ("api_name", text("n")),
            ("description", text("d")),
            ("security_label", security(vec![])),
        ]
    };
    assert!(read_catalog(&catalog_with(members())).is_ok());
    for missing in 0..3 {
        let mut without = members();
        without.remove(missing);
        assert!(is_json_error(read_catalog(&catalog_with(without))));
    }
}

#[test]
fn security_label_needs_its_three_categories() {
    for missing in 0..3 {
        let mut categories = vec![
            ("safety", Json::Array(vec![])),
            ("privacy", Json::Array(vec![])),
            ("financial", Json::Array(vec![])),
        ];
        categories.remove(missing);
        let json = catalog_with(vec![
            ("api_name", text("n")),
            ("description", text("d")),
            ("security_label", object(categories)),
        ]);
        assert!(is_json_error(read_catalog(&json)));
    }
}

#[test]
fn hazard_needs_name_and_description() {
    let nameless = object(vec![("description", text("D"))]);
    assert!(is_json_error(read_catalog(&labelled_with(vec![nameless]))));
    let undescribed = object(vec![("name", text("H"))]);
    assert!(is_json_error(read_catalog(&labelled_with(vec![undescribed]))));
    assert!(is_json_error(read_catalog(&labelled_with(vec![text("H")]))));
}

#[test]
fn functionality_needs_device_type_and_action() {
    for behavior in [
        object(vec![("device_type", text("lamp"))]),
        object(vec![("action", text("dim"))]),
        Json::Null,
    ] {
        let json = catalog_with(vec![
            ("api_name", text("n")),
            ("api_description", text("d")),
            ("behavior_label", Json::Array(vec![behavior])),
            ("security_label", security(vec![])),
        ]);
        assert!(read_catalog_as(CatalogShape::Labelled, &json).is_none());
    }
}

#[test]
fn members_that_no_shape_knows_are_passed_over() {
    let json = object(vec![
        ("comment", text("made by hand")),
        ("version", text("9")),
        ("api_labels", Json::Array(vec![])),
        ("more", Json::Array(vec![Json::Null])),
    ]);
    assert_eq!(
        read_catalog(&json).unwrap(),
        SifisApi {
            version: "9".into(),
            api_labels: vec![],
        }
    );
}

#[test]
fn later_member_of_the_same_name_counts() {
    let json = object(vec![
        ("version", text("first")),
        ("api_labels", Json::Array(vec![])),
        ("version", text("second")),
    ]);
    assert_eq!(read_catalog(&json).unwrap().version, "second");
    assert_eq!(
        parse_catalog(r#"{"version": "first", "api_labels": [], "version": "second"}"#)
            .unwrap()
            .version,
        "second"
    );
}

#[test]
fn labels_keep_the_order_of_the_document() {
    let label = |name: &str| {
        object(vec![
            ("api_name", text(name)),
            ("description", text("d")),
            ("security_label", security(vec![])),
        ])
    };
    let json = object(vec![
        ("version", text("9")),
        (
            "api_labels",
            Json::Array(vec![label("c"), label("a"), label("b"), label("a")]),
        ),
    ]);
    let catalog = read_catalog(&json).unwrap();
    let names: Vec<&str> = catalog.api_labels.iter().map(|l| l.api_name.as_str()).collect();
    assert_eq!(names, vec!["c", "a", "b", "a"]);
}

#[test]
fn json_is_read_as_a_tree_of_plain_values() {
    let json = parse_json(
        r#"{"b": [1, 2.50, -3e2, true, null, "x\ny"], "a": {"z": {}, "y": []}, "é": "ü"}"#,
    )
    .unwrap();
    assert_eq!(
        json,
        object(vec![
            (
                "b",
                Json::Array(vec![
                    number("1"),
                    number("2.50"),
                    number("-3e+2"),
                    Json::Bool(true),
                    Json::Null,
                    text("x\ny"),
                ])
            ),
            (
                "a",
                object(vec![("z", object(vec![])), ("y", Json::Array(vec![]))])
            ),
            ("é", text("ü")),
        ])
    );
    assert_eq!(parse_json(" 17 ").unwrap(), number("17"));
    assert_eq!(parse_json("[[[]]]").unwrap(), Json::Array(vec![Json::Array(vec![Json::Array(vec![])])]));
}

#[test]
fn exponent_of_a_risk_score_is_kept_as_the_reader_hands_it_on() {
    for (written, kept) in [
        ("1E5", "1e+5"),
        ("1e5", "1e+5"),
        ("1E+5", "1e+5"),
        ("1e-5", "1e-5"),
        ("2.50E3", "2.50e+3"),
        ("7e0", "7e+0"),
    ] {
        let document = format!(
            r#"{{"version":"1","api_labels":[{{"api_name":"n","description":"d","security_label":{{"safety":[{{"name":"H","description":"D","risk_score":{written}}}],"privacy":[],"financial":[]}}}}]}}"#
        );
        assert_eq!(
            first_score(&parse_catalog(&document).unwrap()),
            Some(RiskScore::Decimal(kept.into()))
        );
        assert_eq!(parse_json(written).unwrap(), number(kept));
    }
}
