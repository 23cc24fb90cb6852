use manifest::{
    chars_contain, chars_of, chars_start_with, labels_for_names, match_symbols, merge_by_name,
    readable_names, report_symbols, text_contains, text_starts_with, tracks, ApiLabel,
    Functionality, Hazard, HazardsKinds, MatchPolicy, RiskScore, Symbol, CLOSURE_MARKER,
    SIFIS_SYMBOL,
};

fn hazard(name: &str, description: &str, risk_score: Option<u8>) -> Option<Hazard> {
    Some(Hazard {
        name: name.into(),
        description: description.into(),
        risk_score: risk_score.map(RiskScore::Integer),
    })
}

fn label(api_name: &str) -> ApiLabel {
    ApiLabel {
        api_name: api_name.into(),
        api_description: format!("Calls {api_name}."),
        behavior_label: vec![Functionality {
            device_type: "lamp".into(),
            action: api_name.into(),
        }],
        security_label: HazardsKinds {
            safety: vec![hazard("FireHazard", "The execution may cause fire.", Some(2)), None],
            privacy: vec![],
            financial: vec![hazard("SpendMoney", "The execution may cost money.", None)],
        },
    }
}

fn global(name: &str) -> Symbol {
    Symbol {
        raw_name: Some(name.into()),
        is_global: true,
    }
}

fn local(name: &str) -> Symbol {
    Symbol {
        raw_name: Some(name.into()),
        is_global: false,
    }
}

fn names(labels: &[ApiLabel]) -> Vec<&str> {
    labels.iter().map(|l| l.api_name.as_str()).collect()
}

#[test]
fn default_policy_is_the_sifis_namespace() {
    let policy = MatchPolicy::default();
    assert_eq!(policy.namespace_prefix, "sifis_api::service::SifisApiClient");
    assert_eq!(policy.namespace_prefix, SIFIS_SYMBOL);
    assert_eq!(policy.synthetic_marker, "closure");
    assert_eq!(policy.synthetic_marker, CLOSURE_MARKER);
    assert!(policy.require_global);
    assert!(policy.keep_duplicates);
}

#[test]
fn policy_builders_change_one_field() {
    let policy = MatchPolicy::new("prefix").synthetic_marker("thunk");
    assert_eq!(
        policy,
        MatchPolicy {
            namespace_prefix: "prefix".into(),
            synthetic_marker: "thunk".into(),
            require_global: true,
            keep_duplicates: true,
        }
    );
    let policy = policy.require_global(false);
    assert_eq!(
        policy,
        MatchPolicy {
            namespace_prefix: "prefix".into(),
            synthetic_marker: "thunk".into(),
            require_global: false,
            keep_duplicates: true,
        }
    );
    let policy = policy.keep_duplicates(false);
    assert_eq!(
        policy,
        MatchPolicy {
            namespace_prefix: "prefix".into(),
            synthetic_marker: "thunk".into(),
            require_global: false,
            keep_duplicates: false,
        }
    );
}

#[test]
fn substring_match_in_longer_identifier() {
    let policy = MatchPolicy::new("prefix");
    let labels = vec![label("turn_on")];
    let symbols = vec![global("prefix::turn_on_extra")];
    let found = match_symbols(&policy, &symbols, &labels);
    assert_eq!(found, vec![label("turn_on")]);
    let names = vec!["prefix::turn_on_extra".to_string()];
    assert_eq!(labels_for_names(&names, &labels), vec![label("turn_on")]);
}

#[test]
fn exact_name_is_matched() {
    let policy = MatchPolicy::new("turn");
    let labels = vec![label("turn_off"), label("turn_on")];
    let symbols = vec![global("other"), global("turn_on")];
    let found = match_symbols(&policy, &symbols, &labels);
    assert_eq!(found, vec![label("turn_on")]);
}

#[test]
fn exact_name_outside_the_namespace_is_not_matched() {
    let policy = MatchPolicy::default();
    let labels = vec![label("turn_lamp_on")];
    let symbols = vec![global("turn_lamp_on")];
    assert_eq!(match_symbols(&policy, &symbols, &labels), vec![]);
}

#[test]
fn closure_symbol_is_excluded() {
    let policy = MatchPolicy::default();
    let labels = vec![label("turn_lamp_on")];
    let plain = "sifis_api::service::SifisApiClient::turn_lamp_on";
    let closure = "sifis_api::service::SifisApiClient::turn_lamp_on::{{closure}}";
    assert!(text_contains(closure, "turn_lamp_on"));
    assert_eq!(match_symbols(&policy, &vec![global(closure)], &labels), vec![]);
    assert_eq!(
        match_symbols(&policy, &vec![global(plain)], &labels),
        vec![label("turn_lamp_on")]
    );
    assert_eq!(
        readable_names(&policy, &vec![global(closure), global(plain)]),
        vec![plain.to_string()]
    );
    let with_closure = vec![global(plain), global(closure)];
    let without = vec![global(plain)];
    assert_eq!(
        match_symbols(&policy, &with_closure, &labels),
        match_symbols(&policy, &without, &labels)
    );
}

#[test]
fn no_symbol_in_namespace_gives_no_label() {
    let policy = MatchPolicy::default();
    let labels = vec![label("turn_lamp_on"), label("main")];
    let symbols = vec![
        global("main"),
        global("core::fmt::write"),
        global("other::service::SifisApiClient::turn_lamp_on"),
        global("sifis_api::service::SifisApiClien"),
    ];
    assert_eq!(match_symbols(&policy, &symbols, &labels), vec![]);
    assert_eq!(match_symbols(&policy, &vec![], &labels), vec![]);
}

#[test]
fn local_symbols_count_only_where_the_policy_lets_them() {
    let labels = vec![label("turn_lamp_on")];
    let symbols = vec![local("sifis_api::service::SifisApiClient::turn_lamp_on")];
    let strict = MatchPolicy::default();
    assert_eq!(match_symbols(&strict, &symbols, &labels), vec![]);
    let lenient = MatchPolicy::default().require_global(false);
    assert_eq!(
        match_symbols(&lenient, &symbols, &labels),
        vec![label("turn_lamp_on")]
    );
}

#[test]
fn labels_come_in_catalog_order_not_in_symbol_order() {
    let policy = MatchPolicy::default();
    let labels = vec![label("turn_lamp_on"), label("get_brightness")];
    let symbols = vec![
        global("sifis_api::service::SifisApiClient::get_brightness"),
        global("sifis_api::service::SifisApiClient::turn_lamp_on"),
    ];
    assert_eq!(
        match_symbols(&policy, &symbols, &labels),
        vec![label("turn_lamp_on"), label("get_brightness")]
    );
    assert_eq!(
        report_symbols(&policy, &symbols, &labels),
        vec![label("turn_lamp_on"), label("get_brightness")]
    );
}

#[test]
fn each_label_comes_once_for_every_symbol_that_carries_its_name() {
    let policy = MatchPolicy::new("api::");
    let labels = vec![label("lamp"), label("turn"), label("on"), label("dim"), label("off")];
    let symbols = vec![
        global("api::turn_on"),
        global("other::turn_on"),
        global("api::turn_lamp_on"),
        global("api::dim"),
    ];
    let found = match_symbols(&policy, &symbols, &labels);
    assert_eq!(
        names(&found),
        vec!["lamp", "turn", "turn", "on", "on", "dim"]
    );
}

#[test]
fn two_symbols_with_one_name_give_its_label_twice() {
    let policy = MatchPolicy::new("api::");
    let labels = vec![label("turn_on")];
    let symbols = vec![global("api::turn_on"), global("api::Client::turn_on")];
    assert_eq!(
        match_symbols(&policy, &symbols, &labels),
        vec![label("turn_on"), label("turn_on")]
    );
}

#[test]
fn two_labels_with_one_name_both_match() {
    let policy = MatchPolicy::new("api::");
    let mut second = label("turn_on");
    second.api_description = "The same name again.".into();
    let labels = vec![label("turn_on"), second];
    let found = match_symbols(&policy, &vec![global("api::turn_on")], &labels);
    assert_eq!(found, labels);
}

#[test]
fn matched_labels_are_whole_copies() {
    let policy = MatchPolicy::new("api::");
    let labels = vec![label("turn_on")];
    let found = match_symbols(&policy, &vec![global("api::turn_on")], &labels);
    assert_eq!(found.len(), 1);
    assert_eq!(found[0].security_label.safety.len(), 2);
    assert_eq!(found[0].security_label.safety[1], None);
    assert_eq!(
        found[0].security_label.safety[0].as_ref().unwrap().risk_score,
        Some(RiskScore::Integer(2))
    );
    assert_eq!(found[0].security_label.privacy, vec![]);
    assert_eq!(
        found[0].security_label.financial[0].as_ref().unwrap().risk_score,
        None
    );
    assert_eq!(found[0].behavior_label, labels[0].behavior_label);
}

#[test]
fn symbol_without_name_matches_nothing() {
    let policy = MatchPolicy::new("");
    let labels = vec![label("")];
    let nameless = Symbol {
        raw_name: None,
        is_global: true,
    };
    assert_eq!(match_symbols(&policy, &vec![nameless], &labels), vec![]);
    assert_eq!(
        match_symbols(&policy, &vec![global("anything")], &labels),
        vec![label("")]
    );
}

#[test]
fn symbol_names_are_demangled_before_matching() {
    let policy = MatchPolicy::default();
    let labels = vec![label("turn_lamp_on")];
    let mangled =
        global("_ZN9sifis_api7service14SifisApiClient12turn_lamp_on17h0123456789abcdefE");
    assert_eq!(
        readable_names(&policy, &vec![global("main"), global(
            "_ZN9sifis_api7service14SifisApiClient12turn_lamp_on17h0123456789abcdefE"
        )]),
        vec!["sifis_api::service::SifisApiClient::turn_lamp_on".to_string()]
    );
    assert_eq!(
        match_symbols(&policy, &vec![mangled], &labels),
        vec![label("turn_lamp_on")]
    );
    let closure = global(
        "_ZN9sifis_api7service14SifisApiClient12turn_lamp_on28_$u7b$$u7b$closure$u7d$$u7d$17h0123456789abcdefE",
    );
    assert_eq!(match_symbols(&policy, &vec![closure], &labels), vec![]);
}

#[test]
fn labels_for_names_keep_catalog_order() {
    let labels = vec![label("b"), label("zz"), label("a"), label("ab")];
    let found = labels_for_names(&vec!["xabx".to_string()], &labels);
    assert_eq!(names(&found), vec!["b", "a", "ab"]);
    let found = labels_for_names(&vec!["a".to_string(), "xabx".to_string(), "b".to_string()], &labels);
    assert_eq!(names(&found), vec!["b", "b", "a", "a", "ab"]);
    assert_eq!(labels_for_names(&vec!["".to_string()], &labels), vec![]);
    assert_eq!(labels_for_names(&vec![], &labels), vec![]);
    assert_eq!(labels_for_names(&vec!["xabx".to_string()], &vec![]), vec![]);
}

#[test]
fn readable_names_are_those_of_the_symbols_that_count() {
    let policy = MatchPolicy::new("api::");
    let symbols = vec![
        global("api::b"),
        local("api::local"),
        global("other::a"),
        Symbol {
            raw_name: None,
            is_global: true,
        },
        global("api::a::{{closure}}"),
        global("api::a"),
        global("api::b"),
    ];
    assert_eq!(
        readable_names(&policy, &symbols),
        vec!["api::b".to_string(), "api::a".to_string(), "api::b".to_string()]
    );
    assert_eq!(readable_names(&policy, &vec![]), Vec::<String>::new());
}

#[test]
fn tracks_needs_prefix_and_no_marker() {
    let policy = MatchPolicy::new("api::").synthetic_marker("thunk");
    assert!(tracks(&policy, "api::turn_on", true));
    assert!(tracks(&policy, "api::", true));
    assert!(!tracks(&policy, "api:", true));
    assert!(!tracks(&policy, "xapi::turn_on", true));
    assert!(!tracks(&policy, "api::turn_on::thunk", true));
    assert!(tracks(&policy, "api::turn_on::closure", true));
    assert!(!tracks(&policy, "api::turn_on", false));
    assert!(tracks(&policy.require_global(false), "api::turn_on", false));
}

#[test]
fn text_contains_edge_cases() {
    assert!(text_contains("", ""));
    assert!(text_contains("abc", ""));
    assert!(!text_contains("", "a"));
    assert!(text_contains("abc", "abc"));
    assert!(!text_contains("abc", "abcd"));
    assert!(text_contains("abc", "c"));
    assert!(text_contains("abc", "a"));
    assert!(text_contains("aab", "ab"));
    assert!(!text_contains("abab", "abb"));
    assert!(text_contains("turn_on_extra", "turn_on"));
    assert!(!text_contains("turn_on", "turn_on_extra"));
    assert!(text_contains("lämpchen", "mpc"));
    assert!(text_contains("lämpchen", "ä"));
    assert!(!text_contains("lämpchen", "a"));
}

#[test]
fn text_starts_with_edge_cases() {
    assert!(text_starts_with("", ""));
    assert!(text_starts_with("abc", ""));
    assert!(text_starts_with("abc", "ab"));
    assert!(text_starts_with("abc", "abc"));
    assert!(!text_starts_with("abc", "abcd"));
    assert!(!text_starts_with("abc", "bc"));
    assert!(!text_starts_with("", "a"));
    assert!(text_starts_with("älter", "ä"));
}

#[test]
fn chars_of_gives_the_characters() {
    assert_eq!(chars_of(""), Vec::<char>::new());
    assert_eq!(chars_of("aä€"), vec!['a', 'ä', '€']);
    let text = chars_of("turn_on");
    assert!(chars_start_with(&text, &chars_of("turn")));
    assert!(chars_contain(&text, &chars_of("n_o")));
    assert!(!chars_contain(&text, &chars_of("no")));
}

#[test]
fn merging_keeps_the_first_label_of_each_name() {
    let policy = MatchPolicy::new("api::").keep_duplicates(false);
    let mut second_dim = label("dim");
    second_dim.api_description = "Dims once more.".into();
    let labels = vec![label("lamp"), label("turn"), label("dim"), label("on"), second_dim];
    let symbols = vec![
        global("api::turn_on"),
        global("api::turn_lamp_on"),
        global("api::dim"),
        global("api::dim_lamp"),
    ];
    assert_eq!(
        names(&match_symbols(&policy, &symbols, &labels)),
        vec!["lamp", "lamp", "turn", "turn", "dim", "dim", "on", "on", "dim", "dim"]
    );
    let reported = report_symbols(&policy, &symbols, &labels);
    assert_eq!(names(&reported), vec!["lamp", "turn", "dim", "on"]);
    assert_eq!(reported[2], label("dim"));
    let keeping = policy.keep_duplicates(true);
    assert_eq!(
        report_symbols(&keeping, &symbols, &labels),
        match_symbols(&keeping, &symbols, &labels)
    );
}

#[test]
fn merging_goes_by_name_alone() {
    let mut second = label("turn_on");
    second.api_description = "The same name again.".into();
    let labels = vec![label("b"), label("turn_on"), second, label("b"), label("a")];
    assert_eq!(
        merge_by_name(&labels),
        vec![label("b"), label("turn_on"), label("a")]
    );
    assert_eq!(merge_by_name(&vec![]), vec![]);
    assert_eq!(merge_by_name(&vec![label("a")]), vec![label("a")]);
    assert_eq!(
        merge_by_name(&vec![label("a"), label("a"), label("a")]),
        vec![label("a")]
    );
}
