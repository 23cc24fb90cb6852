//! Manifests written as JSON documents, and what reading them back gives.

use vstd::prelude::*;
use vstd::string::StringExecFns;

use crate::app_label::{AppLabel, AppLabelView};
use crate::document::{
    behavior_member, functionalities, functionality_of, hazard_entries, hazard_entry, hazard_of,
    hazards_member, kinds_of, label_of, labels, manifest_read, member, CatalogShape,
};
use crate::error::{Error, Result};
use crate::json::{
    document_text, lemma_all_read, lemma_array_view, lemma_object_view, members_of, names_differ,
    render_well_named, trees_of, well_named, Json, JsonView,
};
use crate::laws::lemma_reported_labels_are_of_catalog;
use crate::matcher::{reported_labels, MatchPolicyView};
use crate::producer::manifest_of;
use crate::score::{
    labels_are_sound, lemma_score_round_trip, score_is_sound, score_text, sound_hazards,
    sound_label, sound_labels, write_score,
};
use crate::sifis_api::{
    ApiLabel, ApiLabelView, Functionality, FunctionalityView, Hazard, HazardView, HazardsKinds,
    HazardsKindsView, RiskScoreView, SifisApiView,
};
use crate::symbols::SymbolView;

verus! {

/// A risk score in a document: its number, or `null` where there is none.
pub open spec fn score_tree(score: Option<RiskScoreView>) -> JsonView {
    match score {
        Some(score) => JsonView::Number(score_text(score)),
        None => JsonView::Null,
    }
}

/// A hazard in a document.
pub open spec fn hazard_tree(hazard: HazardView) -> JsonView {
    JsonView::Object(
        seq![
            ("name"@, JsonView::Text(hazard.name)),
            ("description"@, JsonView::Text(hazard.description)),
            ("risk_score"@, score_tree(hazard.risk_score)),
        ],
    )
}

/// One place of a category in a document: the hazard, or `null` for an
/// absent one.
pub open spec fn entry_tree(entry: Option<HazardView>) -> JsonView {
    match entry {
        Some(hazard) => hazard_tree(hazard),
        None => JsonView::Null,
    }
}

/// A category in a document, place by place.
pub open spec fn hazards_tree(hazards: Seq<Option<HazardView>>) -> JsonView {
    JsonView::Array(Seq::new(hazards.len(), |i: int| entry_tree(hazards[i])))
}

/// A security label in a document: the three categories, each under its name.
pub open spec fn kinds_tree(kinds: HazardsKindsView) -> JsonView {
    JsonView::Object(
        seq![
            ("safety"@, hazards_tree(kinds.safety)),
            ("privacy"@, hazards_tree(kinds.privacy)),
            ("financial"@, hazards_tree(kinds.financial)),
        ],
    )
}

/// A functionality in a document.
pub open spec fn functionality_tree(functionality: FunctionalityView) -> JsonView {
    JsonView::Object(
        seq![
            ("device_type"@, JsonView::Text(functionality.device_type)),
            ("action"@, JsonView::Text(functionality.action)),
        ],
    )
}

/// A behaviour label in a document, item by item.
pub open spec fn behavior_tree(behavior: Seq<FunctionalityView>) -> JsonView {
    JsonView::Array(Seq::new(behavior.len(), |i: int| functionality_tree(behavior[i])))
}

/// An API label in a document, in the labelled shape.
pub open spec fn label_tree(label: ApiLabelView) -> JsonView {
    JsonView::Object(
        seq![
            ("api_name"@, JsonView::Text(label.api_name)),
            ("api_description"@, JsonView::Text(label.api_description)),
            ("behavior_label"@, behavior_tree(label.behavior_label)),
            ("security_label"@, kinds_tree(label.security_label)),
        ],
    )
}

/// A list of API labels in a document, label by label.
pub open spec fn labels_tree(api_labels: Seq<ApiLabelView>) -> JsonView {
    JsonView::Array(Seq::new(api_labels.len(), |i: int| label_tree(api_labels[i])))
}

/// A manifest as a document.
pub open spec fn manifest_tree(manifest: AppLabelView) -> JsonView {
    JsonView::Object(
        seq![
            ("app_name"@, JsonView::Text(manifest.app_name)),
            ("app_description"@, JsonView::Text(manifest.app_description)),
            ("sifis_version"@, JsonView::Text(manifest.sifis_version)),
            ("api_labels"@, labels_tree(manifest.api_labels)),
        ],
    )
}

/// A member of an object is found under its name where no later member has
/// the same name.
proof fn lemma_member_at(members: Seq<(Seq<char>, JsonView)>, i: int)
    requires
        0 <= i < members.len(),
        forall|j: int| i < j < members.len() ==> members[j].0 != members[i].0,
    ensures
        member(members, members[i].0) == Some(members[i].1),
    decreases members.len(),
{
    if i < members.len() - 1 {
        let rest = members.drop_last();
        assert(rest[i] == members[i]);
        assert forall|j: int| i < j < rest.len() implies rest[j].0 != rest[i].0 by {
            assert(rest[j] == members[j]);
        }
        lemma_member_at(rest, i);
    }
}

/// The names of the members that a document of a manifest uses are all
/// different from one another, object by object.
proof fn lemma_names_differ()
    ensures
        "name"@ != "description"@,
        "name"@ != "risk_score"@,
        "description"@ != "risk_score"@,
        "safety"@ != "privacy"@,
        "safety"@ != "financial"@,
        "privacy"@ != "financial"@,
        "device_type"@ != "action"@,
        "api_name"@ != "api_description"@,
        "api_name"@ != "behavior_label"@,
        "api_name"@ != "security_label"@,
        "api_description"@ != "behavior_label"@,
        "api_description"@ != "security_label"@,
        "behavior_label"@ != "security_label"@,
        "app_name"@ != "app_description"@,
        "app_name"@ != "sifis_version"@,
        "app_name"@ != "api_labels"@,
        "app_description"@ != "sifis_version"@,
        "app_description"@ != "api_labels"@,
        "sifis_version"@ != "api_labels"@,
{
    reveal_strlit("name");
    reveal_strlit("description");
    reveal_strlit("risk_score");
    reveal_strlit("safety");
    reveal_strlit("privacy");
    reveal_strlit("financial");
    reveal_strlit("device_type");
    reveal_strlit("action");
    reveal_strlit("api_name");
    reveal_strlit("api_description");
    reveal_strlit("behavior_label");
    reveal_strlit("security_label");
    reveal_strlit("app_name");
    reveal_strlit("app_description");
    reveal_strlit("sifis_version");
    reveal_strlit("api_labels");
    assert("name"@.len() != "description"@.len());
    assert("name"@.len() != "risk_score"@.len());
    assert("description"@.len() != "risk_score"@.len());
    assert("safety"@.len() != "privacy"@.len());
    assert("safety"@.len() != "financial"@.len());
    assert("privacy"@.len() != "financial"@.len());
    assert("device_type"@.len() != "action"@.len());
    assert("api_name"@.len() != "api_description"@.len());
    assert("api_name"@.len() != "behavior_label"@.len());
    assert("api_name"@.len() != "security_label"@.len());
    assert("api_description"@.len() != "behavior_label"@.len());
    assert("api_description"@.len() != "security_label"@.len());
    assert("app_name"@.len() != "app_description"@.len());
    assert("app_name"@.len() != "sifis_version"@.len());
    assert("app_name"@.len() != "api_labels"@.len());
    assert("app_description"@.len() != "sifis_version"@.len());
    assert("app_description"@.len() != "api_labels"@.len());
    assert("sifis_version"@.len() != "api_labels"@.len());
    assert("behavior_label"@[0] != "security_label"@[0]);
}

/// A hazard with a sound score reads back from its document as it was.
pub proof fn lemma_hazard_round_trip(hazard: HazardView)
    requires
        hazard.risk_score matches Some(score) ==> score_is_sound(score),
    ensures
        hazard_of(hazard_tree(hazard)) == Some(hazard),
        hazard_entry(CatalogShape::Labelled, entry_tree(Some(hazard))) == Some(Some(hazard)),
{
    lemma_names_differ();
    let members = hazard_tree(hazard)->Object_0;
    lemma_member_at(members, 0);
    lemma_member_at(members, 1);
    lemma_member_at(members, 2);
    if let Some(score) = hazard.risk_score {
        lemma_score_round_trip(score, Seq::empty());
    }
}

/// A category with sound scores reads back from its document as it was.
proof fn lemma_hazards_round_trip(
    members: Seq<(Seq<char>, JsonView)>,
    name: Seq<char>,
    hazards: Seq<Option<HazardView>>,
)
    requires
        sound_hazards(hazards),
        member(members, name) == Some(hazards_tree(hazards)),
    ensures
        hazards_member(CatalogShape::Labelled, members, name) == Some(hazards),
{
    let items = hazards_tree(hazards)->Array_0;
    let entries = hazard_entries(CatalogShape::Labelled, items);
    assert forall|i: int| 0 <= i < entries.len() implies entries[i] == Some(hazards[i]) by {
        if let Some(hazard) = hazards[i] {
            lemma_hazard_round_trip(hazard);
        }
    }
    lemma_all_read(entries, hazards);
}

/// A functionality reads back from its document as it was.
pub proof fn lemma_functionality_round_trip(functionality: FunctionalityView)
    ensures
        functionality_of(functionality_tree(functionality)) == Some(functionality),
{
    lemma_names_differ();
    let members = functionality_tree(functionality)->Object_0;
    lemma_member_at(members, 0);
    lemma_member_at(members, 1);
}

/// A label with sound scores reads back from its document as it was.
pub proof fn lemma_label_round_trip(label: ApiLabelView)
    requires
        sound_label(label),
    ensures
        label_of(CatalogShape::Labelled, label_tree(label)) == Some(label),
{
    lemma_names_differ();
    let members = label_tree(label)->Object_0;
    lemma_member_at(members, 0);
    lemma_member_at(members, 1);
    lemma_member_at(members, 2);
    lemma_member_at(members, 3);
    let items = behavior_tree(label.behavior_label)->Array_0;
    let entries = functionalities(items);
    assert forall|i: int| 0 <= i < entries.len() implies entries[i] == Some(
        label.behavior_label[i],
    ) by {
        lemma_functionality_round_trip(label.behavior_label[i]);
    }
    lemma_all_read(entries, label.behavior_label);
    assert(behavior_member(CatalogShape::Labelled, members) == Some(label.behavior_label));
    let kinds = kinds_tree(label.security_label)->Object_0;
    lemma_member_at(kinds, 0);
    lemma_member_at(kinds, 1);
    lemma_member_at(kinds, 2);
    lemma_hazards_round_trip(kinds, "safety"@, label.security_label.safety);
    lemma_hazards_round_trip(kinds, "privacy"@, label.security_label.privacy);
    lemma_hazards_round_trip(kinds, "financial"@, label.security_label.financial);
    assert(kinds_of(CatalogShape::Labelled, kinds_tree(label.security_label)) == Some(
        label.security_label,
    ));
}

/// A manifest with sound scores reads back from its document as it was,
/// field for field.
pub proof fn lemma_manifest_round_trip(manifest: AppLabelView)
    requires
        sound_labels(manifest.api_labels),
    ensures
        manifest_read(manifest_tree(manifest)) == Some(manifest),
{
    lemma_names_differ();
    let members = manifest_tree(manifest)->Object_0;
    lemma_member_at(members, 0);
    lemma_member_at(members, 1);
    lemma_member_at(members, 2);
    lemma_member_at(members, 3);
    let items = labels_tree(manifest.api_labels)->Array_0;
    let entries = labels(CatalogShape::Labelled, items);
    assert forall|i: int| 0 <= i < entries.len() implies entries[i] == Some(
        manifest.api_labels[i],
    ) by {
        lemma_label_round_trip(manifest.api_labels[i]);
    }
    lemma_all_read(entries, manifest.api_labels);
}

/// Serializing a manifest to the output document and reading it back gives
/// the manifest again, for every manifest that is made from a symbol table and
/// a catalog with sound scores, as every catalog read from a document is.
pub proof fn lemma_produced_manifest_round_trip(
    policy: MatchPolicyView,
    symbols: Seq<SymbolView>,
    catalog: SifisApiView,
)
    requires
        sound_labels(catalog.api_labels),
    ensures
        manifest_read(manifest_tree(manifest_of(policy, symbols, catalog))) == Some(
            manifest_of(policy, symbols, catalog),
        ),
{
    let found = reported_labels(policy, symbols, catalog.api_labels);
    assert forall|k: int| 0 <= k < found.len() implies sound_label(#[trigger] found[k]) by {
        lemma_reported_labels_are_of_catalog(policy, symbols, catalog.api_labels, k);
        let at = choose|at: int|
            0 <= at < catalog.api_labels.len() && catalog.api_labels[at] == found[k];
        assert(sound_label(catalog.api_labels[at]));
    }
    lemma_manifest_round_trip(manifest_of(policy, symbols, catalog));
}

/// A member of an object, under its name.
fn named(name: &str, json: Json) -> (pair: (String, Json))
    ensures
        pair.0@ == name@,
        pair.1 == json,
{
    (String::from_str(name), json)
}

/// Writes a hazard.
fn hazard_json(hazard: &Hazard) -> (json: Json)
    ensures
        json@ == hazard_tree(hazard@),
{
    let score = match &hazard.risk_score {
        Some(score) => Json::Number(write_score(score)),
        None => Json::Null,
    };
    let mut members: Vec<(String, Json)> = Vec::new();
    members.push(named("name", Json::Text(hazard.name.clone())));
    members.push(named("description", Json::Text(hazard.description.clone())));
    members.push(named("risk_score", score));
    let ghost held = members@;
    let json = Json::Object(members);
    proof {
        lemma_object_view(json);
        assert(members_of(held) =~= hazard_tree(hazard@)->Object_0);
    }
    json
}

/// Writes a category, place by place.
fn hazards_json(hazards: &Vec<Option<Hazard>>) -> (json: Json)
    ensures
        json@ == hazards_tree(hazards.deep_view()),
{
    let mut items: Vec<Json> = Vec::new();
    let mut i: usize = 0;
    while i < hazards.len()
        invariant
            i <= hazards.len(),
            items.len() == i,
            forall|j: int|
                0 <= j < i ==> (#[trigger] items@[j])@ == entry_tree(hazards@[j].deep_view()),
        decreases hazards.len() - i,
    {
        let item = match &hazards[i] {
            Some(hazard) => hazard_json(hazard),
            None => Json::Null,
        };
        items.push(item);
        i += 1;
    }
    let ghost held = items@;
    let json = Json::Array(items);
    proof {
        lemma_array_view(json);
        assert(trees_of(held) =~= hazards_tree(hazards.deep_view())->Array_0);
    }
    json
}

/// Writes a security label.
fn kinds_json(kinds: &HazardsKinds) -> (json: Json)
    ensures
        json@ == kinds_tree(kinds@),
{
    let mut members: Vec<(String, Json)> = Vec::new();
    members.push(named("safety", hazards_json(&kinds.safety)));
    members.push(named("privacy", hazards_json(&kinds.privacy)));
    members.push(named("financial", hazards_json(&kinds.financial)));
    let ghost held = members@;
    let json = Json::Object(members);
    proof {
        lemma_object_view(json);
        assert(members_of(held) =~= kinds_tree(kinds@)->Object_0);
    }
    json
}

/// Writes a functionality.
fn functionality_json(functionality: &Functionality) -> (json: Json)
    ensures
        json@ == functionality_tree(functionality@),
{
    let mut members: Vec<(String, Json)> = Vec::new();
    members.push(named("device_type", Json::Text(functionality.device_type.clone())));
    members.push(named("action", Json::Text(functionality.action.clone())));
    let ghost held = members@;
    let json = Json::Object(members);
    proof {
        lemma_object_view(json);
        assert(members_of(held) =~= functionality_tree(functionality@)->Object_0);
    }
    json
}

/// Writes a behaviour label, item by item.
fn behavior_json(behavior: &Vec<Functionality>) -> (json: Json)
    ensures
        json@ == behavior_tree(behavior.deep_view()),
{
    let mut items: Vec<Json> = Vec::new();
    let mut i: usize = 0;
    while i < behavior.len()
        invariant
            i <= behavior.len(),
            items.len() == i,
            forall|j: int|
                0 <= j < i ==> (#[trigger] items@[j])@ == functionality_tree(behavior@[j]@),
        decreases behavior.len() - i,
    {
        items.push(functionality_json(&behavior[i]));
        i += 1;
    }
    let ghost held = items@;
    let json = Json::Array(items);
    proof {
        lemma_array_view(json);
        assert(trees_of(held) =~= behavior_tree(behavior.deep_view())->Array_0);
    }
    json
}

/// Writes an API label, in the labelled shape.
pub fn label_json(label: &ApiLabel) -> (json: Json)
    ensures
        json@ == label_tree(label@),
{
    let mut members: Vec<(String, Json)> = Vec::new();
    members.push(named("api_name", Json::Text(label.api_name.clone())));
    members.push(named("api_description", Json::Text(label.api_description.clone())));
    members.push(named("behavior_label", behavior_json(&label.behavior_label)));
    members.push(named("security_label", kinds_json(&label.security_label)));
    let ghost held = members@;
    let json = Json::Object(members);
    proof {
        lemma_object_view(json);
        assert(members_of(held) =~= label_tree(label@)->Object_0);
    }
    json
}

/// Writes a list of API labels, label by label.
fn labels_json(api_labels: &Vec<ApiLabel>) -> (json: Json)
    ensures
        json@ == labels_tree(api_labels.deep_view()),
{
    let mut items: Vec<Json> = Vec::new();
    let mut i: usize = 0;
    while i < api_labels.len()
        invariant
            i <= api_labels.len(),
            items.len() == i,
            forall|j: int| 0 <= j < i ==> (#[trigger] items@[j])@ == label_tree(api_labels@[j]@),
        decreases api_labels.len() - i,
    {
        items.push(label_json(&api_labels[i]));
        i += 1;
    }
    let ghost held = items@;
    let json = Json::Array(items);
    proof {
        lemma_array_view(json);
        assert(trees_of(held) =~= labels_tree(api_labels.deep_view())->Array_0);
    }
    json
}

/// Writes a manifest as a document: the four members in the order
/// `app_name`, `app_description`, `sifis_version`, `api_labels`, and every
/// label with all that it holds, absent hazards as `null`.
pub fn manifest_json(manifest: &AppLabel) -> (json: Json)
    ensures
        json@ == manifest_tree(manifest@),
{
    let mut members: Vec<(String, Json)> = Vec::new();
    members.push(named("app_name", Json::Text(manifest.app_name.clone())));
    members.push(named("app_description", Json::Text(manifest.app_description.clone())));
    members.push(named("sifis_version", Json::Text(manifest.sifis_version.clone())));
    members.push(named("api_labels", labels_json(&manifest.api_labels)));
    let ghost held = members@;
    let json = Json::Object(members);
    proof {
        lemma_object_view(json);
        assert(members_of(held) =~= manifest_tree(manifest@)->Object_0);
    }
    json
}

/// In the document of a category no object has two members of one name.
proof fn lemma_hazards_tree_is_well_named(hazards: Seq<Option<HazardView>>)
    ensures
        well_named(hazards_tree(hazards)),
{
    lemma_names_differ();
    let items = hazards_tree(hazards)->Array_0;
    assert forall|i: int| 0 <= i < items.len() implies well_named(#[trigger] items[i]) by {
        if let Some(hazard) = hazards[i] {
            let members = hazard_tree(hazard)->Object_0;
            assert(names_differ(members));
            assert forall|k: int| 0 <= k < members.len() implies well_named(
                (#[trigger] members[k]).1,
            ) by {}
        }
    }
}

/// In the document of a label no object has two members of one name.
proof fn lemma_label_tree_is_well_named(label: ApiLabelView)
    ensures
        well_named(label_tree(label)),
{
    lemma_names_differ();
    let behavior = behavior_tree(label.behavior_label);
    assert forall|i: int| 0 <= i < behavior->Array_0.len() implies well_named(
        #[trigger] behavior->Array_0[i],
    ) by {
        let members = functionality_tree(label.behavior_label[i])->Object_0;
        assert(names_differ(members));
        assert forall|k: int| 0 <= k < members.len() implies well_named(
            (#[trigger] members[k]).1,
        ) by {}
    }
    assert(well_named(behavior));
    let kinds = kinds_tree(label.security_label);
    lemma_hazards_tree_is_well_named(label.security_label.safety);
    lemma_hazards_tree_is_well_named(label.security_label.privacy);
    lemma_hazards_tree_is_well_named(label.security_label.financial);
    assert(names_differ(kinds->Object_0));
    assert forall|k: int| 0 <= k < kinds->Object_0.len() implies well_named(
        (#[trigger] kinds->Object_0[k]).1,
    ) by {}
    assert(well_named(kinds));
    let members = label_tree(label)->Object_0;
    assert(names_differ(members));
    assert forall|k: int| 0 <= k < members.len() implies well_named((#[trigger] members[k]).1) by {}
}

/// In the document of a manifest no object has two members of one name.
pub proof fn lemma_manifest_tree_is_well_named(manifest: AppLabelView)
    ensures
        well_named(manifest_tree(manifest)),
{
    lemma_names_differ();
    let list = labels_tree(manifest.api_labels);
    assert forall|i: int| 0 <= i < list->Array_0.len() implies well_named(
        #[trigger] list->Array_0[i],
    ) by {
        lemma_label_tree_is_well_named(manifest.api_labels[i]);
    }
    assert(well_named(list));
    let members = manifest_tree(manifest)->Object_0;
    assert(names_differ(members));
    assert forall|k: int| 0 <= k < members.len() implies well_named((#[trigger] members[k]).1) by {}
}

/// Writes a manifest as the text of a JSON document, on one line or laid out
/// for reading: the text that the JSON writer makes of the document of the
/// manifest. A manifest is written only where its document reads back as the
/// manifest itself: one with a score that is not sound, a whole number from
/// 0 to 255 kept as text, is refused. Where the writer makes no text, as for
/// a score whose text is no number, there is none either. Both give
/// [`Error::JsonOutput`].
pub fn manifest_text(manifest: &AppLabel, pretty: bool) -> (written: Result<String>)
    ensures
        match written {
            Ok(text) => {
                &&& sound_labels(manifest@.api_labels)
                &&& document_text(manifest_tree(manifest@), pretty) == Some(text@)
                &&& manifest_read(manifest_tree(manifest@)) == Some(manifest@)
            },
            Err(error) => error is JsonOutput && (!sound_labels(manifest@.api_labels)
                || document_text(manifest_tree(manifest@), pretty) is None),
        },
{
    if !labels_are_sound(&manifest.api_labels) {
        return Err(
            Error::JsonOutput(
                String::from_str("a risk score of the manifest is a small number kept as text"),
            ),
        );
    }
    proof {
        lemma_manifest_tree_is_well_named(manifest@);
        lemma_manifest_round_trip(manifest@);
    }
    render_well_named(&manifest_json(manifest), pretty)
}

} // verus!
