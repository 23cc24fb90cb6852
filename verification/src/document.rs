//! Catalogs and manifests as JSON documents.
//!
//! A catalog is an object with a `version` and a list of `api_labels`. Two
//! shapes of label are known. A labelled one has `api_name`,
//! `api_description`, `behavior_label` and `security_label`, and a hazard in
//! it may be `null`. A flat one has `api_name`, `description` and
//! `security_label`, and every hazard in it is there. A document is read as
//! labelled first and as flat if that fails. Members that neither shape knows
//! are passed over; where a name occurs twice, the later member counts.
//!
//! A manifest is written with the labels in the labelled shape.

use vstd::prelude::*;
use vstd::string::StringExecFns;

use crate::app_label::{AppLabel, AppLabelView};
use crate::error::{Error, Result};
use crate::json::{
    all_read, json_document, lemma_all_read, lemma_array_view, lemma_not_all_read,
    lemma_object_view, members_of, parse_json, trees_of, Json, JsonView,
};
use crate::score::{
    lemma_score_round_trip, read_score, score_is_sound, score_of, sound_hazards, sound_label,
    sound_labels,
};
use crate::sifis_api::{
    ApiLabel, ApiLabelView, Functionality, FunctionalityView, Hazard, HazardView, HazardsKinds,
    HazardsKindsView, RiskScore, RiskScoreView, SifisApi, SifisApiView,
};

verus! {

/// The two shapes of a catalog.
#[derive(Debug, Clone, Copy, PartialEq, Eq, Structural)]
pub enum CatalogShape {
    /// With behaviour labels, and hazards that may be absent
    Labelled,
    /// Without behaviour labels, and every hazard there
    Flat,
}

/// The member of an object that has the name `name`: the last one, where
/// there are several.
pub open spec fn member(
    members: Seq<(Seq<char>, JsonView)>,
    name: Seq<char>,
) -> Option<JsonView>
    decreases members.len(),
{
    if members.len() == 0 {
        None
    } else if members.last().0 == name {
        Some(members.last().1)
    } else {
        member(members.drop_last(), name)
    }
}

/// The member `name`, where it is a string.
pub open spec fn text_member(
    members: Seq<(Seq<char>, JsonView)>,
    name: Seq<char>,
) -> Option<Seq<char>> {
    match member(members, name) {
        Some(JsonView::Text(text)) => Some(text),
        _ => None,
    }
}

/// The items of the member `name`, where it is an array.
pub open spec fn array_member(
    members: Seq<(Seq<char>, JsonView)>,
    name: Seq<char>,
) -> Option<Seq<JsonView>> {
    match member(members, name) {
        Some(JsonView::Array(items)) => Some(items),
        _ => None,
    }
}

/// The member `risk_score` of a hazard: no score where it is missing or
/// `null`, the score of a number, and nothing else.
pub open spec fn score_member(
    members: Seq<(Seq<char>, JsonView)>,
) -> Option<Option<RiskScoreView>> {
    match member(members, "risk_score"@) {
        None => Some(None),
        Some(JsonView::Null) => Some(None),
        Some(JsonView::Number(text)) => Some(Some(score_of(text))),
        Some(_) => None,
    }
}

/// The hazard that a tree stands for: an object with a `name`, a
/// `description` and perhaps a `risk_score`.
pub open spec fn hazard_of(tree: JsonView) -> Option<HazardView> {
    match tree {
        JsonView::Object(members) => match (
            text_member(members, "name"@),
            text_member(members, "description"@),
            score_member(members),
        ) {
            (Some(name), Some(description), Some(risk_score)) => Some(
                HazardView { name, description, risk_score },
            ),
            _ => None,
        },
        _ => None,
    }
}

/// One place in a category: a hazard, or in a labelled catalog `null` for an
/// absent one.
pub open spec fn hazard_entry(shape: CatalogShape, tree: JsonView) -> Option<Option<HazardView>> {
    match tree {
        JsonView::Null => if shape == CatalogShape::Labelled {
            Some(None)
        } else {
            None
        },
        _ => match hazard_of(tree) {
            Some(hazard) => Some(Some(hazard)),
            None => None,
        },
    }
}

/// What each item of a category reads as.
pub open spec fn hazard_entries(shape: CatalogShape, items: Seq<JsonView>) -> Seq<
    Option<Option<HazardView>>,
> {
    Seq::new(items.len(), |i: int| hazard_entry(shape, items[i]))
}

/// The category `name` of a security label, every place in its order.
pub open spec fn hazards_member(
    shape: CatalogShape,
    members: Seq<(Seq<char>, JsonView)>,
    name: Seq<char>,
) -> Option<Seq<Option<HazardView>>> {
    match array_member(members, name) {
        Some(items) => all_read(hazard_entries(shape, items)),
        None => None,
    }
}

/// The security label that a tree stands for: an object with the three
/// categories `safety`, `privacy` and `financial`.
pub open spec fn kinds_of(shape: CatalogShape, tree: JsonView) -> Option<HazardsKindsView> {
    match tree {
        JsonView::Object(members) => match (
            hazards_member(shape, members, "safety"@),
            hazards_member(shape, members, "privacy"@),
            hazards_member(shape, members, "financial"@),
        ) {
            (Some(safety), Some(privacy), Some(financial)) => Some(
                HazardsKindsView { safety, privacy, financial },
            ),
            _ => None,
        },
        _ => None,
    }
}

/// The functionality that a tree stands for: an object with a `device_type`
/// and an `action`.
pub open spec fn functionality_of(tree: JsonView) -> Option<FunctionalityView> {
    match tree {
        JsonView::Object(members) => match (
            text_member(members, "device_type"@),
            text_member(members, "action"@),
        ) {
            (Some(device_type), Some(action)) => Some(FunctionalityView { device_type, action }),
            _ => None,
        },
        _ => None,
    }
}

/// What each item of a behaviour label reads as.
pub open spec fn functionalities(items: Seq<JsonView>) -> Seq<Option<FunctionalityView>> {
    Seq::new(items.len(), |i: int| functionality_of(items[i]))
}

/// The behaviour label of an API label: the member `behavior_label` of a
/// labelled one, and none for a flat one.
pub open spec fn behavior_member(
    shape: CatalogShape,
    members: Seq<(Seq<char>, JsonView)>,
) -> Option<Seq<FunctionalityView>> {
    if shape == CatalogShape::Flat {
        Some(Seq::empty())
    } else {
        match array_member(members, "behavior_label"@) {
            Some(items) => all_read(functionalities(items)),
            None => None,
        }
    }
}

/// The name of the member that describes an API.
pub open spec fn description_name(shape: CatalogShape) -> Seq<char> {
    if shape == CatalogShape::Labelled {
        "api_description"@
    } else {
        "description"@
    }
}

/// The API label that a tree stands for in a catalog of the given shape.
pub open spec fn label_of(shape: CatalogShape, tree: JsonView) -> Option<ApiLabelView> {
    match tree {
        JsonView::Object(members) => match (
            text_member(members, "api_name"@),
            text_member(members, description_name(shape)),
            behavior_member(shape, members),
            member(members, "security_label"@),
        ) {
            (Some(api_name), Some(api_description), Some(behavior_label), Some(security)) => {
                match kinds_of(shape, security) {
                    Some(security_label) => Some(
                        ApiLabelView {
                            api_name,
                            api_description,
                            behavior_label,
                            security_label,
                        },
                    ),
                    None => None,
                }
            },
            _ => None,
        },
        _ => None,
    }
}

/// What each item of a list of API labels reads as.
pub open spec fn labels(shape: CatalogShape, items: Seq<JsonView>) -> Seq<Option<ApiLabelView>> {
    Seq::new(items.len(), |i: int| label_of(shape, items[i]))
}

/// The member `api_labels`, every label in its order.
pub open spec fn labels_member(
    shape: CatalogShape,
    members: Seq<(Seq<char>, JsonView)>,
) -> Option<Seq<ApiLabelView>> {
    match array_member(members, "api_labels"@) {
        Some(items) => all_read(labels(shape, items)),
        None => None,
    }
}

/// The catalog that a tree stands for when it is read in the given shape.
pub open spec fn catalog_as(shape: CatalogShape, tree: JsonView) -> Option<SifisApiView> {
    match tree {
        JsonView::Object(members) => match (
            text_member(members, "version"@),
            labels_member(shape, members),
        ) {
            (Some(version), Some(api_labels)) => Some(SifisApiView { version, api_labels }),
            _ => None,
        },
        _ => None,
    }
}

/// The catalog that a tree stands for: what it reads as in the labelled
/// shape, else what it reads as in the flat one.
pub open spec fn catalog_of(tree: JsonView) -> Option<SifisApiView> {
    match catalog_as(CatalogShape::Labelled, tree) {
        Some(catalog) => Some(catalog),
        None => catalog_as(CatalogShape::Flat, tree),
    }
}

/// The manifest that a tree stands for: an object with `app_name`,
/// `app_description`, `sifis_version` and labelled `api_labels`.
pub open spec fn manifest_read(tree: JsonView) -> Option<AppLabelView> {
    match tree {
        JsonView::Object(members) => match (
            text_member(members, "app_name"@),
            text_member(members, "app_description"@),
            text_member(members, "sifis_version"@),
            labels_member(CatalogShape::Labelled, members),
        ) {
            (Some(app_name), Some(app_description), Some(sifis_version), Some(api_labels)) => Some(
                AppLabelView { app_name, app_description, sifis_version, api_labels },
            ),
            _ => None,
        },
        _ => None,
    }
}

/// What was read from a category has sound scores.
proof fn lemma_read_hazards_are_sound(
    shape: CatalogShape,
    members: Seq<(Seq<char>, JsonView)>,
    name: Seq<char>,
)
    ensures
        hazards_member(shape, members, name) matches Some(hazards) ==> sound_hazards(hazards),
{
    if let Some(hazards) = hazards_member(shape, members, name) {
        let items = array_member(members, name)->0;
        let entries = hazard_entries(shape, items);
        assert forall|i: int| 0 <= i < hazards.len() implies ((#[trigger] hazards[i]) matches Some(
            hazard,
        ) ==> (hazard.risk_score matches Some(score) ==> score_is_sound(score))) by {
            assert(entries[i] is Some);
            assert(hazards[i] == entries[i]->0);
            if let Some(hazard) = hazards[i] {
                if let Some(score) = hazard.risk_score {
                    let held = items[i]->Object_0;
                    let text = member(held, "risk_score"@)->0->Number_0;
                    lemma_score_round_trip(score, text);
                }
            }
        }
    }
}

/// A label that was read from a document has sound scores, whatever the
/// shape it was read in.
pub proof fn lemma_read_label_is_sound(shape: CatalogShape, tree: JsonView)
    ensures
        label_of(shape, tree) matches Some(label) ==> sound_label(label),
{
    if let Some(label) = label_of(shape, tree) {
        let members = tree->Object_0;
        let kinds = member(members, "security_label"@)->0->Object_0;
        lemma_read_hazards_are_sound(shape, kinds, "safety"@);
        lemma_read_hazards_are_sound(shape, kinds, "privacy"@);
        lemma_read_hazards_are_sound(shape, kinds, "financial"@);
    }
}

/// A catalog that was read from a document has sound scores in all its
/// labels, whatever the shape it was read in.
pub proof fn lemma_read_catalog_is_sound(shape: CatalogShape, tree: JsonView)
    ensures
        catalog_as(shape, tree) matches Some(catalog) ==> sound_labels(catalog.api_labels),
{
    if let Some(catalog) = catalog_as(shape, tree) {
        let members = tree->Object_0;
        let items = array_member(members, "api_labels"@)->0;
        let entries = labels(shape, items);
        assert forall|i: int| 0 <= i < catalog.api_labels.len() implies sound_label(
            #[trigger] catalog.api_labels[i],
        ) by {
            assert(entries[i] is Some);
            assert(catalog.api_labels[i] == entries[i]->0);
            lemma_read_label_is_sound(shape, items[i]);
        }
    }
}

/// The member with the name `name`.
fn find<'a>(members: &'a Vec<(String, Json)>, name: &str) -> (found: Option<&'a Json>)
    ensures
        match found {
            Some(json) => member(members_of(members@), name@) == Some(json@),
            None => member(members_of(members@), name@) is None,
        },
{
    let wanted = String::from_str(name);
    let mut found: Option<&'a Json> = None;
    let mut i: usize = 0;
    assert(members_of(members@).take(0) =~= Seq::empty());
    while i < members.len()
        invariant
            i <= members.len(),
            wanted@ == name@,
            match found {
                Some(json) => member(members_of(members@).take(i as int), name@) == Some(json@),
                None => member(members_of(members@).take(i as int), name@) is None,
            },
        decreases members.len() - i,
    {
        proof {
            let next = members_of(members@).take(i + 1);
            assert(next.drop_last() =~= members_of(members@).take(i as int));
            assert(next.last() == (members@[i as int].0@, members@[i as int].1@));
        }
        if members[i].0 == wanted {
            found = Some(&members[i].1);
        }
        i += 1;
    }
    assert(members_of(members@).take(members.len() as int) =~= members_of(members@));
    found
}

/// The member `name`, where it is a string.
fn find_text<'a>(members: &'a Vec<(String, Json)>, name: &str) -> (found: Option<&'a String>)
    ensures
        match found {
            Some(text) => text_member(members_of(members@), name@) == Some(text@),
            None => text_member(members_of(members@), name@) is None,
        },
{
    match find(members, name) {
        Some(Json::Text(text)) => Some(text),
        _ => None,
    }
}

/// The items of the member `name`, where it is an array.
fn find_array<'a>(members: &'a Vec<(String, Json)>, name: &str) -> (found: Option<&'a Vec<Json>>)
    ensures
        match found {
            Some(items) => array_member(members_of(members@), name@) == Some(trees_of(items@)),
            None => array_member(members_of(members@), name@) is None,
        },
{
    match find(members, name) {
        Some(json) => match json {
            Json::Array(items) => {
                proof {
                    lemma_array_view(*json);
                }
                Some(items)
            },
            _ => None,
        },
        None => None,
    }
}

/// The member `risk_score` of a hazard.
fn read_score_member(members: &Vec<(String, Json)>) -> (score: Option<Option<RiskScore>>)
    ensures
        score.deep_view() == score_member(members_of(members@)),
{
    match find(members, "risk_score") {
        None => Some(None),
        Some(Json::Null) => Some(None),
        Some(Json::Number(text)) => Some(Some(read_score(text.as_str()))),
        Some(_) => None,
    }
}

/// Reads a hazard.
fn read_hazard(json: &Json) -> (hazard: Option<Hazard>)
    ensures
        hazard.deep_view() == hazard_of(json@),
{
    match json {
        Json::Object(members) => {
            proof {
                lemma_object_view(*json);
            }
            match (
                find_text(members, "name"),
                find_text(members, "description"),
                read_score_member(members),
            ) {
                (Some(name), Some(description), Some(risk_score)) => Some(
                    Hazard { name: name.clone(), description: description.clone(), risk_score },
                ),
                _ => None,
            }
        },
        _ => None,
    }
}

/// Reads one place of a category.
fn read_hazard_entry(shape: CatalogShape, json: &Json) -> (entry: Option<Option<Hazard>>)
    ensures
        entry.deep_view() == hazard_entry(shape, json@),
{
    match json {
        Json::Null => match shape {
            CatalogShape::Labelled => Some(None),
            CatalogShape::Flat => None,
        },
        _ => match read_hazard(json) {
            Some(hazard) => Some(Some(hazard)),
            None => None,
        },
    }
}

/// Reads the category `name` of a security label.
fn read_hazards(
    shape: CatalogShape,
    members: &Vec<(String, Json)>,
    name: &str,
) -> (hazards: Option<Vec<Option<Hazard>>>)
    ensures
        hazards.deep_view() == hazards_member(shape, members_of(members@), name@),
{
    let items = match find_array(members, name) {
        Some(items) => items,
        None => {
            return None;
        },
    };
    let ghost entries = hazard_entries(shape, trees_of(items@));
    let mut found: Vec<Option<Hazard>> = Vec::new();
    let mut i: usize = 0;
    while i < items.len()
        invariant
            i <= items.len(),
            found.len() == i,
            entries == hazard_entries(shape, trees_of(items@)),
            array_member(members_of(members@), name@) == Some(trees_of(items@)),
            forall|j: int| 0 <= j < i ==> entries[j] == Some(#[trigger] found@[j].deep_view()),
        decreases items.len() - i,
    {
        match read_hazard_entry(shape, &items[i]) {
            Some(entry) => {
                found.push(entry);
            },
            None => {
                proof {
                    lemma_not_all_read(entries, i as int);
                }
                return None;
            },
        }
        i += 1;
    }
    proof {
        lemma_all_read(entries, found.deep_view());
    }
    Some(found)
}

/// Reads a security label.
fn read_kinds(shape: CatalogShape, json: &Json) -> (kinds: Option<HazardsKinds>)
    ensures
        kinds.deep_view() == kinds_of(shape, json@),
{
    match json {
        Json::Object(members) => {
            proof {
                lemma_object_view(*json);
            }
            match (
                read_hazards(shape, members, "safety"),
                read_hazards(shape, members, "privacy"),
                read_hazards(shape, members, "financial"),
            ) {
                (Some(safety), Some(privacy), Some(financial)) => Some(
                    HazardsKinds { safety, privacy, financial },
                ),
                _ => None,
            }
        },
        _ => None,
    }
}

/// Reads a functionality.
fn read_functionality(json: &Json) -> (functionality: Option<Functionality>)
    ensures
        functionality.deep_view() == functionality_of(json@),
{
    match json {
        Json::Object(members) => {
            proof {
                lemma_object_view(*json);
            }
            match (find_text(members, "device_type"), find_text(members, "action")) {
                (Some(device_type), Some(action)) => Some(
                    Functionality { device_type: device_type.clone(), action: action.clone() },
                ),
                _ => None,
            }
        },
        _ => None,
    }
}

/// Reads the behaviour label of an API label.
fn read_behavior(
    shape: CatalogShape,
    members: &Vec<(String, Json)>,
) -> (behavior: Option<Vec<Functionality>>)
    ensures
        behavior.deep_view() == behavior_member(shape, members_of(members@)),
{
    let mut found: Vec<Functionality> = Vec::new();
    if let CatalogShape::Flat = shape {
        assert(found.deep_view() =~= Seq::<FunctionalityView>::empty());
        return Some(found);
    }
    let items = match find_array(members, "behavior_label") {
        Some(items) => items,
        None => {
            return None;
        },
    };
    let ghost entries = functionalities(trees_of(items@));
    let mut i: usize = 0;
    while i < items.len()
        invariant
            i <= items.len(),
            found.len() == i,
            entries == functionalities(trees_of(items@)),
            shape != CatalogShape::Flat,
            array_member(members_of(members@), "behavior_label"@) == Some(trees_of(items@)),
            forall|j: int| 0 <= j < i ==> entries[j] == Some(#[trigger] found@[j].deep_view()),
        decreases items.len() - i,
    {
        match read_functionality(&items[i]) {
            Some(entry) => {
                found.push(entry);
            },
            None => {
                proof {
                    lemma_not_all_read(entries, i as int);
                }
                return None;
            },
        }
        i += 1;
    }
    proof {
        lemma_all_read(entries, found.deep_view());
    }
    Some(found)
}

/// Reads an API label of a catalog of the given shape.
fn read_label(shape: CatalogShape, json: &Json) -> (label: Option<ApiLabel>)
    ensures
        label.deep_view() == label_of(shape, json@),
{
    match json {
        Json::Object(members) => {
            proof {
                lemma_object_view(*json);
            }
            let description = match shape {
                CatalogShape::Labelled => find_text(members, "api_description"),
                CatalogShape::Flat => find_text(members, "description"),
            };
            match (
                find_text(members, "api_name"),
                description,
                read_behavior(shape, members),
                find(members, "security_label"),
            ) {
                (Some(api_name), Some(api_description), Some(behavior_label), Some(security)) => {
                    match read_kinds(shape, security) {
                        Some(security_label) => Some(
                            ApiLabel {
                                api_name: api_name.clone(),
                                api_description: api_description.clone(),
                                behavior_label,
                                security_label,
                            },
                        ),
                        None => None,
                    }
                },
                _ => None,
            }
        },
        _ => None,
    }
}

/// Reads the member `api_labels`.
fn read_labels(shape: CatalogShape, members: &Vec<(String, Json)>) -> (found: Option<Vec<ApiLabel>>)
    ensures
        found.deep_view() == labels_member(shape, members_of(members@)),
{
    let items = match find_array(members, "api_labels") {
        Some(items) => items,
        None => {
            return None;
        },
    };
    let ghost entries = labels(shape, trees_of(items@));
    let mut found: Vec<ApiLabel> = Vec::new();
    let mut i: usize = 0;
    while i < items.len()
        invariant
            i <= items.len(),
            found.len() == i,
            entries == labels(shape, trees_of(items@)),
            array_member(members_of(members@), "api_labels"@) == Some(trees_of(items@)),
            forall|j: int| 0 <= j < i ==> entries[j] == Some(#[trigger] found@[j].deep_view()),
        decreases items.len() - i,
    {
        match read_label(shape, &items[i]) {
            Some(entry) => {
                found.push(entry);
            },
            None => {
                proof {
                    lemma_not_all_read(entries, i as int);
                }
                return None;
            },
        }
        i += 1;
    }
    proof {
        lemma_all_read(entries, found.deep_view());
    }
    Some(found)
}

/// Reads a catalog in the given shape, or `None` where the document has not
/// that shape.
pub fn read_catalog_as(shape: CatalogShape, json: &Json) -> (catalog: Option<SifisApi>)
    ensures
        catalog.deep_view() == catalog_as(shape, json@),
        catalog matches Some(read) ==> sound_labels(read@.api_labels),
{
    proof {
        lemma_read_catalog_is_sound(shape, json@);
    }
    match json {
        Json::Object(members) => {
            proof {
                lemma_object_view(*json);
            }
            match (find_text(members, "version"), read_labels(shape, members)) {
                (Some(version), Some(api_labels)) => Some(
                    SifisApi { version: version.clone(), api_labels },
                ),
                _ => None,
            }
        },
        _ => None,
    }
}

/// Reads a catalog in whichever of the two shapes the document has, the
/// labelled one first. A document of neither shape gives [`Error::JsonOutput`].
pub fn read_catalog(json: &Json) -> (read: Result<SifisApi>)
    ensures
        match read {
            Ok(catalog) => catalog_of(json@) == Some(catalog@) && sound_labels(
                catalog@.api_labels,
            ),
            Err(error) => catalog_of(json@) is None && error is JsonOutput,
        },
{
    match read_catalog_as(CatalogShape::Labelled, json) {
        Some(catalog) => Ok(catalog),
        None => match read_catalog_as(CatalogShape::Flat, json) {
            Some(catalog) => Ok(catalog),
            None => Err(
                Error::JsonOutput(String::from_str("the document is no catalog of API labels")),
            ),
        },
    }
}

/// Reads a catalog from the text of a JSON document. A text that is no JSON,
/// or no catalog of either shape, gives [`Error::JsonOutput`].
pub fn parse_catalog(text: &str) -> (read: Result<SifisApi>)
    ensures
        match read {
            Ok(catalog) => {
                &&& json_document(text@) matches Some(tree) && catalog_of(tree) == Some(catalog@)
                &&& sound_labels(catalog@.api_labels)
            },
            Err(error) => error is JsonOutput && (json_document(text@) matches Some(tree)
                ==> catalog_of(tree) is None),
        },
{
    match parse_json(text) {
        Ok(json) => read_catalog(&json),
        Err(error) => Err(error),
    }
}

/// Reads a manifest. A document that is none gives [`Error::JsonOutput`].
pub fn read_manifest(json: &Json) -> (read: Result<AppLabel>)
    ensures
        match read {
            Ok(manifest) => manifest_read(json@) == Some(manifest@),
            Err(error) => manifest_read(json@) is None && error is JsonOutput,
        },
{
    match json {
        Json::Object(members) => {
            proof {
                lemma_object_view(*json);
            }
            match (
                find_text(members, "app_name"),
                find_text(members, "app_description"),
                find_text(members, "sifis_version"),
                read_labels(CatalogShape::Labelled, members),
            ) {
                (Some(app_name), Some(app_description), Some(sifis_version), Some(api_labels)) => {
                    return Ok(
                        AppLabel {
                            app_name: app_name.clone(),
                            app_description: app_description.clone(),
                            sifis_version: sifis_version.clone(),
                            api_labels,
                        },
                    );
                },
                _ => {},
            }
        },
        _ => {},
    }
    Err(Error::JsonOutput(String::from_str("the document is no manifest")))
}

/// Reads a manifest from the text of a JSON document. A text that is no
/// JSON, or no manifest, gives [`Error::JsonOutput`].
pub fn parse_manifest(text: &str) -> (read: Result<AppLabel>)
    ensures
        match read {
            Ok(manifest) => json_document(text@) matches Some(tree) && manifest_read(tree) == Some(
                manifest@,
            ),
            Err(error) => error is JsonOutput && (json_document(text@) matches Some(tree)
                ==> manifest_read(tree) is None),
        },
{
    match parse_json(text) {
        Ok(json) => read_manifest(&json),
        Err(error) => Err(error),
    }
}

} // verus!
