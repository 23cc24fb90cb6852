//! Builds an application manifest from the symbol table of a compiled binary:
//! every symbol that belongs to the tracked API is compared with a catalog of
//! labelled API names, and the hazards of the names it carries are collected.
//!
//! The catalog comes as a JSON document and the manifest leaves as one. The
//! binary is read by `object`, its symbol names are made readable by
//! `symbolic-demangle`, and documents are read and written by `serde_json`;
//! what is decided between these is decided here.

mod app_label;
mod demangle;
mod document;
mod error;
mod json;
mod laws;
mod matcher;
mod producer;
mod score;
mod sifis_api;
mod symbols;
mod text;
mod writing;

pub use app_label::{AppLabel, AppLabelView};
pub use demangle::{demangled, normalize, normalized, readable_or_raw};
pub use document::{
    array_member, behavior_member, catalog_as, catalog_of, description_name, functionalities,
    functionality_of, hazard_entries, hazard_entry, hazard_of, hazards_member, kinds_of,
    label_of, labels, labels_member, lemma_read_catalog_is_sound, lemma_read_label_is_sound,
    manifest_read, member, parse_catalog, parse_manifest, read_catalog, read_catalog_as,
    read_manifest, score_member, text_member, CatalogShape,
};
pub use error::{Error, Result};
pub use json::{
    all_read, compact_text, document_text, is_well_named, json_document, members_of,
    names_differ, number_form, parse_json, pretty_text, render_json, tree_of, trees_of,
    value_tree, well_named, written_form, written_forms, written_members, Json, JsonView,
};
pub use laws::{
    counts_as, in_namespace, is_synthetic, lemma_carried_name_is_matched,
    lemma_carried_name_is_reported, lemma_carriers_are_calling_symbols,
    lemma_counted_names_of_concat, lemma_exact_name_is_matched, lemma_first_of_each_name,
    lemma_kept_labels_keep_their_order, lemma_labels_carried_of_concat,
    lemma_longer_name_contains, lemma_matched_labels_are_of_catalog,
    lemma_matched_labels_in_catalog_order, lemma_no_symbol_in_namespace,
    lemma_reported_labels_are_of_catalog, lemma_reported_labels_in_catalog_order,
    lemma_synthetic_symbol_is_left_out,
};
pub use matcher::{
    calls_for, carriers, counted_name, counted_names, default_policy, first_of_each_name,
    is_tracked, labels_carried, labels_for_names, match_symbols, matched_labels, merge_by_name,
    named_before, readable_names, repeated, report_symbols, reported_labels, tracks,
    MatchPolicy, MatchPolicyView, CLOSURE_MARKER, SIFIS_SYMBOL,
};
pub use producer::{
    assemble, catalog_address, catalog_source, check_paths, manifest_of, path_fault,
    read_binary, read_binary_with, source_of, CatalogSource, CatalogSourceView,
    ManifestProducer, APP_DESCRIPTION, APP_NAME, FILE_SCHEME, GITHUB_PERMANENT_LINK,
};
pub use score::{
    digit_char, digits, is_sound_score, labels_are_sound, lemma_digits_differ,
    lemma_score_round_trip, lemma_small_number_of_digits, number_text, read_score,
    read_small_number, score_is_sound, score_of, score_text, small_number, sound_hazards,
    sound_label, sound_labels, write_score,
};
pub use sifis_api::{
    ApiLabel, ApiLabelView, Functionality, FunctionalityView, Hazard, HazardsKinds,
    HazardsKindsView, HazardView, RiskScore, RiskScoreView, SifisApi, SifisApiView,
};
pub use symbols::{object_symbols, read_symbols, Symbol, SymbolView};
pub use text::{
    chars_contain, chars_of, chars_start_with, contains, lemma_contains_in_longer,
    lemma_contains_itself, occurs_at, starts_with, text_contains, text_starts_with,
};
pub use writing::{
    behavior_tree, entry_tree, functionality_tree, hazard_tree, hazards_tree, kinds_tree,
    label_json, label_tree, labels_tree, lemma_functionality_round_trip,
    lemma_hazard_round_trip, lemma_label_round_trip, lemma_manifest_round_trip,
    lemma_manifest_tree_is_well_named, lemma_produced_manifest_round_trip, manifest_json,
    manifest_text, manifest_tree, score_tree,
};
