//! The run of a manifest producer, cut into its decisions: which paths are
//! acceptable, where the catalog is, what the binary calls for, and what is
//! written out. Reading and writing files are left to the caller.

use vstd::prelude::*;
use vstd::string::{StrSliceExecFns, StringExecFns};

use crate::app_label::{AppLabel, AppLabelView};
use crate::document::{catalog_of, manifest_read, parse_catalog};
use crate::error::{Error, Result};
use crate::json::{document_text, json_document};
use crate::matcher::{
    default_policy, report_symbols, reported_labels, MatchPolicy, MatchPolicyView,
};
use crate::score::sound_labels;
use crate::sifis_api::{ApiLabel, SifisApi, SifisApiView};
use crate::symbols::{object_symbols, read_symbols, SymbolView};
use crate::text::{contains, starts_with, text_contains, text_starts_with};
use crate::writing::{manifest_text, manifest_tree};

verus! {

/// Permanent part of the link to the repository that holds, for each version
/// of the library, the file of its API labels.
pub const GITHUB_PERMANENT_LINK: &'static str =
    "https://raw.githubusercontent.com/sifis-home/manifest/master/data";

/// What a catalog location begins with when it is a path on this machine.
pub const FILE_SCHEME: &'static str = "file://";

/// Name given to the application in every manifest.
pub const APP_NAME: &'static str = "app_name";

/// Description given to the application in every manifest.
pub const APP_DESCRIPTION: &'static str = "app_description";

/// Where a catalog is to be read from.
#[derive(Debug, PartialEq)]
pub enum CatalogSource {
    /// A file on this machine, by its path
    File(String),
    /// A document on another machine, by its address
    Remote(String),
}

/// What a [`CatalogSource`] stands for.
pub enum CatalogSourceView {
    File(Seq<char>),
    Remote(Seq<char>),
}

impl DeepView for CatalogSource {
    type V = CatalogSourceView;

    open spec fn deep_view(&self) -> CatalogSourceView {
        match self {
            CatalogSource::File(path) => CatalogSourceView::File(path@),
            CatalogSource::Remote(address) => CatalogSourceView::Remote(address@),
        }
    }
}

impl View for CatalogSource {
    type V = CatalogSourceView;

    open spec fn view(&self) -> CatalogSourceView {
        self.deep_view()
    }
}

/// The address of the catalog that the repository keeps for `version`.
pub open spec fn catalog_address(version: Seq<char>) -> Seq<char> {
    GITHUB_PERMANENT_LINK@ + "/"@ + version + "/library-api-hazards-"@ + version + ".json"@
}

/// Where `library_version` says the catalog is: behind [`FILE_SCHEME`] a path
/// on this machine; else, with a `/` in it, an address taken as it is; else
/// the name of a version, whose catalog the repository keeps.
pub open spec fn source_of(library_version: Seq<char>) -> CatalogSourceView {
    if starts_with(library_version, FILE_SCHEME@) {
        CatalogSourceView::File(library_version.skip(FILE_SCHEME@.len() as int))
    } else if contains(library_version, "/"@) {
        CatalogSourceView::Remote(library_version)
    } else {
        CatalogSourceView::Remote(catalog_address(library_version))
    }
}

/// Where the catalog is to be read from.
pub fn catalog_source(library_version: &str) -> (source: CatalogSource)
    ensures
        source@ == source_of(library_version@),
{
    if text_starts_with(library_version, FILE_SCHEME) {
        let from = FILE_SCHEME.unicode_len();
        let to = library_version.unicode_len();
        let path = library_version.substring_char(from, to);
        assert(path@ =~= library_version@.skip(FILE_SCHEME@.len() as int));
        CatalogSource::File(String::from_str(path))
    } else if text_contains(library_version, "/") {
        CatalogSource::Remote(String::from_str(library_version))
    } else {
        let address = String::from_str(GITHUB_PERMANENT_LINK).concat("/").concat(
            library_version,
        ).concat("/library-api-hazards-").concat(library_version).concat(".json");
        CatalogSource::Remote(address)
    }
}

/// What is wrong with the paths of a run, if anything: each of the three must
/// name a file, and the first that names a directory is reported, the binary
/// before the catalog and the catalog before the manifest.
pub open spec fn path_fault(
    binary_is_dir: bool,
    catalog_is_dir: bool,
    manifest_is_dir: bool,
) -> Option<Seq<char>> {
    if binary_is_dir {
        Some("Path to binary MUST be a file path"@)
    } else if catalog_is_dir {
        Some("Path to library API labels MUST be a file path"@)
    } else if manifest_is_dir {
        Some("Path to manifest MUST be a file path"@)
    } else {
        None
    }
}

/// Refuses a run for which one of the paths names a directory. A path that
/// the run does not have counts as no directory.
pub fn check_paths(
    binary_is_dir: bool,
    catalog_is_dir: bool,
    manifest_is_dir: bool,
) -> (checked: Result<()>)
    ensures
        match checked {
            Ok(_) => path_fault(binary_is_dir, catalog_is_dir, manifest_is_dir) is None,
            Err(error) => error matches Error::FormatPath(reason) && path_fault(
                binary_is_dir,
                catalog_is_dir,
                manifest_is_dir,
            ) == Some(reason@),
        },
{
    if binary_is_dir {
        Err(Error::FormatPath("Path to binary MUST be a file path"))
    } else if catalog_is_dir {
        Err(Error::FormatPath("Path to library API labels MUST be a file path"))
    } else if manifest_is_dir {
        Err(Error::FormatPath("Path to manifest MUST be a file path"))
    } else {
        Ok(())
    }
}

/// The manifest for a symbol table and a catalog: the fixed name and
/// description, the version of the catalog, and the labels that are reported
/// for the symbols.
pub open spec fn manifest_of(
    policy: MatchPolicyView,
    symbols: Seq<SymbolView>,
    catalog: SifisApiView,
) -> AppLabelView {
    AppLabelView {
        app_name: APP_NAME@,
        app_description: APP_DESCRIPTION@,
        sifis_version: catalog.version,
        api_labels: reported_labels(policy, symbols, catalog.api_labels),
    }
}

/// Wraps matched labels into the manifest of an application that uses the
/// catalog `sifis_api`.
pub fn assemble(sifis_api: &SifisApi, api_labels: Vec<ApiLabel>) -> (manifest: AppLabel)
    ensures
        manifest@ == (AppLabelView {
            app_name: APP_NAME@,
            app_description: APP_DESCRIPTION@,
            sifis_version: sifis_api@.version,
            api_labels: api_labels.deep_view(),
        }),
{
    AppLabel::new(APP_NAME, APP_DESCRIPTION, sifis_api.version.as_str(), api_labels)
}

/// The manifest of the binary `bin_data` against the catalog `sifis_api`,
/// with the symbols that `policy` lets count. Bytes that are no object file
/// give [`Error::ObjectOutput`], and nothing else fails.
pub fn read_binary_with(
    policy: &MatchPolicy,
    bin_data: &[u8],
    sifis_api: &SifisApi,
) -> (produced: Result<AppLabel>)
    ensures
        match produced {
            Ok(manifest) => object_symbols(bin_data@) matches Some(symbols) && manifest@
                == manifest_of(policy@, symbols, sifis_api@),
            Err(error) => object_symbols(bin_data@) is None && error is ObjectOutput,
        },
{
    match read_symbols(bin_data) {
        Ok(symbols) => {
            let api_labels = report_symbols(policy, &symbols, &sifis_api.api_labels);
            Ok(assemble(sifis_api, api_labels))
        },
        Err(error) => Err(error),
    }
}

/// The manifest of the binary `bin_data` against the catalog `sifis_api`,
/// under the policy that [`MatchPolicy::default`] gives.
pub fn read_binary(bin_data: &[u8], sifis_api: &SifisApi) -> (produced: Result<AppLabel>)
    ensures
        match produced {
            Ok(manifest) => object_symbols(bin_data@) matches Some(symbols) && manifest@
                == manifest_of(default_policy(), symbols, sifis_api@),
            Err(error) => object_symbols(bin_data@) is None && error is ObjectOutput,
        },
{
    let policy = MatchPolicy::default();
    read_binary_with(&policy, bin_data, sifis_api)
}

/// Produce a manifest file from the hazards associated to the SIFIS-API
/// contained in a binary.
///
/// If no specified, the manifest is not written on a buffer.
#[derive(Debug)]
pub struct ManifestProducer(bool);

impl Default for ManifestProducer {
    fn default() -> (producer: Self)
        ensures
            !producer.writes(),
    {
        Self::new()
    }
}

impl ManifestProducer {
    /// Whether the producer writes the manifest out.
    pub closed spec fn writes(self) -> bool {
        self.0
    }

    /// Creates a new `ManifestProducer` instance, which writes nothing.
    pub fn new() -> (producer: Self)
        ensures
            !producer.writes(),
    {
        Self(false)
    }

    /// Enables manifest writing on a buffer.
    pub fn enable_write(self) -> (producer: Self)
        ensures
            producer.writes(),
    {
        Self(true)
    }

    /// Whether the producer writes the manifest out.
    pub fn is_write_enabled(&self) -> (enabled: bool)
        ensures
            enabled == self.writes(),
    {
        self.0
    }

    /// The manifest of the binary `bin_data` against the catalog that the
    /// document `catalog_text` holds, under the policy that
    /// [`MatchPolicy::default`] gives. The catalog is read first: a text that is
    /// no catalog gives [`Error::JsonOutput`] whatever the binary is, and with a
    /// catalog, bytes that are no object file give [`Error::ObjectOutput`].
    pub fn produce(&self, bin_data: &[u8], catalog_text: &str) -> (produced: Result<AppLabel>)
        ensures
            match produced {
                Ok(manifest) => {
                    &&& json_document(catalog_text@) matches Some(tree)
                    &&& catalog_of(tree) matches Some(catalog)
                    &&& object_symbols(bin_data@) matches Some(symbols)
                    &&& manifest@ == manifest_of(default_policy(), symbols, catalog)
                },
                Err(Error::JsonOutput(_)) => json_document(catalog_text@) matches Some(tree)
                    ==> catalog_of(tree) is None,
                Err(Error::ObjectOutput(_)) => {
                    &&& json_document(catalog_text@) matches Some(tree)
                    &&& catalog_of(tree) is Some
                    &&& object_symbols(bin_data@) is None
                },
                Err(_) => false,
            },
    {
        match parse_catalog(catalog_text) {
            Ok(sifis_api) => read_binary(bin_data, &sifis_api),
            Err(error) => Err(error),
        }
    }

    /// The text to write out for a finished manifest: none unless writing is
    /// enabled, then the document on one line for the file where a path was
    /// given, else the document laid out for reading, for standard output. A
    /// manifest that cannot be written, or whose document would not read back
    /// as the manifest, gives [`Error::JsonOutput`].
    pub fn output(&self, manifest: &AppLabel, path_given: bool) -> (written: Result<
        Option<String>,
    >)
        ensures
            match written {
                Ok(None) => !self.writes(),
                Ok(Some(text)) => {
                    &&& self.writes()
                    &&& sound_labels(manifest@.api_labels)
                    &&& document_text(manifest_tree(manifest@), !path_given) == Some(text@)
                    &&& manifest_read(manifest_tree(manifest@)) == Some(manifest@)
                },
                Err(error) => {
                    &&& self.writes()
                    &&& error is JsonOutput
                    &&& !sound_labels(manifest@.api_labels) || document_text(
                        manifest_tree(manifest@),
                        !path_given,
                    ) is None
                },
            },
    {
        if !self.0 {
            Ok(None)
        } else {
            match manifest_text(manifest, !path_given) {
                Ok(text) => Ok(Some(text)),
                Err(error) => Err(error),
            }
        }
    }
}

} // verus!
