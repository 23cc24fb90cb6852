//! The manifest: what an application is exposed to through the API it uses.

use vstd::prelude::*;
use vstd::string::StringExecFns;

use crate::sifis_api::{ApiLabel, ApiLabelView};

verus! {

/// Sifis application information.
#[derive(Debug, PartialEq)]
pub struct AppLabel {
    /// Application name
    pub app_name: String,
    /// Application description
    pub app_description: String,
    /// Sifis library version
    pub sifis_version: String,
    /// List of hazards associated to API
    pub api_labels: Vec<ApiLabel>,
}

/// What an [`AppLabel`] stands for.
pub struct AppLabelView {
    pub app_name: Seq<char>,
    pub app_description: Seq<char>,
    pub sifis_version: Seq<char>,
    pub api_labels: Seq<ApiLabelView>,
}

impl DeepView for AppLabel {
    type V = AppLabelView;

    open spec fn deep_view(&self) -> AppLabelView {
        AppLabelView {
            app_name: self.app_name@,
            app_description: self.app_description@,
            sifis_version: self.sifis_version@,
            api_labels: self.api_labels.deep_view(),
        }
    }
}

impl View for AppLabel {
    type V = AppLabelView;

    open spec fn view(&self) -> AppLabelView {
        self.deep_view()
    }
}

impl AppLabel {
    /// Puts a manifest together from its four parts, each taken as it is.
    pub fn new(
        app_name: &str,
        app_description: &str,
        sifis_version: &str,
        api_labels: Vec<ApiLabel>,
    ) -> (label: Self)
        ensures
            label@ == (AppLabelView {
                app_name: app_name@,
                app_description: app_description@,
                sifis_version: sifis_version@,
                api_labels: api_labels.deep_view(),
            }),
    {
        AppLabel {
            app_name: String::from_str(app_name),
            app_description: String::from_str(app_description),
            sifis_version: String::from_str(sifis_version),
            api_labels,
        }
    }
}

} // verus!
