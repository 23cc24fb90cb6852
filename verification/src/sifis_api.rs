//! The hazard catalog: API names with the hazards that their use implies.

use vstd::prelude::*;

verus! {

/// Risk score of a hazard, kept as the JSON reader hands it on. That is the
/// number as the catalog wrote it, but for an exponent, which the reader
/// writes with a small `e` and a sign: `1E5` is kept as `1e+5`.
#[derive(Debug, PartialEq)]
pub enum RiskScore {
    /// A whole number from 0 to 255, written without sign, point, exponent or
    /// leading zeros.
    Integer(u8),
    /// Any other number, as the decimal text that the JSON reader hands on. A
    /// text that writes a whole number from 0 to 255 does not belong here: a
    /// manifest that holds one is not written out.
    Decimal(String),
}

/// What a [`RiskScore`] stands for.
pub enum RiskScoreView {
    Integer(u8),
    Decimal(Seq<char>),
}

impl DeepView for RiskScore {
    type V = RiskScoreView;

    open spec fn deep_view(&self) -> RiskScoreView {
        match self {
            RiskScore::Integer(n) => RiskScoreView::Integer(*n),
            RiskScore::Decimal(text) => RiskScoreView::Decimal(text@),
        }
    }
}

impl View for RiskScore {
    type V = RiskScoreView;

    open spec fn view(&self) -> RiskScoreView {
        self.deep_view()
    }
}

impl Clone for RiskScore {
    fn clone(&self) -> (copy: Self)
        ensures
            copy@ == self@,
    {
        match self {
            RiskScore::Integer(n) => RiskScore::Integer(*n),
            RiskScore::Decimal(text) => RiskScore::Decimal(text.clone()),
        }
    }
}

/// Hazard information.
#[derive(Debug, PartialEq)]
pub struct Hazard {
    /// Name
    pub name: String,
    /// Description
    pub description: String,
    /// Optional risk score
    pub risk_score: Option<RiskScore>,
}

/// What a [`Hazard`] stands for.
pub struct HazardView {
    pub name: Seq<char>,
    pub description: Seq<char>,
    pub risk_score: Option<RiskScoreView>,
}

impl DeepView for Hazard {
    type V = HazardView;

    open spec fn deep_view(&self) -> HazardView {
        HazardView {
            name: self.name@,
            description: self.description@,
            risk_score: self.risk_score.deep_view(),
        }
    }
}

impl View for Hazard {
    type V = HazardView;

    open spec fn view(&self) -> HazardView {
        self.deep_view()
    }
}

impl Clone for Hazard {
    fn clone(&self) -> (copy: Self)
        ensures
            copy@ == self@,
    {
        let risk_score = match &self.risk_score {
            Some(score) => Some(score.clone()),
            None => None,
        };
        Hazard { name: self.name.clone(), description: self.description.clone(), risk_score }
    }
}

/// Copies one category of hazards, absent entries included.
fn clone_hazards(hazards: &Vec<Option<Hazard>>) -> (copy: Vec<Option<Hazard>>)
    ensures
        copy.deep_view() == hazards.deep_view(),
{
    let mut copy: Vec<Option<Hazard>> = Vec::new();
    let mut i: usize = 0;
    while i < hazards.len()
        invariant
            i <= hazards.len(),
            copy.len() == i,
            forall|j: int| 0 <= j < i ==> copy@[j].deep_view() == hazards@[j].deep_view(),
        decreases hazards.len() - i,
    {
        let entry = match &hazards[i] {
            Some(hazard) => Some(hazard.clone()),
            None => None,
        };
        copy.push(entry);
        i += 1;
    }
    assert(copy.deep_view() =~= hazards.deep_view());
    copy
}

/// Hazards kinds.
#[derive(Debug, PartialEq)]
pub struct HazardsKinds {
    /// Safety hazards
    pub safety: Vec<Option<Hazard>>,
    /// Privacy hazards
    pub privacy: Vec<Option<Hazard>>,
    /// Financial hazards
    pub financial: Vec<Option<Hazard>>,
}

/// What a [`HazardsKinds`] stands for: the three categories, each in its order.
pub struct HazardsKindsView {
    pub safety: Seq<Option<HazardView>>,
    pub privacy: Seq<Option<HazardView>>,
    pub financial: Seq<Option<HazardView>>,
}

impl DeepView for HazardsKinds {
    type V = HazardsKindsView;

    open spec fn deep_view(&self) -> HazardsKindsView {
        HazardsKindsView {
            safety: self.safety.deep_view(),
            privacy: self.privacy.deep_view(),
            financial: self.financial.deep_view(),
        }
    }
}

impl View for HazardsKinds {
    type V = HazardsKindsView;

    open spec fn view(&self) -> HazardsKindsView {
        self.deep_view()
    }
}

impl Clone for HazardsKinds {
    fn clone(&self) -> (copy: Self)
        ensures
            copy@ == self@,
    {
        HazardsKinds {
            safety: clone_hazards(&self.safety),
            privacy: clone_hazards(&self.privacy),
            financial: clone_hazards(&self.financial),
        }
    }
}

/// Functionality kind.
#[derive(Debug, PartialEq)]
pub struct Functionality {
    /// Kind of device the API involves
    pub device_type: String,
    /// Kind of action over the device
    pub action: String,
}

/// What a [`Functionality`] stands for.
pub struct FunctionalityView {
    pub device_type: Seq<char>,
    pub action: Seq<char>,
}

impl DeepView for Functionality {
    type V = FunctionalityView;

    open spec fn deep_view(&self) -> FunctionalityView {
        FunctionalityView { device_type: self.device_type@, action: self.action@ }
    }
}

impl View for Functionality {
    type V = FunctionalityView;

    open spec fn view(&self) -> FunctionalityView {
        self.deep_view()
    }
}

impl Clone for Functionality {
    fn clone(&self) -> (copy: Self)
        ensures
            copy@ == self@,
    {
        Functionality { device_type: self.device_type.clone(), action: self.action.clone() }
    }
}

/// Copies a list of functionalities.
fn clone_functionalities(items: &Vec<Functionality>) -> (copy: Vec<Functionality>)
    ensures
        copy.deep_view() == items.deep_view(),
{
    let mut copy: Vec<Functionality> = Vec::new();
    let mut i: usize = 0;
    while i < items.len()
        invariant
            i <= items.len(),
            copy.len() == i,
            forall|j: int| 0 <= j < i ==> copy@[j].deep_view() == items@[j].deep_view(),
        decreases items.len() - i,
    {
        copy.push(items[i].clone());
        i += 1;
    }
    assert(copy.deep_view() =~= items.deep_view());
    copy
}

/// API Information.
#[derive(Debug, PartialEq)]
pub struct ApiLabel {
    /// API name
    pub api_name: String,
    /// API description
    pub api_description: String,
    /// API functionality label
    pub behavior_label: Vec<Functionality>,
    /// API hazards information
    pub security_label: HazardsKinds,
}

/// What an [`ApiLabel`] stands for.
pub struct ApiLabelView {
    pub api_name: Seq<char>,
    pub api_description: Seq<char>,
    pub behavior_label: Seq<FunctionalityView>,
    pub security_label: HazardsKindsView,
}

impl DeepView for ApiLabel {
    type V = ApiLabelView;

    open spec fn deep_view(&self) -> ApiLabelView {
        ApiLabelView {
            api_name: self.api_name@,
            api_description: self.api_description@,
            behavior_label: self.behavior_label.deep_view(),
            security_label: self.security_label@,
        }
    }
}

impl View for ApiLabel {
    type V = ApiLabelView;

    open spec fn view(&self) -> ApiLabelView {
        self.deep_view()
    }
}

impl Clone for ApiLabel {
    fn clone(&self) -> (copy: Self)
        ensures
            copy@ == self@,
    {
        ApiLabel {
            api_name: self.api_name.clone(),
            api_description: self.api_description.clone(),
            behavior_label: clone_functionalities(&self.behavior_label),
            security_label: self.security_label.clone(),
        }
    }
}

/// A versioned catalog of API labels, in the order of the document it came from.
#[derive(Debug, PartialEq)]
pub struct SifisApi {
    /// Version of the labelled library
    pub version: String,
    /// The labels, one for each API name
    pub api_labels: Vec<ApiLabel>,
}

/// What a [`SifisApi`] stands for.
pub struct SifisApiView {
    pub version: Seq<char>,
    pub api_labels: Seq<ApiLabelView>,
}

impl DeepView for SifisApi {
    type V = SifisApiView;

    open spec fn deep_view(&self) -> SifisApiView {
        SifisApiView { version: self.version@, api_labels: self.api_labels.deep_view() }
    }
}

impl View for SifisApi {
    type V = SifisApiView;

    open spec fn view(&self) -> SifisApiView {
        self.deep_view()
    }
}

} // verus!
