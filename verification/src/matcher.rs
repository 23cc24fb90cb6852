//! Which labels of a catalog the symbols of a binary call for.
//!
//! A symbol counts when its readable name begins with the namespace of the
//! tracked API, does not carry the marker of compiler-made code and, where the
//! policy asks for it, is global. A symbol that counts calls for every label
//! whose API name stands somewhere in its readable name. The labels come out
//! in the order of the catalog, not in that of the symbol table: first the
//! first label of the catalog, once for each symbol that calls for it, then
//! the second, and so on. Two symbols that carry the same API name so give
//! its label twice; a policy may ask instead that of the labels with one API
//! name only the first be kept.

use vstd::prelude::*;
use vstd::string::StringExecFns;

use crate::demangle::{normalize, normalized};
use crate::sifis_api::{ApiLabel, ApiLabelView};
use crate::symbols::{Symbol, SymbolView};
use crate::text::{chars_contain, chars_of, chars_start_with, contains, starts_with};

verus! {

/// Prefix of the readable names of the symbols that belong to the tracked API.
pub const SIFIS_SYMBOL: &'static str = "sifis_api::service::SifisApiClient";

/// Text that marks the readable name of a closure.
pub const CLOSURE_MARKER: &'static str = "closure";

/// Which symbols count.
#[derive(Debug, PartialEq)]
pub struct MatchPolicy {
    /// What the readable name of a tracked symbol begins with
    pub namespace_prefix: String,
    /// What the readable name of compiler-made code contains
    pub synthetic_marker: String,
    /// Whether only global symbols count
    pub require_global: bool,
    /// Whether a label is reported as often as it is called for, or else of
    /// the labels with one API name only the first
    pub keep_duplicates: bool,
}

/// What a [`MatchPolicy`] stands for.
pub struct MatchPolicyView {
    pub namespace_prefix: Seq<char>,
    pub synthetic_marker: Seq<char>,
    pub require_global: bool,
    pub keep_duplicates: bool,
}

impl DeepView for MatchPolicy {
    type V = MatchPolicyView;

    open spec fn deep_view(&self) -> MatchPolicyView {
        MatchPolicyView {
            namespace_prefix: self.namespace_prefix@,
            synthetic_marker: self.synthetic_marker@,
            require_global: self.require_global,
            keep_duplicates: self.keep_duplicates,
        }
    }
}

impl View for MatchPolicy {
    type V = MatchPolicyView;

    open spec fn view(&self) -> MatchPolicyView {
        self.deep_view()
    }
}

/// The policy for the namespace [`SIFIS_SYMBOL`]: closures are left out,
/// only global symbols count, and a label is reported as often as it is
/// called for.
pub open spec fn default_policy() -> MatchPolicyView {
    MatchPolicyView {
        namespace_prefix: SIFIS_SYMBOL@,
        synthetic_marker: CLOSURE_MARKER@,
        require_global: true,
        keep_duplicates: true,
    }
}

impl MatchPolicy {
    /// The policy for the namespace `namespace_prefix`: closures are left
    /// out, only global symbols count, and a label is reported as often as it
    /// is called for.
    pub fn new(namespace_prefix: &str) -> (policy: Self)
        ensures
            policy@ == (MatchPolicyView {
                namespace_prefix: namespace_prefix@,
                synthetic_marker: CLOSURE_MARKER@,
                require_global: true,
                keep_duplicates: true,
            }),
    {
        MatchPolicy {
            namespace_prefix: String::from_str(namespace_prefix),
            synthetic_marker: String::from_str(CLOSURE_MARKER),
            require_global: true,
            keep_duplicates: true,
        }
    }

    /// The same policy with another marker for compiler-made code.
    pub fn synthetic_marker(self, marker: &str) -> (policy: Self)
        ensures
            policy@ == (MatchPolicyView { synthetic_marker: marker@, ..self@ }),
    {
        MatchPolicy {
            namespace_prefix: self.namespace_prefix,
            synthetic_marker: String::from_str(marker),
            require_global: self.require_global,
            keep_duplicates: self.keep_duplicates,
        }
    }

    /// The same policy, with global binding asked for or not.
    pub fn require_global(self, required: bool) -> (policy: Self)
        ensures
            policy@ == (MatchPolicyView { require_global: required, ..self@ }),
    {
        MatchPolicy {
            namespace_prefix: self.namespace_prefix,
            synthetic_marker: self.synthetic_marker,
            require_global: required,
            keep_duplicates: self.keep_duplicates,
        }
    }

    /// The same policy, with every match reported or only the first label of
    /// each API name.
    pub fn keep_duplicates(self, keep: bool) -> (policy: Self)
        ensures
            policy@ == (MatchPolicyView { keep_duplicates: keep, ..self@ }),
    {
        MatchPolicy {
            namespace_prefix: self.namespace_prefix,
            synthetic_marker: self.synthetic_marker,
            require_global: self.require_global,
            keep_duplicates: keep,
        }
    }
}

impl Default for MatchPolicy {
    fn default() -> (policy: Self)
        ensures
            policy@ == default_policy(),
    {
        MatchPolicy::new(SIFIS_SYMBOL)
    }
}

/// A symbol with the readable name `name` counts under `policy`.
pub open spec fn is_tracked(policy: MatchPolicyView, name: Seq<char>, is_global: bool) -> bool {
    &&& starts_with(name, policy.namespace_prefix)
    &&& !contains(name, policy.synthetic_marker)
    &&& policy.require_global ==> is_global
}

/// The readable name under which a symbol counts, if it counts: a symbol
/// without a name counts under none.
pub open spec fn counted_name(policy: MatchPolicyView, symbol: SymbolView) -> Option<Seq<char>> {
    match symbol.raw_name {
        Some(raw) => if is_tracked(policy, normalized(raw), symbol.is_global) {
            Some(normalized(raw))
        } else {
            None
        },
        None => None,
    }
}

/// The symbol counts, and its readable name carries `api_name`.
pub open spec fn calls_for(
    policy: MatchPolicyView,
    symbol: SymbolView,
    api_name: Seq<char>,
) -> bool {
    counted_name(policy, symbol) matches Some(name) && contains(name, api_name)
}

/// The readable names of the symbols that count, in the order of the symbol
/// table.
pub open spec fn counted_names(policy: MatchPolicyView, symbols: Seq<SymbolView>) -> Seq<
    Seq<char>,
>
    decreases symbols.len(),
{
    if symbols.len() == 0 {
        Seq::empty()
    } else {
        match counted_name(policy, symbols.last()) {
            Some(name) => counted_names(policy, symbols.drop_last()).push(name),
            None => counted_names(policy, symbols.drop_last()),
        }
    }
}

/// How many of the names carry `api_name`.
pub open spec fn carriers(names: Seq<Seq<char>>, api_name: Seq<char>) -> nat {
    names.filter(|name: Seq<char>| contains(name, api_name)).len()
}

/// One label, as many times over as asked.
pub open spec fn repeated(label: ApiLabelView, times: nat) -> Seq<ApiLabelView> {
    Seq::new(times, |i: int| label)
}

/// The labels that readable names call for, in the order of the catalog: each
/// label once for every name that carries its API name.
pub open spec fn labels_carried(names: Seq<Seq<char>>, labels: Seq<ApiLabelView>) -> Seq<
    ApiLabelView,
>
    decreases labels.len(),
{
    if labels.len() == 0 {
        Seq::empty()
    } else {
        labels_carried(names, labels.drop_last()) + repeated(
            labels.last(),
            carriers(names, labels.last().api_name),
        )
    }
}

/// The labels that a symbol table calls for, in the order of the catalog:
/// each label once for every symbol that counts and carries its API name.
pub open spec fn matched_labels(
    policy: MatchPolicyView,
    symbols: Seq<SymbolView>,
    labels: Seq<ApiLabelView>,
) -> Seq<ApiLabelView> {
    labels_carried(counted_names(policy, symbols), labels)
}

/// A label with the API name of the label at `at` stands before it.
pub open spec fn named_before(labels: Seq<ApiLabelView>, at: int) -> bool {
    exists|k: int| 0 <= k < at && (#[trigger] labels[k]).api_name == labels[at].api_name
}

/// Of the labels with one API name the first, the kept ones in the order in
/// which they stood.
pub open spec fn first_of_each_name(labels: Seq<ApiLabelView>) -> Seq<ApiLabelView>
    decreases labels.len(),
{
    if labels.len() == 0 {
        Seq::empty()
    } else if named_before(labels, labels.len() - 1) {
        first_of_each_name(labels.drop_last())
    } else {
        first_of_each_name(labels.drop_last()).push(labels.last())
    }
}

/// The labels that are reported for a symbol table: all that it calls for, or
/// of those with one API name the first, as the policy has it.
pub open spec fn reported_labels(
    policy: MatchPolicyView,
    symbols: Seq<SymbolView>,
    labels: Seq<ApiLabelView>,
) -> Seq<ApiLabelView> {
    if policy.keep_duplicates {
        matched_labels(policy, symbols, labels)
    } else {
        first_of_each_name(matched_labels(policy, symbols, labels))
    }
}

/// Whether a symbol with the readable name `name` counts under `policy`.
pub fn tracks(policy: &MatchPolicy, name: &str, is_global: bool) -> (counts: bool)
    ensures
        counts == is_tracked(policy@, name@, is_global),
{
    let name_chars = chars_of(name);
    let prefix = chars_of(policy.namespace_prefix.as_str());
    let marker = chars_of(policy.synthetic_marker.as_str());
    chars_start_with(&name_chars, &prefix) && !chars_contain(&name_chars, &marker)
        && (!policy.require_global || is_global)
}

/// The readable names of the symbols that count, in the order of the symbol
/// table.
pub fn readable_names(policy: &MatchPolicy, symbols: &Vec<Symbol>) -> (names: Vec<String>)
    ensures
        names.deep_view() == counted_names(policy@, symbols.deep_view()),
{
    let mut names: Vec<String> = Vec::new();
    let mut i: usize = 0;
    assert(symbols.deep_view().take(0) =~= Seq::<SymbolView>::empty());
    assert(names.deep_view() =~= Seq::<Seq<char>>::empty());
    while i < symbols.len()
        invariant
            i <= symbols.len(),
            names.deep_view() == counted_names(policy@, symbols.deep_view().take(i as int)),
        decreases symbols.len() - i,
    {
        let ghost next = symbols.deep_view().take(i + 1);
        let ghost before = names.deep_view();
        proof {
            assert(next.drop_last() =~= symbols.deep_view().take(i as int));
            assert(next.last() == symbols@[i as int]@);
        }
        match &symbols[i].raw_name {
            Some(raw) => {
                let name = normalize(raw.as_str());
                if tracks(policy, name.as_str(), symbols[i].is_global) {
                    names.push(name);
                    assert(names.deep_view() =~= before.push(name@));
                }
            },
            None => {},
        }
        i += 1;
    }
    assert(symbols.deep_view().take(symbols.len() as int) =~= symbols.deep_view());
    names
}

/// The characters of each name.
fn chars_of_each(names: &Vec<String>) -> (texts: Vec<Vec<char>>)
    ensures
        texts.len() == names.len(),
        forall|k: int| 0 <= k < names.len() ==> (#[trigger] texts@[k])@ == names@[k]@,
{
    let mut texts: Vec<Vec<char>> = Vec::new();
    let mut k: usize = 0;
    while k < names.len()
        invariant
            k <= names.len(),
            texts.len() == k,
            forall|j: int| 0 <= j < k ==> (#[trigger] texts@[j])@ == names@[j]@,
        decreases names.len() - k,
    {
        texts.push(chars_of(names[k].as_str()));
        k += 1;
    }
    texts
}

/// Copies of the labels that readable names call for, in the order of the
/// catalog: each label once for every name that carries its API name.
pub fn labels_for_names(names: &Vec<String>, labels: &Vec<ApiLabel>) -> (found: Vec<ApiLabel>)
    ensures
        found.deep_view() == labels_carried(names.deep_view(), labels.deep_view()),
{
    let texts = chars_of_each(names);
    let ghost all = names.deep_view();
    let mut found: Vec<ApiLabel> = Vec::new();
    let mut i: usize = 0;
    assert(labels.deep_view().take(0) =~= Seq::<ApiLabelView>::empty());
    assert(found.deep_view() =~= Seq::<ApiLabelView>::empty());
    while i < labels.len()
        invariant
            i <= labels.len(),
            all == names.deep_view(),
            texts.len() == names.len(),
            forall|k: int| 0 <= k < names.len() ==> (#[trigger] texts@[k])@ == names@[k]@,
            found.deep_view() == labels_carried(all, labels.deep_view().take(i as int)),
        decreases labels.len() - i,
    {
        let label = &labels[i];
        let wanted = chars_of(label.api_name.as_str());
        let ghost done = found.deep_view();
        let ghost carries = |name: Seq<char>| contains(name, label@.api_name);
        let mut k: usize = 0;
        proof {
            reveal(Seq::filter);
            assert(all.take(0) =~= Seq::<Seq<char>>::empty());
            assert(done + repeated(label@, 0) =~= done);
        }
        while k < names.len()
            invariant
                k <= names.len(),
                all == names.deep_view(),
                texts.len() == names.len(),
                forall|j: int| 0 <= j < names.len() ==> (#[trigger] texts@[j])@ == names@[j]@,
                wanted@ == label@.api_name,
                found.deep_view() == done + repeated(
                    label@,
                    carriers(all.take(k as int), label@.api_name),
                ),
            decreases names.len() - k,
        {
            let ghost seen = all.take(k as int);
            let ghost next = all.take(k + 1);
            let ghost before = found.deep_view();
            proof {
                reveal(Seq::filter);
                assert(next.drop_last() =~= seen);
                assert(next.last() == names@[k as int]@);
            }
            if chars_contain(&texts[k], &wanted) {
                found.push(label.clone());
                assert(found.deep_view() =~= before.push(label@));
                assert(carriers(next, label@.api_name) == carriers(seen, label@.api_name) + 1);
                assert(repeated(label@, carriers(next, label@.api_name)) =~= repeated(
                    label@,
                    carriers(seen, label@.api_name),
                ).push(label@));
                assert(found.deep_view() =~= done + repeated(
                    label@,
                    carriers(next, label@.api_name),
                ));
            } else {
                assert(carriers(next, label@.api_name) == carriers(seen, label@.api_name));
            }
            k += 1;
        }
        proof {
            assert(all.take(names.len() as int) =~= all);
            let upto = labels.deep_view().take(i + 1);
            assert(upto.drop_last() =~= labels.deep_view().take(i as int));
            assert(upto.last() == label@);
        }
        i += 1;
    }
    assert(labels.deep_view().take(labels.len() as int) =~= labels.deep_view());
    found
}

/// Copies of the labels that a symbol table calls for, in the order of the
/// catalog: each label once for every symbol that counts and carries its API
/// name.
pub fn match_symbols(
    policy: &MatchPolicy,
    symbols: &Vec<Symbol>,
    labels: &Vec<ApiLabel>,
) -> (found: Vec<ApiLabel>)
    ensures
        found.deep_view() == matched_labels(policy@, symbols.deep_view(), labels.deep_view()),
{
    let names = readable_names(policy, symbols);
    labels_for_names(&names, labels)
}

/// Copies of the first label of each API name, in the order of their first
/// occurrence.
pub fn merge_by_name(labels: &Vec<ApiLabel>) -> (kept: Vec<ApiLabel>)
    ensures
        kept.deep_view() == first_of_each_name(labels.deep_view()),
{
    let mut kept: Vec<ApiLabel> = Vec::new();
    let mut i: usize = 0;
    assert(labels.deep_view().take(0) =~= Seq::<ApiLabelView>::empty());
    assert(kept.deep_view() =~= Seq::<ApiLabelView>::empty());
    while i < labels.len()
        invariant
            i <= labels.len(),
            kept.deep_view() == first_of_each_name(labels.deep_view().take(i as int)),
        decreases labels.len() - i,
    {
        let ghost all = labels.deep_view();
        let ghost next = all.take(i + 1);
        let mut seen = false;
        let mut j: usize = 0;
        while j < i
            invariant
                j <= i,
                i < labels.len(),
                all == labels.deep_view(),
                seen == exists|k: int|
                    0 <= k < j && (#[trigger] all[k]).api_name == all[i as int].api_name,
            decreases i - j,
        {
            assert(all[j as int] == labels@[j as int]@);
            assert(all[i as int] == labels@[i as int]@);
            if labels[j].api_name == labels[i].api_name {
                seen = true;
            }
            j += 1;
        }
        proof {
            assert(next.drop_last() =~= all.take(i as int));
            assert(next.last() == all[i as int]);
            assert(seen == named_before(next, i as int)) by {
                if seen {
                    let k = choose|k: int|
                        0 <= k < i && (#[trigger] all[k]).api_name == all[i as int].api_name;
                    assert(next[k].api_name == next[i as int].api_name);
                }
                if named_before(next, i as int) {
                    let k = choose|k: int|
                        0 <= k < i && (#[trigger] next[k]).api_name == next[i as int].api_name;
                    assert(all[k].api_name == all[i as int].api_name);
                }
            }
        }
        if !seen {
            let ghost before = kept.deep_view();
            kept.push(labels[i].clone());
            assert(kept.deep_view() =~= before.push(all[i as int]));
        }
        i += 1;
    }
    assert(labels.deep_view().take(labels.len() as int) =~= labels.deep_view());
    kept
}

/// Copies of the labels that are reported for a symbol table under `policy`.
pub fn report_symbols(
    policy: &MatchPolicy,
    symbols: &Vec<Symbol>,
    labels: &Vec<ApiLabel>,
) -> (found: Vec<ApiLabel>)
    ensures
        found.deep_view() == reported_labels(policy@, symbols.deep_view(), labels.deep_view()),
{
    let found = match_symbols(policy, symbols, labels);
    if policy.keep_duplicates {
        found
    } else {
        merge_by_name(&found)
    }
}

} // verus!
