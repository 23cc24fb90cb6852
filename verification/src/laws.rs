//! What holds of every symbol table and every catalog.

use vstd::prelude::*;

use crate::demangle::normalized;
use crate::matcher::{
    calls_for, carriers, counted_name, counted_names, first_of_each_name, is_tracked,
    labels_carried, matched_labels, named_before, repeated, reported_labels, MatchPolicyView,
};
use crate::producer::manifest_of;
use crate::sifis_api::{ApiLabelView, SifisApiView};
use crate::symbols::SymbolView;
use crate::text::{contains, lemma_contains_in_longer, lemma_contains_itself, starts_with};

verus! {

/// The symbol has a name, and its readable form begins with the namespace of
/// the policy.
pub open spec fn in_namespace(policy: MatchPolicyView, symbol: SymbolView) -> bool {
    symbol.raw_name matches Some(raw) && starts_with(normalized(raw), policy.namespace_prefix)
}

/// The symbol has a name, and its readable form carries the marker of
/// compiler-made code.
pub open spec fn is_synthetic(policy: MatchPolicyView, symbol: SymbolView) -> bool {
    symbol.raw_name matches Some(raw) && contains(normalized(raw), policy.synthetic_marker)
}

/// The symbol counts under the policy, and its readable name is `name`.
pub open spec fn counts_as(policy: MatchPolicyView, symbol: SymbolView, name: Seq<char>) -> bool {
    symbol.raw_name matches Some(raw) && normalized(raw) == name && is_tracked(
        policy,
        name,
        symbol.is_global,
    )
}

/// The symbols that count in two symbol tables one after the other are those
/// of the first, then those of the second.
pub proof fn lemma_counted_names_of_concat(
    policy: MatchPolicyView,
    first: Seq<SymbolView>,
    second: Seq<SymbolView>,
)
    ensures
        counted_names(policy, first + second) == counted_names(policy, first) + counted_names(
            policy,
            second,
        ),
    decreases second.len(),
{
    if second.len() == 0 {
        assert(first + second =~= first);
        assert(counted_names(policy, first) + Seq::<Seq<char>>::empty() =~= counted_names(
            policy,
            first,
        ));
    } else {
        let both = first + second;
        assert(both.drop_last() =~= first + second.drop_last());
        assert(both.last() == second.last());
        lemma_counted_names_of_concat(policy, first, second.drop_last());
        let a = counted_names(policy, first);
        let b = counted_names(policy, second.drop_last());
        if let Some(name) = counted_name(policy, second.last()) {
            assert((a + b).push(name) =~= a + b.push(name));
        }
    }
}

/// Two catalogs one after the other have the labels of the first called for,
/// then those of the second.
pub proof fn lemma_labels_carried_of_concat(
    names: Seq<Seq<char>>,
    first: Seq<ApiLabelView>,
    second: Seq<ApiLabelView>,
)
    ensures
        labels_carried(names, first + second) == labels_carried(names, first) + labels_carried(
            names,
            second,
        ),
    decreases second.len(),
{
    if second.len() == 0 {
        assert(first + second =~= first);
        assert(labels_carried(names, first) + Seq::<ApiLabelView>::empty() =~= labels_carried(
            names,
            first,
        ));
    } else {
        let both = first + second;
        assert(both.drop_last() =~= first + second.drop_last());
        assert(both.last() == second.last());
        lemma_labels_carried_of_concat(names, first, second.drop_last());
        let a = labels_carried(names, first);
        let b = labels_carried(names, second.drop_last());
        let c = repeated(second.last(), carriers(names, second.last().api_name));
        assert((a + b) + c =~= a + (b + c));
    }
}

/// A label is called for once by every symbol that counts and carries its API
/// name: as many names carry the API name as symbols call for it.
pub proof fn lemma_carriers_are_calling_symbols(
    policy: MatchPolicyView,
    symbols: Seq<SymbolView>,
    api_name: Seq<char>,
)
    ensures
        carriers(counted_names(policy, symbols), api_name) == symbols.filter(
            |symbol: SymbolView| calls_for(policy, symbol, api_name),
        ).len(),
    decreases symbols.len(),
{
    reveal(Seq::filter);
    if symbols.len() > 0 {
        lemma_carriers_are_calling_symbols(policy, symbols.drop_last(), api_name);
        let rest = counted_names(policy, symbols.drop_last());
        if let Some(name) = counted_name(policy, symbols.last()) {
            assert(rest.push(name).drop_last() =~= rest);
            assert(rest.push(name).last() == name);
        }
    }
}

/// In a symbol table with no symbol in the namespace of the policy no symbol
/// counts.
proof fn lemma_nothing_counts(policy: MatchPolicyView, symbols: Seq<SymbolView>)
    requires
        forall|i: int| 0 <= i < symbols.len() ==> !in_namespace(policy, #[trigger] symbols[i]),
    ensures
        counted_names(policy, symbols) == Seq::<Seq<char>>::empty(),
    decreases symbols.len(),
{
    if symbols.len() > 0 {
        let rest = symbols.drop_last();
        assert forall|i: int| 0 <= i < rest.len() implies !in_namespace(
            policy,
            #[trigger] rest[i],
        ) by {
            assert(rest[i] == symbols[i]);
        }
        lemma_nothing_counts(policy, rest);
        assert(!in_namespace(policy, symbols[symbols.len() - 1]));
    }
}

/// No name calls for no label.
proof fn lemma_no_name_no_label(labels: Seq<ApiLabelView>)
    ensures
        labels_carried(Seq::<Seq<char>>::empty(), labels) == Seq::<ApiLabelView>::empty(),
    decreases labels.len(),
{
    reveal(Seq::filter);
    if labels.len() > 0 {
        lemma_no_name_no_label(labels.drop_last());
        assert(Seq::<ApiLabelView>::empty() + repeated(labels.last(), 0)
            =~= Seq::<ApiLabelView>::empty());
    }
}

/// A symbol table with no symbol in the namespace of the policy gives a
/// manifest without labels, which carries the version of the catalog as it is.
pub proof fn lemma_no_symbol_in_namespace(
    policy: MatchPolicyView,
    symbols: Seq<SymbolView>,
    catalog: SifisApiView,
)
    requires
        forall|i: int| 0 <= i < symbols.len() ==> !in_namespace(policy, #[trigger] symbols[i]),
    ensures
        manifest_of(policy, symbols, catalog).api_labels == Seq::<ApiLabelView>::empty(),
        manifest_of(policy, symbols, catalog).sifis_version == catalog.version,
{
    lemma_nothing_counts(policy, symbols);
    lemma_no_name_no_label(catalog.api_labels);
}

/// A symbol that counts and whose readable name contains the API name of a
/// label calls for that label: it is among the matched labels, however much
/// more the name holds before and after.
pub proof fn lemma_carried_name_is_matched(
    policy: MatchPolicyView,
    symbols: Seq<SymbolView>,
    labels: Seq<ApiLabelView>,
    i: int,
    j: int,
    name: Seq<char>,
)
    requires
        0 <= i < symbols.len(),
        0 <= j < labels.len(),
        counts_as(policy, symbols[i], name),
        contains(name, labels[j].api_name),
    ensures
        matched_labels(policy, symbols, labels).contains(labels[j]),
{
    let before = symbols.take(i);
    let one = seq![symbols[i]];
    let after = symbols.skip(i + 1);
    assert(symbols =~= before + one + after);
    lemma_counted_names_of_concat(policy, before + one, after);
    lemma_counted_names_of_concat(policy, before, one);
    assert(one.drop_last() =~= Seq::<SymbolView>::empty());
    assert(counted_names(policy, one.drop_last()) == Seq::<Seq<char>>::empty());
    assert(counted_names(policy, one) =~= seq![name]);
    let names = counted_names(policy, symbols);
    let at = counted_names(policy, before).len() as int;
    assert(names[at] == name);
    let carries = |name: Seq<char>| contains(name, labels[j].api_name);
    names.lemma_filter_contains(carries, at);
    let carrying = names.filter(carries);
    let found = choose|found: int| 0 <= found < carrying.len() && carrying[found] == name;
    assert(carriers(names, labels[j].api_name) >= 1);

    let above = labels.take(j);
    let this = seq![labels[j]];
    let below = labels.skip(j + 1);
    assert(labels =~= above + this + below);
    lemma_labels_carried_of_concat(names, above + this, below);
    lemma_labels_carried_of_concat(names, above, this);
    assert(this.drop_last() =~= Seq::<ApiLabelView>::empty());
    assert(labels_carried(names, this.drop_last()) == Seq::<ApiLabelView>::empty());
    let times = repeated(labels[j], carriers(names, labels[j].api_name));
    assert(labels_carried(names, this) =~= times);
    let head = labels_carried(names, above);
    let all = matched_labels(policy, symbols, labels);
    assert(all[head.len() as int] == times[0]);
}

/// Matching is by containment, not by equality: a name that holds an API
/// name with anything before it and anything after it, as part of a longer
/// identifier too, contains it.
pub proof fn lemma_longer_name_contains(before: Seq<char>, api_name: Seq<char>, after: Seq<char>)
    ensures
        contains(before + api_name + after, api_name),
{
    lemma_contains_itself(api_name);
    lemma_contains_in_longer(before, api_name, after, api_name);
}

/// A symbol that counts and whose readable name is exactly the API name of a
/// label calls for that label.
pub proof fn lemma_exact_name_is_matched(
    policy: MatchPolicyView,
    symbols: Seq<SymbolView>,
    labels: Seq<ApiLabelView>,
    i: int,
    j: int,
)
    requires
        0 <= i < symbols.len(),
        0 <= j < labels.len(),
        counts_as(policy, symbols[i], labels[j].api_name),
    ensures
        matched_labels(policy, symbols, labels).contains(labels[j]),
{
    lemma_contains_itself(labels[j].api_name);
    lemma_carried_name_is_matched(policy, symbols, labels, i, j, labels[j].api_name);
}

/// A symbol whose readable name carries the marker of compiler-made code
/// calls for no label, whatever API names stand in it: the matched and the
/// reported labels are those of the symbol table without it.
pub proof fn lemma_synthetic_symbol_is_left_out(
    policy: MatchPolicyView,
    symbols: Seq<SymbolView>,
    labels: Seq<ApiLabelView>,
    i: int,
)
    requires
        0 <= i < symbols.len(),
        is_synthetic(policy, symbols[i]),
    ensures
        forall|api_name: Seq<char>| !calls_for(policy, symbols[i], api_name),
        matched_labels(policy, symbols, labels) == matched_labels(
            policy,
            symbols.remove(i),
            labels,
        ),
        reported_labels(policy, symbols, labels) == reported_labels(
            policy,
            symbols.remove(i),
            labels,
        ),
{
    let before = symbols.take(i);
    let one = seq![symbols[i]];
    let after = symbols.skip(i + 1);
    assert(symbols =~= before + one + after);
    assert(symbols.remove(i) =~= before + after);
    lemma_counted_names_of_concat(policy, before + one, after);
    lemma_counted_names_of_concat(policy, before, one);
    lemma_counted_names_of_concat(policy, before, after);
    assert(one.drop_last() =~= Seq::<SymbolView>::empty());
    assert(counted_names(policy, one.drop_last()) == Seq::<Seq<char>>::empty());
    assert(counted_names(policy, one) =~= Seq::<Seq<char>>::empty());
    assert(counted_names(policy, before) + Seq::<Seq<char>>::empty() =~= counted_names(
        policy,
        before,
    ));
}

/// Every label that names call for is a label of the catalog.
proof fn lemma_carried_are_of_catalog(names: Seq<Seq<char>>, labels: Seq<ApiLabelView>, k: int)
    requires
        0 <= k < labels_carried(names, labels).len(),
    ensures
        exists|j: int| 0 <= j < labels.len() && #[trigger] labels[j] == labels_carried(
            names,
            labels,
        )[k],
    decreases labels.len(),
{
    if labels.len() > 0 {
        let rest = labels.drop_last();
        let head = labels_carried(names, rest);
        if k < head.len() {
            lemma_carried_are_of_catalog(names, rest, k);
            let j = choose|j: int| 0 <= j < rest.len() && #[trigger] rest[j] == head[k];
            assert(labels[j] == labels_carried(names, labels)[k]);
        } else {
            assert(labels[labels.len() - 1] == labels_carried(names, labels)[k]);
        }
    }
}

/// Every matched label is a label of the catalog, whole and unchanged.
pub proof fn lemma_matched_labels_are_of_catalog(
    policy: MatchPolicyView,
    symbols: Seq<SymbolView>,
    labels: Seq<ApiLabelView>,
    k: int,
)
    requires
        0 <= k < matched_labels(policy, symbols, labels).len(),
    ensures
        labels.contains(matched_labels(policy, symbols, labels)[k]),
{
    lemma_carried_are_of_catalog(counted_names(policy, symbols), labels, k);
}

/// The labels that names call for stand in the order of the catalog.
proof fn lemma_carried_in_catalog_order(
    names: Seq<Seq<char>>,
    labels: Seq<ApiLabelView>,
    a: int,
    b: int,
)
    requires
        0 <= a <= b < labels_carried(names, labels).len(),
    ensures
        exists|ja: int, jb: int|
            0 <= ja <= jb < labels.len() && #[trigger] labels[ja] == labels_carried(
                names,
                labels,
            )[a] && #[trigger] labels[jb] == labels_carried(names, labels)[b],
    decreases labels.len(),
{
    if labels.len() > 0 {
        let rest = labels.drop_last();
        let head = labels_carried(names, rest);
        let all = labels_carried(names, labels);
        let last = labels.len() - 1;
        if b < head.len() {
            lemma_carried_in_catalog_order(names, rest, a, b);
            let (ja, jb) = choose|ja: int, jb: int|
                0 <= ja <= jb < rest.len() && #[trigger] rest[ja] == head[a] && #[trigger] rest[jb]
                    == head[b];
            assert(labels[ja] == all[a] && labels[jb] == all[b]);
        } else if a < head.len() {
            lemma_carried_are_of_catalog(names, rest, a);
            let ja = choose|ja: int| 0 <= ja < rest.len() && #[trigger] rest[ja] == head[a];
            assert(labels[ja] == all[a] && labels[last] == all[b]);
        } else {
            assert(labels[last] == all[a] && labels[last] == all[b]);
        }
    }
}

/// The matched labels stand in the order of the catalog, not in that of the
/// symbol table: of two matched labels the earlier one is a label of the
/// catalog that stands no later in it than the other.
pub proof fn lemma_matched_labels_in_catalog_order(
    policy: MatchPolicyView,
    symbols: Seq<SymbolView>,
    labels: Seq<ApiLabelView>,
    a: int,
    b: int,
)
    requires
        0 <= a <= b < matched_labels(policy, symbols, labels).len(),
    ensures
        exists|ja: int, jb: int|
            0 <= ja <= jb < labels.len() && #[trigger] labels[ja] == matched_labels(
                policy,
                symbols,
                labels,
            )[a] && #[trigger] labels[jb] == matched_labels(policy, symbols, labels)[b],
{
    lemma_carried_in_catalog_order(counted_names(policy, symbols), labels, a, b);
}

/// Merging by API name keeps one label of each name and no other: no two
/// of the kept labels have the same API name, every label has its API name
/// among the kept ones, and every kept label is one of the labels.
pub proof fn lemma_first_of_each_name(labels: Seq<ApiLabelView>)
    ensures
        forall|a: int, b: int|
            0 <= a < b < first_of_each_name(labels).len() ==> (#[trigger] first_of_each_name(
                labels,
            )[a]).api_name != (#[trigger] first_of_each_name(labels)[b]).api_name,
        forall|i: int|
            0 <= i < labels.len() ==> exists|k: int|
                0 <= k < first_of_each_name(labels).len() && (#[trigger] first_of_each_name(
                    labels,
                )[k]).api_name == (#[trigger] labels[i]).api_name,
        forall|k: int|
            0 <= k < first_of_each_name(labels).len() ==> labels.contains(
                #[trigger] first_of_each_name(labels)[k],
            ),
    decreases labels.len(),
{
    let kept = first_of_each_name(labels);
    if labels.len() > 0 {
        let rest = labels.drop_last();
        let last = labels.last();
        let before = first_of_each_name(rest);
        lemma_first_of_each_name(rest);
        assert forall|k: int| 0 <= k < kept.len() implies labels.contains(#[trigger] kept[k]) by {
            if k < before.len() {
                assert(rest.contains(before[k]));
                let at = choose|at: int| 0 <= at < rest.len() && rest[at] == before[k];
                assert(labels[at] == kept[k]);
            } else {
                assert(labels[labels.len() - 1] == kept[k]);
            }
        }
        assert forall|i: int| 0 <= i < labels.len() implies exists|k: int|
            0 <= k < kept.len() && (#[trigger] kept[k]).api_name == (
            #[trigger] labels[i]).api_name by {
            if i < rest.len() {
                assert(rest[i] == labels[i]);
                let k = choose|k: int|
                    0 <= k < before.len() && (#[trigger] before[k]).api_name == rest[i].api_name;
                assert(kept[k] == before[k]);
            } else if named_before(labels, labels.len() - 1) {
                let j = choose|j: int|
                    0 <= j < labels.len() - 1 && (#[trigger] labels[j]).api_name == last.api_name;
                assert(rest[j] == labels[j]);
                let k = choose|k: int|
                    0 <= k < before.len() && (#[trigger] before[k]).api_name == rest[j].api_name;
                assert(kept[k] == before[k]);
            } else {
                assert(kept[kept.len() - 1] == last);
            }
        }
        assert forall|a: int, b: int| 0 <= a < b < kept.len() implies (#[trigger] kept[a]).api_name
            != (#[trigger] kept[b]).api_name by {
            if b < before.len() {
                assert(kept[a] == before[a] && kept[b] == before[b]);
            } else {
                assert(kept[a] == before[a]);
                assert(rest.contains(before[a]));
                let at = choose|at: int| 0 <= at < rest.len() && rest[at] == before[a];
                assert(labels[at].api_name == before[a].api_name);
            }
        }
    }
}

/// Merging by API name keeps the order: of two kept labels the earlier one
/// stood before the other.
pub proof fn lemma_kept_labels_keep_their_order(labels: Seq<ApiLabelView>, a: int, b: int)
    requires
        0 <= a < b < first_of_each_name(labels).len(),
    ensures
        exists|ia: int, ib: int|
            0 <= ia < ib < labels.len() && #[trigger] labels[ia] == first_of_each_name(labels)[a]
                && #[trigger] labels[ib] == first_of_each_name(labels)[b],
    decreases labels.len(),
{
    if labels.len() > 0 {
        let rest = labels.drop_last();
        let before = first_of_each_name(rest);
        let kept = first_of_each_name(labels);
        if b < before.len() {
            lemma_kept_labels_keep_their_order(rest, a, b);
            let (ia, ib) = choose|ia: int, ib: int|
                0 <= ia < ib < rest.len() && #[trigger] rest[ia] == before[a] && #[trigger] rest[ib]
                    == before[b];
            assert(labels[ia] == kept[a] && labels[ib] == kept[b]);
        } else {
            lemma_first_of_each_name(rest);
            assert(rest.contains(before[a]));
            let ia = choose|ia: int| 0 <= ia < rest.len() && rest[ia] == before[a];
            assert(labels[ia] == kept[a] && labels[labels.len() - 1] == kept[b]);
        }
    }
}

/// Every reported label is a label of the catalog, whole and unchanged,
/// whether duplicates are kept or not.
pub proof fn lemma_reported_labels_are_of_catalog(
    policy: MatchPolicyView,
    symbols: Seq<SymbolView>,
    labels: Seq<ApiLabelView>,
    k: int,
)
    requires
        0 <= k < reported_labels(policy, symbols, labels).len(),
    ensures
        labels.contains(reported_labels(policy, symbols, labels)[k]),
{
    let matched = matched_labels(policy, symbols, labels);
    if policy.keep_duplicates {
        lemma_matched_labels_are_of_catalog(policy, symbols, labels, k);
    } else {
        lemma_first_of_each_name(matched);
        let kept = first_of_each_name(matched);
        assert(matched.contains(kept[k]));
        let at = choose|at: int| 0 <= at < matched.len() && matched[at] == kept[k];
        lemma_matched_labels_are_of_catalog(policy, symbols, labels, at);
    }
}

/// The labels of a manifest stand in the order of the catalog, not in that
/// of the symbol table, whether duplicates are kept or not: of two reported
/// labels the earlier one is a label of the catalog that stands no later in it
/// than the other.
pub proof fn lemma_reported_labels_in_catalog_order(
    policy: MatchPolicyView,
    symbols: Seq<SymbolView>,
    labels: Seq<ApiLabelView>,
    a: int,
    b: int,
)
    requires
        0 <= a <= b < reported_labels(policy, symbols, labels).len(),
    ensures
        exists|ja: int, jb: int|
            0 <= ja <= jb < labels.len() && #[trigger] labels[ja] == reported_labels(
                policy,
                symbols,
                labels,
            )[a] && #[trigger] labels[jb] == reported_labels(policy, symbols, labels)[b],
{
    let matched = matched_labels(policy, symbols, labels);
    let reported = reported_labels(policy, symbols, labels);
    if policy.keep_duplicates {
        lemma_matched_labels_in_catalog_order(policy, symbols, labels, a, b);
    } else if a == b {
        lemma_reported_labels_are_of_catalog(policy, symbols, labels, a);
        let j = choose|j: int| 0 <= j < labels.len() && labels[j] == reported[a];
        assert(labels[j] == reported[a] && labels[j] == reported[b]);
    } else {
        lemma_kept_labels_keep_their_order(matched, a, b);
        let (ia, ib) = choose|ia: int, ib: int|
            0 <= ia < ib < matched.len() && #[trigger] matched[ia] == reported[a]
                && #[trigger] matched[ib] == reported[b];
        lemma_matched_labels_in_catalog_order(policy, symbols, labels, ia, ib);
    }
}

/// A symbol that counts and whose readable name contains the API name of a
/// label has that name reported: a label with the API name is among the
/// reported ones, and where duplicates are kept the label itself is.
pub proof fn lemma_carried_name_is_reported(
    policy: MatchPolicyView,
    symbols: Seq<SymbolView>,
    labels: Seq<ApiLabelView>,
    i: int,
    j: int,
    name: Seq<char>,
)
    requires
        0 <= i < symbols.len(),
        0 <= j < labels.len(),
        counts_as(policy, symbols[i], name),
        contains(name, labels[j].api_name),
    ensures
        policy.keep_duplicates ==> reported_labels(policy, symbols, labels).contains(labels[j]),
        exists|k: int|
            0 <= k < reported_labels(policy, symbols, labels).len() && (
            #[trigger] reported_labels(policy, symbols, labels)[k]).api_name
                == labels[j].api_name,
{
    lemma_carried_name_is_matched(policy, symbols, labels, i, j, name);
    let matched = matched_labels(policy, symbols, labels);
    let at = choose|at: int| 0 <= at < matched.len() && matched[at] == labels[j];
    if policy.keep_duplicates {
        assert(reported_labels(policy, symbols, labels)[at].api_name == labels[j].api_name);
    } else {
        lemma_first_of_each_name(matched);
        let kept = first_of_each_name(matched);
        let k = choose|k: int|
            0 <= k < kept.len() && (#[trigger] kept[k]).api_name == matched[at].api_name;
        assert(reported_labels(policy, symbols, labels)[k].api_name == labels[j].api_name);
    }
}

} // verus!
