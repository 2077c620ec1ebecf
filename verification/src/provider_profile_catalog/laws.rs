//! Which sources make a catalog, and which profiles it offers.

use crate::listing::law_lists_are_in_order;
use crate::ordered;
use crate::provider_profile_catalog::{
    authoritative_count, builtin_source, catalog_of, entry_of, first_error, first_problem,
    is_shadowed, listed, looked_up, response_of, revision_of, source_problem, static_profiles,
    stored_profiles, with_profiles, CatalogView, DiagnosticView, EntryView, LookupView,
    ProfileCatalogSourceMode, ProviderProfile, RecordView, SourceView, StoredView,
};
use crate::text;
use vstd::prelude::*;
use vstd::utf8::encode_utf8;

verus! {

// ---------------------------------------------------------------------------
// Sources
// ---------------------------------------------------------------------------

/// A catalog is made only of sources that have an identity, each its own, that hold a profile
/// where they are authoritative, and none of whose profiles was found to have an error. At
/// most one of them is authoritative.
pub proof fn law_accepted_sources(sources: Seq<SourceView>)
    requires
        catalog_of(sources) is Ok,
    ensures
        forall|i: int|
            0 <= i < sources.len() ==> text::trimmed((#[trigger] sources[i]).source_id).len() > 0,
        forall|i: int, j: int|
            0 <= i < j < sources.len() ==> text::trimmed((#[trigger] sources[i]).source_id)
                != text::trimmed((#[trigger] sources[j]).source_id),
        forall|i: int|
            0 <= i < sources.len() && (#[trigger] sources[i]).mode
                == ProfileCatalogSourceMode::Authoritative ==> sources[i].profiles.len() > 0,
        forall|i: int, d: int|
            0 <= i < sources.len() && 0 <= d < sources[i].diagnostics.len() ==> (
            #[trigger] sources[i].diagnostics[d]).severity != "error"@,
        forall|i: int, j: int|
            0 <= i < j < sources.len() && (#[trigger] sources[i]).mode
                == ProfileCatalogSourceMode::Authoritative ==> (#[trigger] sources[j]).mode
                != ProfileCatalogSourceMode::Authoritative,
        catalog_of(sources)->Ok_0.authoritative <==> exists|i: int|
            0 <= i < sources.len() && (#[trigger] sources[i]).mode
                == ProfileCatalogSourceMode::Authoritative,
{
    lemma_no_problem(sources, 0);
    assert forall|i: int| 0 <= i < sources.len() implies text::trimmed(
        (#[trigger] sources[i]).source_id,
    ).len() > 0 by {
        assert(source_problem(sources, i) is None);
    }
    assert forall|i: int, j: int| 0 <= i < j < sources.len() implies text::trimmed(
        (#[trigger] sources[i]).source_id,
    ) != text::trimmed((#[trigger] sources[j]).source_id) by {
        assert(source_problem(sources, j) is None);
        assert(sources[i].source_id == sources[i].source_id);
    }
    assert forall|i: int|
        0 <= i < sources.len() && (#[trigger] sources[i]).mode
            == ProfileCatalogSourceMode::Authoritative implies sources[i].profiles.len() > 0 by {
        assert(source_problem(sources, i) is None);
    }
    assert forall|i: int, d: int|
        0 <= i < sources.len() && 0 <= d < sources[i].diagnostics.len() implies (
    #[trigger] sources[i].diagnostics[d]).severity != "error"@ by {
        assert(source_problem(sources, i) is None);
        lemma_no_error(sources[i].diagnostics);
    }
    lemma_count(sources);
}

proof fn lemma_no_problem(sources: Seq<SourceView>, from: int)
    requires
        0 <= from <= sources.len(),
    ensures
        first_problem(sources, from) is None <==> (forall|i: int|
            from <= i < sources.len() ==> #[trigger] source_problem(sources, i) is None),
    decreases sources.len() - from,
{
    if from < sources.len() {
        lemma_no_problem(sources, from + 1);
    }
}

proof fn lemma_no_error(diagnostics: Seq<DiagnosticView>)
    ensures
        first_error(diagnostics) is None <==> (forall|d: int|
            0 <= d < diagnostics.len() ==> (#[trigger] diagnostics[d]).severity != "error"@),
        first_error(diagnostics) matches Some(found) ==> found.severity == "error"@
            && diagnostics.contains(found),
    decreases diagnostics.len(),
{
    if diagnostics.len() > 0 {
        let rest = diagnostics.skip(1);
        lemma_no_error(rest);
        if diagnostics[0].severity == "error"@ {
            assert(diagnostics.contains(diagnostics[0]));
        } else {
            assert forall|d: int| 1 <= d < diagnostics.len() implies rest[d - 1]
                == #[trigger] diagnostics[d] by {}
            if let Some(found) = first_error(rest) {
                let k = choose|k: int| 0 <= k < rest.len() && rest[k] == found;
                assert(diagnostics[k + 1] == found);
            } else {
                assert forall|d: int| 0 <= d < diagnostics.len() implies (
                #[trigger] diagnostics[d]).severity != "error"@ by {
                    if d > 0 {
                        assert(rest[d - 1].severity != "error"@);
                    }
                }
            }
        }
    }
}

proof fn lemma_count(sources: Seq<SourceView>)
    ensures
        authoritative_count(sources) == 0 <==> (forall|i: int|
            0 <= i < sources.len() ==> (#[trigger] sources[i]).mode
                != ProfileCatalogSourceMode::Authoritative),
        authoritative_count(sources) <= 1 ==> (forall|i: int, j: int|
            0 <= i < j < sources.len() && (#[trigger] sources[i]).mode
                == ProfileCatalogSourceMode::Authoritative ==> (#[trigger] sources[j]).mode
                != ProfileCatalogSourceMode::Authoritative),
    decreases sources.len(),
{
    if sources.len() > 0 {
        let before = sources.drop_last();
        let last = sources.len() - 1;
        lemma_count(before);
        assert(sources[last] == sources.last());
        assert forall|i: int| 0 <= i < last implies before[i] == #[trigger] sources[i] by {}
        if authoritative_count(before) != 0 {
            let k = choose|k: int|
                0 <= k < before.len() && (#[trigger] before[k]).mode
                    == ProfileCatalogSourceMode::Authoritative;
            assert(sources[k] == before[k]);
        } else {
            assert forall|i: int| 0 <= i < last implies (#[trigger] sources[i]).mode
                != ProfileCatalogSourceMode::Authoritative by {
                assert(before[i].mode != ProfileCatalogSourceMode::Authoritative);
            }
        }
        if authoritative_count(sources) <= 1 {
            assert forall|i: int, j: int|
                0 <= i < j < sources.len() && (#[trigger] sources[i]).mode
                    == ProfileCatalogSourceMode::Authoritative implies (#[trigger] sources[j]).mode
                != ProfileCatalogSourceMode::Authoritative by {
                assert(before[i] == sources[i]);
                if j < last {
                    assert(before[j] == sources[j]);
                }
            }
        }
    }
}

/// A profile is entered under its normalized identity, with its source and the source's mode.
/// A profile without such an identity, or with one that another profile has, is refused.
pub proof fn law_entered_profiles(
    catalog: Seq<(Seq<char>, EntryView)>,
    source: SourceView,
    n: int,
)
    requires
        0 < n <= source.profiles.len(),
        ordered::is_map(catalog),
    ensures
        entry_of(source, source.profiles[n - 1]).source_id == source.source_id,
        entry_of(source, source.profiles[n - 1]).mode == source.mode,
        entry_of(source, source.profiles[n - 1]).profile == source.profiles[n - 1].proto,
        with_profiles(catalog, source, n - 1) matches Ok(before) ==> (with_profiles(
            catalog,
            source,
            n,
        ) is Ok <==> (source.profiles[n - 1].normalized_id matches Some(id) && ordered::lookup(
            before,
            id,
        ) is None)),
        with_profiles(catalog, source, n - 1) is Err ==> with_profiles(catalog, source, n) is Err,
        builtin_source(source.profiles, source.diagnostics).mode
            == ProfileCatalogSourceMode::Append,
        builtin_source(source.profiles, source.diagnostics).source_id == "builtin"@,
{
}

// ---------------------------------------------------------------------------
// Offers
// ---------------------------------------------------------------------------

/// A profile is looked up in the catalog first. What is not there is looked up in the store,
/// unless the catalog is authoritative. What has no identity is nowhere.
pub proof fn law_lookups(catalog: CatalogView, id: Seq<char>)
    ensures
        looked_up(catalog, None) == LookupView::Absent,
        ordered::lookup(catalog.visible, id) matches Some(entry) ==> looked_up(catalog, Some(id))
            == LookupView::Known(entry.profile),
        ordered::lookup(catalog.visible, id) is None && catalog.authoritative ==> looked_up(
            catalog,
            Some(id),
        ) == LookupView::Absent,
        ordered::lookup(catalog.visible, id) is None && !catalog.authoritative ==> looked_up(
            catalog,
            Some(id),
        ) == LookupView::Stored(id),
{
}

/// A stored profile is shown with the version that the store keeps, and else as it was
/// stored. It is hidden where the catalog has a profile of its identity.
pub proof fn law_stored_profiles(catalog: CatalogView, stored: StoredView)
    ensures
        response_of(stored) is Some <==> stored.profile is Some,
        response_of(stored) matches Some(shown) ==> shown.id == stored.profile->0.id
            && shown.encoded == stored.profile->0.encoded && shown.resource_version == (
        match stored.metadata {
            Some(metadata) => metadata.resource_version,
            None => 0u64,
        }),
        is_shadowed(catalog, stored) <==> (stored.normalized_id matches Some(id)
            && ordered::lookup(catalog.visible, id) is Some),
{
}

/// Every profile of the catalog is listed. A stored profile is listed where it is not hidden
/// and the catalog is not authoritative.
pub proof fn law_listed_profiles(catalog: CatalogView, stored: Seq<StoredView>)
    ensures
        forall|i: int|
            0 <= i < catalog.visible.len() ==> listed(catalog, stored).contains(
                (#[trigger] catalog.visible[i]).1.profile,
            ),
        !catalog.authoritative ==> forall|i: int|
            0 <= i < stored.len() && (#[trigger] stored[i]).profile is Some && !is_shadowed(
                catalog,
                stored[i],
            ) ==> listed(catalog, stored).contains(response_of(stored[i])->0),
        catalog.authoritative ==> listed(catalog, stored).len() == catalog.visible.len(),
{
    broadcast use vstd::seq_lib::group_to_multiset_ensures;

    let all = if catalog.authoritative {
        static_profiles(catalog)
    } else {
        static_profiles(catalog) + stored_profiles(catalog, stored)
    };
    law_lists_are_in_order::<ProviderProfile>(all);
    assert forall|i: int| 0 <= i < catalog.visible.len() implies listed(catalog, stored).contains(
        (#[trigger] catalog.visible[i]).1.profile,
    ) by {
        let wanted = catalog.visible[i].1.profile;
        assert(static_profiles(catalog)[i] == wanted);
        assert(all[i] == wanted);
        assert(all.contains(wanted));
        assert(all.to_multiset().count(wanted) > 0);
    }
    if !catalog.authoritative {
        assert forall|i: int|
            0 <= i < stored.len() && (#[trigger] stored[i]).profile is Some && !is_shadowed(
                catalog,
                stored[i],
            ) implies listed(catalog, stored).contains(response_of(stored[i])->0) by {
            let wanted = response_of(stored[i])->0;
            lemma_stored(catalog, stored, i);
            let more = stored_profiles(catalog, stored);
            let k = choose|k: int| 0 <= k < more.len() && more[k] == wanted;
            assert(all[static_profiles(catalog).len() + k] == wanted);
            assert(all.contains(wanted));
            assert(all.to_multiset().count(wanted) > 0);
        }
    } else {
        assert(listed(catalog, stored).to_multiset().len() == all.to_multiset().len());
    }
}

proof fn lemma_stored(catalog: CatalogView, stored: Seq<StoredView>, i: int)
    requires
        0 <= i < stored.len(),
        stored[i].profile is Some,
        !is_shadowed(catalog, stored[i]),
    ensures
        stored_profiles(catalog, stored).contains(response_of(stored[i])->0),
    decreases stored.len(),
{
    let before = stored_profiles(catalog, stored.drop_last());
    let all = stored_profiles(catalog, stored);
    let wanted = response_of(stored[i])->0;
    if i < stored.len() - 1 {
        assert(stored.drop_last()[i] == stored[i]);
        lemma_stored(catalog, stored.drop_last(), i);
        let k = choose|k: int| 0 <= k < before.len() && before[k] == wanted;
        assert(all[k] == wanted);
    } else {
        assert(stored.last() == stored[i]);
        assert(all[before.len() as int] == wanted);
    }
}

/// A hidden stored profile adds nothing to the list.
pub proof fn law_hidden_profiles_add_nothing(
    catalog: CatalogView,
    stored: Seq<StoredView>,
    hidden: StoredView,
)
    requires
        is_shadowed(catalog, hidden) || hidden.profile is None,
    ensures
        listed(catalog, stored.push(hidden)) == listed(catalog, stored),
{
    assert(stored.push(hidden).drop_last() =~= stored);
}

/// The revision of a profile of the catalog is told apart by its source, the source's mode
/// and its content, and that of a stored one by its record.
pub proof fn law_revisions(
    catalog: CatalogView,
    id: Seq<char>,
    record: Option<RecordView>,
)
    ensures
        revision_of(catalog, None, record) == encode_utf8("invalid-profile-id"@),
        ordered::lookup(catalog.visible, id) matches Some(entry) ==> revision_of(
            catalog,
            Some(id),
            record,
        ) == encode_utf8("catalog-profile"@) + encode_utf8(entry.source_id) + encode_utf8(
            if entry.mode == ProfileCatalogSourceMode::Append {
                "append"@
            } else {
                "authoritative"@
            },
        ) + entry.profile.encoded,
        ordered::lookup(catalog.visible, id) is None && catalog.authoritative ==> revision_of(
            catalog,
            Some(id),
            record,
        ) == encode_utf8("missing"@),
        ordered::lookup(catalog.visible, id) is None && !catalog.authoritative && record is None
            ==> revision_of(catalog, Some(id), record) == encode_utf8("user-profile"@)
            + encode_utf8("missing"@),
{
}

/// Two contents of a stored profile of the same time have two revisions.
pub proof fn law_stored_contents_are_told_apart(
    catalog: CatalogView,
    id: Seq<char>,
    a: RecordView,
    b: RecordView,
)
    requires
        ordered::lookup(catalog.visible, id) is None,
        !catalog.authoritative,
        a.id == b.id,
        a.updated_at_ms == b.updated_at_ms,
        revision_of(catalog, Some(id), Some(a)) == revision_of(catalog, Some(id), Some(b)),
    ensures
        a.payload == b.payload,
{
    let head = encode_utf8("user-profile"@) + (encode_utf8(a.id)
        + vstd::bytes::spec_u64_to_le_bytes(a.updated_at_ms as u64));
    let left = revision_of(catalog, Some(id), Some(a));
    let right = revision_of(catalog, Some(id), Some(b));
    assert(left =~= head + a.payload);
    assert(right =~= head + b.payload);
    assert(left.skip(head.len() as int) =~= a.payload);
    assert(right.skip(head.len() as int) =~= b.payload);
}

} // verus!
