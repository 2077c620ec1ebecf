//! The catalog of provider profiles: which profiles a gateway offers, and where
//! each of them comes from.

pub mod laws;

use crate::listing::{in_order, sort, Named};
use crate::ordered;
use crate::outcome::shown;
use crate::text;
use crate::text::{cat3, cat5, cat6};
use vstd::bytes::{spec_u64_to_le_bytes, u64_to_le_bytes};
use vstd::prelude::*;
use vstd::string::StrSliceExecFns;
use vstd::utf8::encode_utf8;

verus! {

/// The source of the profiles that are built in.
pub const BUILTIN_SOURCE_ID: &'static str = "builtin";

/// The kind of object that profiles are stored as.
pub const OBJECT_TYPE: &'static str = "provider_profile";

/// How a source adds to the catalog.
#[derive(Debug, Clone, Copy, PartialEq, Eq, Structural)]
pub enum ProfileCatalogSourceMode {
    Append,
    Authoritative,
}

/// A profile as callers see it. Its message is encoded.
#[derive(Debug, Clone, PartialEq, Eq)]
pub struct ProviderProfile {
    pub id: String,
    pub resource_version: u64,
    pub encoded: Vec<u8>,
}

/// A profile of a source. Its identity is normalized, where it can be.
#[derive(Debug, Clone, PartialEq, Eq)]
pub struct ProviderTypeProfile {
    pub normalized_id: Option<String>,
    pub proto: ProviderProfile,
}

/// What the validation of a source's profiles found.
#[derive(Debug, Clone, PartialEq, Eq)]
pub struct ProfileValidationDiagnostic {
    pub severity: String,
    pub profile_id: String,
    pub field: String,
    pub message: String,
}

/// A source of profiles, with what the validation of its profiles found.
#[derive(Debug, Clone, PartialEq, Eq)]
pub struct ProfileCatalogSource {
    pub source_id: String,
    pub mode: ProfileCatalogSourceMode,
    pub profiles: Vec<ProviderTypeProfile>,
    pub diagnostics: Vec<ProfileValidationDiagnostic>,
}

/// A profile of the catalog, with its source.
#[derive(Debug, Clone, PartialEq, Eq)]
pub struct StaticProfileEntry {
    pub source_id: String,
    pub mode: ProfileCatalogSourceMode,
    pub profile: ProviderProfile,
}

/// The content of a profile.
#[verifier::ext_equal]
pub struct ProfileView {
    pub id: Seq<char>,
    pub resource_version: u64,
    pub encoded: Seq<u8>,
}

/// The content of a source's profile.
pub struct TypeProfileView {
    pub normalized_id: Option<Seq<char>>,
    pub proto: ProfileView,
}

/// The content of a diagnostic.
pub struct DiagnosticView {
    pub severity: Seq<char>,
    pub profile_id: Seq<char>,
    pub field: Seq<char>,
    pub message: Seq<char>,
}

/// The content of a source.
#[verifier::ext_equal]
pub struct SourceView {
    pub source_id: Seq<char>,
    pub mode: ProfileCatalogSourceMode,
    pub profiles: Seq<TypeProfileView>,
    pub diagnostics: Seq<DiagnosticView>,
}

/// The content of an entry.
pub struct EntryView {
    pub source_id: Seq<char>,
    pub mode: ProfileCatalogSourceMode,
    pub profile: ProfileView,
}

impl DeepView for ProviderProfile {
    type V = ProfileView;

    open spec fn deep_view(&self) -> ProfileView {
        ProfileView {
            id: self.id@,
            resource_version: self.resource_version,
            encoded: self.encoded@,
        }
    }
}

impl DeepView for ProviderTypeProfile {
    type V = TypeProfileView;

    open spec fn deep_view(&self) -> TypeProfileView {
        TypeProfileView {
            normalized_id: self.normalized_id.deep_view(),
            proto: self.proto.deep_view(),
        }
    }
}

impl DeepView for ProfileValidationDiagnostic {
    type V = DiagnosticView;

    open spec fn deep_view(&self) -> DiagnosticView {
        DiagnosticView {
            severity: self.severity@,
            profile_id: self.profile_id@,
            field: self.field@,
            message: self.message@,
        }
    }
}

impl DeepView for ProfileCatalogSource {
    type V = SourceView;

    open spec fn deep_view(&self) -> SourceView {
        SourceView {
            source_id: self.source_id@,
            mode: self.mode,
            profiles: self.profiles.deep_view(),
            diagnostics: self.diagnostics.deep_view(),
        }
    }
}

impl DeepView for StaticProfileEntry {
    type V = EntryView;

    open spec fn deep_view(&self) -> EntryView {
        EntryView {
            source_id: self.source_id@,
            mode: self.mode,
            profile: self.profile.deep_view(),
        }
    }
}

impl ProviderProfile {
    /// The same profile once more.
    pub fn copy(&self) -> (r: ProviderProfile)
        ensures
            r.deep_view() == self.deep_view(),
    {
        let encoded = self.encoded.clone();
        assert(encoded@ =~= self.encoded@);
        ProviderProfile { id: self.id.clone(), resource_version: self.resource_version, encoded }
    }
}

/// Profiles are listed by their identities.
impl Named for ProviderProfile {
    open spec fn name_in(content: ProfileView) -> Seq<char> {
        content.id
    }

    open spec fn id_in(content: ProfileView) -> Seq<char> {
        ""@
    }

    fn listed_name(&self) -> (r: &str) {
        self.id.as_str()
    }

    fn listed_id(&self) -> (r: &str) {
        ""
    }
}

// ---------------------------------------------------------------------------
// Sources
// ---------------------------------------------------------------------------

/// What is said of a profile that was found invalid.
pub open spec fn diagnostic_text(diagnostic: DiagnosticView) -> Seq<char> {
    if diagnostic.profile_id.len() == 0 {
        diagnostic.field + ": "@ + diagnostic.message
    } else {
        "provider profile '"@ + diagnostic.profile_id + "' "@ + diagnostic.field + ": "@
            + diagnostic.message
    }
}

/// The first diagnostic that is an error.
pub open spec fn first_error(diagnostics: Seq<DiagnosticView>) -> Option<DiagnosticView>
    decreases diagnostics.len(),
{
    if diagnostics.len() == 0 {
        None
    } else if diagnostics[0].severity == "error"@ {
        Some(diagnostics[0])
    } else {
        first_error(diagnostics.skip(1))
    }
}

/// How many sources are authoritative.
pub open spec fn authoritative_count(sources: Seq<SourceView>) -> nat
    decreases sources.len(),
{
    if sources.len() == 0 {
        0
    } else {
        authoritative_count(sources.drop_last()) + (if sources.last().mode
            == ProfileCatalogSourceMode::Authoritative {
            1nat
        } else {
            0nat
        })
    }
}

/// Another source before a given one has the same identity.
pub open spec fn is_repeated(sources: Seq<SourceView>, i: int) -> bool {
    exists|j: int|
        0 <= j < i && text::trimmed(#[trigger] sources[j].source_id) == text::trimmed(
            sources[i].source_id,
        )
}

/// What is wrong with one of the sources.
pub open spec fn source_problem(sources: Seq<SourceView>, i: int) -> Option<Seq<char>> {
    let source = sources[i];
    let source_id = text::trimmed(source.source_id);
    if source_id.len() == 0 {
        Some("provider profile catalog source_id must not be empty"@)
    } else if is_repeated(sources, i) {
        Some("duplicate provider profile catalog source id '"@ + source_id + "'"@)
    } else if source.mode == ProfileCatalogSourceMode::Authoritative && source.profiles.len()
        == 0 {
        Some(
            "authoritative provider profile catalog source '"@ + source_id
                + "' must not be empty"@,
        )
    } else {
        match first_error(source.diagnostics) {
            Some(diagnostic) => Some(diagnostic_text(diagnostic)),
            None => None,
        }
    }
}

/// What is wrong with the first wrong one of the sources from a given one on.
pub open spec fn first_problem(sources: Seq<SourceView>, from: int) -> Option<Seq<char>>
    decreases sources.len() - from,
{
    if from >= sources.len() {
        None
    } else {
        match source_problem(sources, from) {
            Some(problem) => Some(problem),
            None => first_problem(sources, from + 1),
        }
    }
}

/// The entry of a source's profile.
pub open spec fn entry_of(source: SourceView, profile: TypeProfileView) -> EntryView {
    EntryView { source_id: source.source_id, mode: source.mode, profile: profile.proto }
}

/// A catalog with the first profiles of a source added.
pub open spec fn with_profiles(
    catalog: Seq<(Seq<char>, EntryView)>,
    source: SourceView,
    n: int,
) -> Result<Seq<(Seq<char>, EntryView)>, Seq<char>>
    decreases n,
{
    if n <= 0 {
        Ok(catalog)
    } else {
        match with_profiles(catalog, source, n - 1) {
            Err(problem) => Err(problem),
            Ok(before) => match source.profiles[n - 1].normalized_id {
                None => Err(
                    "provider profile '"@ + source.profiles[n - 1].proto.id + "' in source '"@
                        + source.source_id + "' has invalid id"@,
                ),
                Some(id) => if ordered::lookup(before, id) is Some {
                    Err(
                        "duplicate visible provider profile id '"@ + id
                            + "' across catalog sources"@,
                    )
                } else {
                    Ok(ordered::put(before, id, entry_of(source, source.profiles[n - 1])))
                },
            },
        }
    }
}

/// A source is visible: where one is authoritative, only that one.
pub open spec fn is_visible(source: SourceView, authoritative: bool) -> bool {
    if authoritative {
        source.mode == ProfileCatalogSourceMode::Authoritative
    } else {
        source.mode == ProfileCatalogSourceMode::Append
    }
}

/// The profiles of the first visible sources.
pub open spec fn visible_profiles(sources: Seq<SourceView>, authoritative: bool, n: int) -> Result<
    Seq<(Seq<char>, EntryView)>,
    Seq<char>,
>
    decreases n,
{
    if n <= 0 {
        Ok(Seq::empty())
    } else {
        match visible_profiles(sources, authoritative, n - 1) {
            Err(problem) => Err(problem),
            Ok(before) => if is_visible(sources[n - 1], authoritative) {
                with_profiles(before, sources[n - 1], sources[n - 1].profiles.len() as int)
            } else {
                Ok(before)
            },
        }
    }
}

/// The catalog of some sources.
pub open spec fn catalog_of(sources: Seq<SourceView>) -> Result<CatalogView, Seq<char>> {
    if authoritative_count(sources) > 1 {
        Err("multiple authoritative provider profile catalog sources configured"@)
    } else {
        match first_problem(sources, 0) {
            Some(problem) => Err(problem),
            None => {
                let authoritative = authoritative_count(sources) == 1;
                match visible_profiles(sources, authoritative, sources.len() as int) {
                    Err(problem) => Err(problem),
                    Ok(visible) => Ok(CatalogView { visible, authoritative }),
                }
            },
        }
    }
}

fn format_diagnostic(diagnostic: &ProfileValidationDiagnostic) -> (r: String)
    ensures
        r@ == diagnostic_text(diagnostic.deep_view()),
{
    if diagnostic.profile_id.as_str().is_empty() {
        cat3(diagnostic.field.as_str(), ": ", diagnostic.message.as_str())
    } else {
        cat6(
            "provider profile '",
            diagnostic.profile_id.as_str(),
            "' ",
            diagnostic.field.as_str(),
            ": ",
            diagnostic.message.as_str(),
        )
    }
}

/// Checks what the validation of a source's profiles found.
pub fn validate_source_profiles(source: &ProfileCatalogSource) -> (r: Result<(), String>)
    ensures
        shown(r) == (match first_error(source.deep_view().diagnostics) {
            Some(diagnostic) => Err(diagnostic_text(diagnostic)),
            None => Ok(()),
        }),
{
    let ghost list = source.diagnostics.deep_view();
    let mut i: usize = 0;
    proof {
        assert(list.skip(0) =~= list);
    }
    while i < source.diagnostics.len()
        invariant
            i <= source.diagnostics.len(),
            list == source.diagnostics.deep_view(),
            first_error(list) == first_error(list.skip(i as int)),
        decreases source.diagnostics.len() - i,
    {
        proof {
            assert(list.skip(i as int)[0] == source.diagnostics@[i as int].deep_view());
            assert(list.skip(i as int).skip(1) =~= list.skip(i + 1));
        }
        if text::same(source.diagnostics[i].severity.as_str(), "error") {
            return Err(format_diagnostic(&source.diagnostics[i]));
        }
        i += 1;
    }
    Ok(())
}

fn count_authoritative(sources: &Vec<ProfileCatalogSource>) -> (r: usize)
    ensures
        r == authoritative_count(sources.deep_view()),
{
    let ghost list = sources.deep_view();
    let mut count: usize = 0;
    let mut i: usize = 0;
    proof {
        assert(list.take(0) =~= Seq::empty());
    }
    while i < sources.len()
        invariant
            i <= sources.len(),
            count <= i,
            list == sources.deep_view(),
            count == authoritative_count(list.take(i as int)),
        decreases sources.len() - i,
    {
        proof {
            assert(list.take(i + 1).drop_last() =~= list.take(i as int));
            assert(list.take(i + 1).last() == sources@[i as int].deep_view());
        }
        if sources[i].mode == ProfileCatalogSourceMode::Authoritative {
            count += 1;
        }
        i += 1;
    }
    proof {
        assert(list.take(i as int) =~= list);
    }
    count
}

fn source_is_repeated(sources: &Vec<ProfileCatalogSource>, i: usize) -> (r: bool)
    requires
        i < sources.len(),
    ensures
        r == is_repeated(sources.deep_view(), i as int),
{
    let ghost list = sources.deep_view();
    let source_id = text::trim(sources[i].source_id.as_str());
    proof {
        assert(list[i as int] == sources@[i as int].deep_view());
    }
    let mut j: usize = 0;
    while j < i
        invariant
            j <= i,
            i < sources.len(),
            list == sources.deep_view(),
            source_id@ == text::trimmed(list[i as int].source_id),
            forall|k: int|
                0 <= k < j ==> text::trimmed(#[trigger] list[k].source_id) != text::trimmed(
                    list[i as int].source_id,
                ),
        decreases i - j,
    {
        proof {
            assert(list[j as int].source_id == sources@[j as int].source_id@);
        }
        if text::same(text::trim(sources[j].source_id.as_str()), source_id) {
            return true;
        }
        j += 1;
    }
    false
}

fn check_source(sources: &Vec<ProfileCatalogSource>, i: usize) -> (r: Option<String>)
    requires
        i < sources.len(),
    ensures
        r.deep_view() == source_problem(sources.deep_view(), i as int),
{
    let source = &sources[i];
    proof {
        assert(sources.deep_view()[i as int] == source.deep_view());
    }
    let source_id = text::trim(source.source_id.as_str());
    if source_id.is_empty() {
        return Some("provider profile catalog source_id must not be empty".to_owned());
    }
    if source_is_repeated(sources, i) {
        return Some(
            cat3("duplicate provider profile catalog source id '", source_id, "'"),
        );
    }
    if source.mode == ProfileCatalogSourceMode::Authoritative && source.profiles.len() == 0 {
        return Some(
            cat3(
                "authoritative provider profile catalog source '",
                source_id,
                "' must not be empty",
            ),
        );
    }
    match validate_source_profiles(source) {
        Ok(_) => None,
        Err(problem) => Some(problem),
    }
}

fn check_sources(sources: &Vec<ProfileCatalogSource>) -> (r: Option<String>)
    ensures
        r.deep_view() == first_problem(sources.deep_view(), 0),
{
    let mut i: usize = 0;
    while i < sources.len()
        invariant
            i <= sources.len(),
            first_problem(sources.deep_view(), 0) == first_problem(sources.deep_view(), i as int),
        decreases sources.len() - i,
    {
        if let Some(problem) = check_source(sources, i) {
            return Some(problem);
        }
        i += 1;
    }
    None
}

proof fn lemma_profiles_failed(
    catalog: Seq<(Seq<char>, EntryView)>,
    source: SourceView,
    n: int,
    m: int,
)
    requires
        0 <= n <= m,
        with_profiles(catalog, source, n) is Err,
    ensures
        with_profiles(catalog, source, m) == with_profiles(catalog, source, n),
    decreases m - n,
{
    if n < m {
        lemma_profiles_failed(catalog, source, n, m - 1);
    }
}

proof fn lemma_sources_failed(sources: Seq<SourceView>, authoritative: bool, n: int, m: int)
    requires
        0 <= n <= m,
        visible_profiles(sources, authoritative, n) is Err,
    ensures
        visible_profiles(sources, authoritative, m) == visible_profiles(sources, authoritative, n),
    decreases m - n,
{
    if n < m {
        lemma_sources_failed(sources, authoritative, n, m - 1);
    }
}

fn add_source(catalog: &mut Vec<(String, StaticProfileEntry)>, source: &ProfileCatalogSource) -> (r:
    Result<(), String>)
    ensures
        match with_profiles(
            old(catalog).deep_view(),
            source.deep_view(),
            source.profiles.len() as int,
        ) {
            Ok(whole) => r is Ok && final(catalog).deep_view() == whole,
            Err(problem) => r matches Err(message) && message@ == problem,
        },
{
    let ghost before = catalog.deep_view();
    let ghost seen = source.deep_view();
    let mut i: usize = 0;
    while i < source.profiles.len()
        invariant
            i <= source.profiles.len(),
            before == old(catalog).deep_view(),
            seen == source.deep_view(),
            with_profiles(before, seen, i as int) == Ok::<
                Seq<(Seq<char>, EntryView)>,
                Seq<char>,
            >(catalog.deep_view()),
        decreases source.profiles.len() - i,
    {
        let profile = &source.profiles[i];
        proof {
            assert(seen.profiles[i as int] == profile.deep_view());
        }
        let id = match &profile.normalized_id {
            Some(id) => id,
            None => {
                proof {
                    lemma_profiles_failed(
                        before,
                        seen,
                        i + 1,
                        source.profiles.len() as int,
                    );
                }
                return Err(
                    cat5(
                        "provider profile '",
                        profile.proto.id.as_str(),
                        "' in source '",
                        source.source_id.as_str(),
                        "' has invalid id",
                    ),
                );
            },
        };
        if ordered::get(catalog, id.as_str()).is_some() {
            proof {
                lemma_profiles_failed(before, seen, i + 1, source.profiles.len() as int);
            }
            return Err(
                cat3(
                    "duplicate visible provider profile id '",
                    id.as_str(),
                    "' across catalog sources",
                ),
            );
        }
        let entry = StaticProfileEntry {
            source_id: source.source_id.clone(),
            mode: source.mode,
            profile: profile.proto.copy(),
        };
        ordered::insert(catalog, id.clone(), entry);
        i += 1;
    }
    Ok(())
}

// ---------------------------------------------------------------------------
// The catalog
// ---------------------------------------------------------------------------

/// The profiles that a gateway offers by itself. Where a source is authoritative,
/// no others are offered.
#[derive(Debug, Clone, PartialEq, Eq)]
pub struct ProviderProfileCatalog {
    pub visible_static: Vec<(String, StaticProfileEntry)>,
    pub authoritative: bool,
}

/// The content of a catalog.
#[verifier::ext_equal]
pub struct CatalogView {
    pub visible: Seq<(Seq<char>, EntryView)>,
    pub authoritative: bool,
}

impl DeepView for ProviderProfileCatalog {
    type V = CatalogView;

    open spec fn deep_view(&self) -> CatalogView {
        CatalogView {
            visible: self.visible_static.deep_view(),
            authoritative: self.authoritative,
        }
    }
}

/// A profile that was stored by a user.
#[derive(Debug, Clone, PartialEq, Eq)]
pub struct StoredProviderProfile {
    pub metadata: Option<ProfileMetadata>,
    pub normalized_id: Option<String>,
    pub profile: Option<ProviderProfile>,
}

/// What a store keeps about a profile.
#[derive(Debug, Clone, PartialEq, Eq)]
pub struct ProfileMetadata {
    pub id: String,
    pub name: String,
    pub created_at_ms: i64,
    pub resource_version: u64,
    pub labels: Vec<(String, String)>,
    pub annotations: Vec<(String, String)>,
}

/// The content of what a store keeps.
#[verifier::ext_equal]
pub struct MetadataView {
    pub id: Seq<char>,
    pub name: Seq<char>,
    pub created_at_ms: i64,
    pub resource_version: u64,
    pub labels: Seq<(Seq<char>, Seq<char>)>,
    pub annotations: Seq<(Seq<char>, Seq<char>)>,
}

/// The content of a stored profile.
pub struct StoredView {
    pub metadata: Option<MetadataView>,
    pub normalized_id: Option<Seq<char>>,
    pub profile: Option<ProfileView>,
}

impl DeepView for ProfileMetadata {
    type V = MetadataView;

    open spec fn deep_view(&self) -> MetadataView {
        MetadataView {
            id: self.id@,
            name: self.name@,
            created_at_ms: self.created_at_ms,
            resource_version: self.resource_version,
            labels: self.labels.deep_view(),
            annotations: self.annotations.deep_view(),
        }
    }
}

impl DeepView for StoredProviderProfile {
    type V = StoredView;

    open spec fn deep_view(&self) -> StoredView {
        StoredView {
            metadata: self.metadata.deep_view(),
            normalized_id: self.normalized_id.deep_view(),
            profile: self.profile.deep_view(),
        }
    }
}

/// A profile with a version.
pub open spec fn versioned(profile: ProfileView, resource_version: u64) -> ProfileView {
    ProfileView { resource_version, ..profile }
}

/// The version of a stored profile.
pub open spec fn version_of(stored: StoredView) -> u64 {
    match stored.metadata {
        Some(metadata) => metadata.resource_version,
        None => 0,
    }
}

/// A stored profile as callers see it.
pub open spec fn response_of(stored: StoredView) -> Option<ProfileView> {
    match stored.profile {
        Some(profile) => Some(versioned(profile, version_of(stored))),
        None => None,
    }
}

/// A stored profile is hidden by one of the catalog.
pub open spec fn is_shadowed(catalog: CatalogView, stored: StoredView) -> bool {
    stored.normalized_id is Some && ordered::lookup(
        catalog.visible,
        stored.normalized_id->0,
    ) is Some
}

/// The profiles of the catalog.
pub open spec fn static_profiles(catalog: CatalogView) -> Seq<ProfileView> {
    Seq::new(catalog.visible.len(), |i: int| catalog.visible[i].1.profile)
}

/// The profiles of the first stored ones that are not hidden.
pub open spec fn stored_profiles(catalog: CatalogView, stored: Seq<StoredView>) -> Seq<ProfileView>
    decreases stored.len(),
{
    if stored.len() == 0 {
        Seq::empty()
    } else {
        let before = stored_profiles(catalog, stored.drop_last());
        match response_of(stored.last()) {
            Some(profile) => if is_shadowed(catalog, stored.last()) {
                before
            } else {
                before.push(profile)
            },
            None => before,
        }
    }
}

/// The profiles that are offered, in order.
pub open spec fn listed(catalog: CatalogView, stored: Seq<StoredView>) -> Seq<ProfileView> {
    in_order::<ProviderProfile>(
        if catalog.authoritative {
            static_profiles(catalog)
        } else {
            static_profiles(catalog) + stored_profiles(catalog, stored)
        },
    )
}

/// Where a profile is found.
#[derive(Debug, Clone, PartialEq, Eq)]
pub enum ProfileLookup {
    /// There is none.
    Absent,
    /// In the catalog.
    Known(ProviderProfile),
    /// In the store, if anywhere, under a normalized identity.
    Stored(String),
}

/// The content of where a profile is found.
pub enum LookupView {
    Absent,
    Known(ProfileView),
    Stored(Seq<char>),
}

impl DeepView for ProfileLookup {
    type V = LookupView;

    open spec fn deep_view(&self) -> LookupView {
        match self {
            ProfileLookup::Absent => LookupView::Absent,
            ProfileLookup::Known(profile) => LookupView::Known(profile.deep_view()),
            ProfileLookup::Stored(id) => LookupView::Stored(id@),
        }
    }
}

/// Where the profile with a normalized identity is found.
pub open spec fn looked_up(catalog: CatalogView, id: Option<Seq<char>>) -> LookupView {
    match id {
        None => LookupView::Absent,
        Some(id) => match ordered::lookup(catalog.visible, id) {
            Some(entry) => LookupView::Known(entry.profile),
            None => if catalog.authoritative {
                LookupView::Absent
            } else {
                LookupView::Stored(id)
            },
        },
    }
}

/// What a store keeps of a profile, as it was written.
#[derive(Debug, Clone, PartialEq, Eq)]
pub struct ProfileRecord {
    pub id: String,
    pub updated_at_ms: i64,
    pub payload: Vec<u8>,
}

/// The content of a record.
#[verifier::ext_equal]
pub struct RecordView {
    pub id: Seq<char>,
    pub updated_at_ms: i64,
    pub payload: Seq<u8>,
}

impl DeepView for ProfileRecord {
    type V = RecordView;

    open spec fn deep_view(&self) -> RecordView {
        RecordView { id: self.id@, updated_at_ms: self.updated_at_ms, payload: self.payload@ }
    }
}

/// How a mode is named in a revision.
pub open spec fn revision_tag(mode: ProfileCatalogSourceMode) -> Seq<char> {
    match mode {
        ProfileCatalogSourceMode::Append => "append"@,
        ProfileCatalogSourceMode::Authoritative => "authoritative"@,
    }
}

/// The bytes that tell revisions of a profile apart. `record` is what the store
/// keeps of it.
pub open spec fn revision_of(
    catalog: CatalogView,
    id: Option<Seq<char>>,
    record: Option<RecordView>,
) -> Seq<u8> {
    match id {
        None => encode_utf8("invalid-profile-id"@),
        Some(id) => match ordered::lookup(catalog.visible, id) {
            Some(entry) => encode_utf8("catalog-profile"@) + encode_utf8(entry.source_id)
                + encode_utf8(revision_tag(entry.mode)) + entry.profile.encoded,
            None => if catalog.authoritative {
                encode_utf8("missing"@)
            } else {
                encode_utf8("user-profile"@) + (match record {
                    Some(record) => encode_utf8(record.id) + spec_u64_to_le_bytes(
                        record.updated_at_ms as u64,
                    ) + record.payload,
                    None => encode_utf8("missing"@),
                })
            },
        },
    }
}

impl ProfileCatalogSourceMode {
    /// How the mode is named in a revision.
    pub fn as_revision_tag(self) -> (r: &'static str)
        ensures
            r@ == revision_tag(self),
    {
        match self {
            ProfileCatalogSourceMode::Append => "append",
            ProfileCatalogSourceMode::Authoritative => "authoritative",
        }
    }
}

/// The source of the profiles that are built in.
pub open spec fn builtin_source(
    profiles: Seq<TypeProfileView>,
    diagnostics: Seq<DiagnosticView>,
) -> SourceView {
    SourceView {
        source_id: BUILTIN_SOURCE_ID@,
        mode: ProfileCatalogSourceMode::Append,
        profiles,
        diagnostics,
    }
}

/// The source of the profiles that are built in.
pub fn builtin_profile_source(
    profiles: Vec<ProviderTypeProfile>,
    diagnostics: Vec<ProfileValidationDiagnostic>,
) -> (r: ProfileCatalogSource)
    ensures
        r.deep_view() == builtin_source(profiles.deep_view(), diagnostics.deep_view()),
{
    ProfileCatalogSource {
        source_id: BUILTIN_SOURCE_ID.to_owned(),
        mode: ProfileCatalogSourceMode::Append,
        profiles,
        diagnostics,
    }
}

fn append_bytes(bytes: &mut Vec<u8>, more: &Vec<u8>)
    ensures
        final(bytes)@ == old(bytes)@ + more@,
{
    let ghost before = bytes@;
    let mut copy = more.clone();
    assert(copy@ =~= more@);
    bytes.append(&mut copy);
}

impl ProviderProfileCatalog {
    /// The catalog of the built-in profiles and of the sources of interceptors.
    pub fn from_interceptor_sources(
        builtin: ProfileCatalogSource,
        sources: Vec<ProfileCatalogSource>,
    ) -> (r: Result<ProviderProfileCatalog, String>)
        ensures
            shown(r) == catalog_of(seq![builtin.deep_view()] + sources.deep_view()),
    {
        let ghost rest = sources.deep_view();
        let mut all: Vec<ProfileCatalogSource> = Vec::new();
        let mut others = sources;
        all.push(builtin);
        all.append(&mut others);
        assert(all.deep_view() =~= seq![builtin.deep_view()] + rest);
        ProviderProfileCatalog::from_sources(all)
    }

    /// The catalog of the built-in profiles alone.
    pub fn with_builtin_profiles(builtin: ProfileCatalogSource) -> (r: Result<
        ProviderProfileCatalog,
        String,
    >)
        ensures
            shown(r) == catalog_of(seq![builtin.deep_view()]),
    {
        let mut all: Vec<ProfileCatalogSource> = Vec::new();
        all.push(builtin);
        assert(all.deep_view() =~= seq![builtin.deep_view()]);
        ProviderProfileCatalog::from_sources(all)
    }

    /// The catalog of some sources.
    pub fn from_sources(sources: Vec<ProfileCatalogSource>) -> (r: Result<
        ProviderProfileCatalog,
        String,
    >)
        ensures
            shown(r) == catalog_of(sources.deep_view()),
    {
        let ghost list = sources.deep_view();
        let count = count_authoritative(&sources);
        if count > 1 {
            return Err(
                "multiple authoritative provider profile catalog sources configured".to_owned(),
            );
        }
        if let Some(problem) = check_sources(&sources) {
            return Err(problem);
        }
        let authoritative = count == 1;
        let mut visible: Vec<(String, StaticProfileEntry)> = Vec::new();
        proof {
            assert(visible.deep_view() =~= Seq::empty());
        }
        let mut i: usize = 0;
        while i < sources.len()
            invariant
                i <= sources.len(),
                list == sources.deep_view(),
                authoritative_count(list) <= 1,
                first_problem(list, 0) is None,
                authoritative == (authoritative_count(list) == 1),
                visible_profiles(list, authoritative, i as int) == Ok::<
                    Seq<(Seq<char>, EntryView)>,
                    Seq<char>,
                >(visible.deep_view()),
            decreases sources.len() - i,
        {
            proof {
                assert(list[i as int] == sources@[i as int].deep_view());
            }
            let is_authoritative = sources[i].mode == ProfileCatalogSourceMode::Authoritative;
            if is_authoritative == authoritative {
                match add_source(&mut visible, &sources[i]) {
                    Ok(_) => {},
                    Err(problem) => {
                        proof {
                            lemma_sources_failed(list, authoritative, i + 1, list.len() as int);
                        }
                        return Err(problem);
                    },
                }
            }
            i += 1;
        }
        Ok(ProviderProfileCatalog { visible_static: visible, authoritative })
    }

    /// The source of the profile with a normalized identity.
    pub fn static_source_for_profile(&self, normalized_id: Option<&str>) -> (r: Option<&str>)
        ensures
            r.deep_view() == (match normalized_id.deep_view() {
                None => None,
                Some(id) => match ordered::lookup(self.deep_view().visible, id) {
                    Some(entry) => Some(entry.source_id),
                    None => None,
                },
            }),
    {
        let id = match normalized_id {
            Some(id) => id,
            None => {
                return None;
            },
        };
        match ordered::get(&self.visible_static, id) {
            Some(entry) => Some(entry.source_id.as_str()),
            None => None,
        }
    }

    /// The profiles that are offered, given what users stored.
    pub fn list_profiles(&self, stored: &Vec<StoredProviderProfile>) -> (r: Vec<ProviderProfile>)
        ensures
            r.deep_view() == listed(self.deep_view(), stored.deep_view()),
    {
        let ghost catalog = self.deep_view();
        let ghost known = static_profiles(catalog);
        let mut profiles: Vec<ProviderProfile> = Vec::new();
        let mut i: usize = 0;
        proof {
            assert(profiles.deep_view() =~= known.take(0));
        }
        while i < self.visible_static.len()
            invariant
                i <= self.visible_static.len(),
                catalog == self.deep_view(),
                known == static_profiles(catalog),
                profiles.deep_view() == known.take(i as int),
            decreases self.visible_static.len() - i,
        {
            let ghost before = profiles.deep_view();
            proof {
                assert(catalog.visible[i as int] == self.visible_static@[i as int].deep_view());
                assert(known[i as int] == self.visible_static@[i as int].1.profile.deep_view());
            }
            profiles.push(self.visible_static[i].1.profile.copy());
            proof {
                assert(profiles.deep_view() =~= before.push(known[i as int]));
                assert(before.push(known[i as int]) =~= known.take(i + 1));
            }
            i += 1;
        }
        proof {
            assert(known.take(i as int) =~= known);
        }
        if !self.authoritative {
            self.add_stored(&mut profiles, stored);
        }
        sort(profiles)
    }

    fn add_stored(&self, profiles: &mut Vec<ProviderProfile>, stored: &Vec<StoredProviderProfile>)
        ensures
            final(profiles).deep_view() == old(profiles).deep_view() + stored_profiles(
                self.deep_view(),
                stored.deep_view(),
            ),
    {
        let ghost catalog = self.deep_view();
        let ghost first = profiles.deep_view();
        let ghost list = stored.deep_view();
        let mut i: usize = 0;
        proof {
            assert(list.take(0) =~= Seq::empty());
            assert(first + Seq::<ProfileView>::empty() =~= first);
        }
        while i < stored.len()
            invariant
                i <= stored.len(),
                catalog == self.deep_view(),
                first == old(profiles).deep_view(),
                list == stored.deep_view(),
                profiles.deep_view() == first + stored_profiles(catalog, list.take(i as int)),
            decreases stored.len() - i,
        {
            let ghost before = profiles.deep_view();
            proof {
                assert(list.take(i + 1).drop_last() =~= list.take(i as int));
                assert(list.take(i + 1).last() == stored@[i as int].deep_view());
            }
            let resource_version = stored_profile_resource_version(&stored[i]);
            if let Some(profile) = &stored[i].profile {
                let shadowed = match &stored[i].normalized_id {
                    Some(id) => ordered::get(&self.visible_static, id.as_str()).is_some(),
                    None => false,
                };
                if !shadowed {
                    let response = profile_response_payload(profile.copy(), resource_version);
                    let ghost shown_profile = response.deep_view();
                    profiles.push(response);
                    proof {
                        assert(profiles.deep_view() =~= before.push(shown_profile));
                        assert(before.push(shown_profile) =~= first + stored_profiles(
                            catalog,
                            list.take(i as int),
                        ).push(shown_profile));
                    }
                }
            }
            i += 1;
        }
        proof {
            assert(list.take(i as int) =~= list);
        }
    }

    /// Where the profile with a normalized identity is found.
    pub fn get_profile(&self, normalized_id: Option<&str>) -> (r: ProfileLookup)
        ensures
            r.deep_view() == looked_up(self.deep_view(), normalized_id.deep_view()),
    {
        let id = match normalized_id {
            Some(id) => id,
            None => {
                return ProfileLookup::Absent;
            },
        };
        if let Some(entry) = ordered::get(&self.visible_static, id) {
            return ProfileLookup::Known(entry.profile.copy());
        }
        if self.authoritative {
            return ProfileLookup::Absent;
        }
        ProfileLookup::Stored(id.to_owned())
    }

    /// The bytes that tell revisions of a profile apart. `record` is what the store
    /// keeps of it, where [`ProviderProfileCatalog::get_profile`] says that it is in
    /// the store.
    pub fn hash_profile_revision(
        &self,
        normalized_id: Option<&str>,
        record: Option<&ProfileRecord>,
    ) -> (r: Vec<u8>)
        ensures
            r@ == revision_of(self.deep_view(), normalized_id.deep_view(), record.deep_view()),
    {
        let id = match normalized_id {
            Some(id) => id,
            None => {
                return "invalid-profile-id".as_bytes_vec();
            },
        };
        if let Some(entry) = ordered::get(&self.visible_static, id) {
            let mut bytes = "catalog-profile".as_bytes_vec();
            append_bytes(&mut bytes, &entry.source_id.as_str().as_bytes_vec());
            append_bytes(&mut bytes, &entry.mode.as_revision_tag().as_bytes_vec());
            append_bytes(&mut bytes, &entry.profile.encoded);
            return bytes;
        }
        if self.authoritative {
            return "missing".as_bytes_vec();
        }
        let mut bytes = "user-profile".as_bytes_vec();
        match record {
            Some(record) => {
                let ghost start = bytes@;
                let time = u64_to_le_bytes(#[verifier::truncate] (record.updated_at_ms as u64));
                append_bytes(&mut bytes, &record.id.as_str().as_bytes_vec());
                append_bytes(&mut bytes, &time);
                append_bytes(&mut bytes, &record.payload);
                proof {
                    assert(bytes@ =~= start + (encode_utf8(record.id@) + spec_u64_to_le_bytes(
                        record.updated_at_ms as u64,
                    ) + record.payload@));
                }
            },
            None => {
                append_bytes(&mut bytes, &"missing".as_bytes_vec());
            },
        }
        bytes
    }
}

/// A stored profile as callers see it.
pub fn stored_profile_response(stored: Option<StoredProviderProfile>) -> (r: Option<ProviderProfile>)
    ensures
        r.deep_view() == (match stored.deep_view() {
            Some(stored) => response_of(stored),
            None => None,
        }),
{
    match stored {
        Some(stored) => {
            let resource_version = stored_profile_resource_version(&stored);
            match stored.profile {
                Some(profile) => Some(profile_response_payload(profile, resource_version)),
                None => None,
            }
        },
        None => None,
    }
}

/// The version of a stored profile.
pub fn stored_profile_resource_version(stored: &StoredProviderProfile) -> (r: u64)
    ensures
        r == version_of(stored.deep_view()),
{
    match &stored.metadata {
        Some(metadata) => metadata.resource_version,
        None => 0,
    }
}

/// A profile as it is stored: without a version.
pub fn profile_storage_payload(profile: ProviderProfile) -> (r: ProviderProfile)
    ensures
        r.deep_view() == versioned(profile.deep_view(), 0),
{
    ProviderProfile { id: profile.id, resource_version: 0, encoded: profile.encoded }
}

/// A profile as callers see it: with the version of its object.
pub fn profile_response_payload(profile: ProviderProfile, resource_version: u64) -> (r:
    ProviderProfile)
    ensures
        r.deep_view() == versioned(profile.deep_view(), resource_version),
{
    ProviderProfile { id: profile.id, resource_version, encoded: profile.encoded }
}

/// What is stored of a new profile. `id` is the identity of its object.
pub fn stored_provider_profile(
    profile: ProviderProfile,
    normalized_id: Option<String>,
    id: &str,
    now_ms: i64,
) -> (r: StoredProviderProfile)
    ensures
        r.deep_view() == (StoredView {
            metadata: Some(
                MetadataView {
                    id: id@,
                    name: profile.id@,
                    created_at_ms: now_ms,
                    resource_version: 0,
                    labels: Seq::empty(),
                    annotations: Seq::empty(),
                },
            ),
            normalized_id: normalized_id.deep_view(),
            profile: Some(versioned(profile.deep_view(), 0)),
        }),
{
    let payload = profile_storage_payload(profile);
    let labels: Vec<(String, String)> = Vec::new();
    let annotations: Vec<(String, String)> = Vec::new();
    assert(labels.deep_view() =~= Seq::empty());
    assert(annotations.deep_view() =~= Seq::empty());
    StoredProviderProfile {
        metadata: Some(
            ProfileMetadata {
                id: id.to_owned(),
                name: payload.id.clone(),
                created_at_ms: now_ms,
                resource_version: 0,
                labels,
                annotations,
            },
        ),
        normalized_id,
        profile: Some(payload),
    }
}

// ---------------------------------------------------------------------------
// Laws
// ---------------------------------------------------------------------------

/// All entries of a catalog have a given mode.
pub open spec fn all_of_mode(
    catalog: Seq<(Seq<char>, EntryView)>,
    mode: ProfileCatalogSourceMode,
) -> bool {
    forall|i: int| 0 <= i < catalog.len() ==> (#[trigger] catalog[i]).1.mode == mode
}

proof fn lemma_put_mode(
    catalog: Seq<(Seq<char>, EntryView)>,
    key: Seq<char>,
    entry: EntryView,
    mode: ProfileCatalogSourceMode,
)
    requires
        all_of_mode(catalog, mode),
        entry.mode == mode,
    ensures
        all_of_mode(ordered::put(catalog, key, entry), mode),
    decreases catalog.len(),
{
    if catalog.len() > 0 && key != catalog[0].0 && !text::less(key, catalog[0].0) {
        let rest = catalog.skip(1);
        assert forall|i: int| 0 <= i < rest.len() implies (#[trigger] rest[i]).1.mode == mode by {
            assert(rest[i] == catalog[i + 1]);
        }
        lemma_put_mode(rest, key, entry, mode);
        let whole = ordered::put(catalog, key, entry);
        assert forall|i: int| 0 <= i < whole.len() implies (#[trigger] whole[i]).1.mode
            == mode by {
            if i > 0 {
                assert(whole[i] == ordered::put(rest, key, entry)[i - 1]);
            }
        }
    } else if catalog.len() > 0 {
        let whole = ordered::put(catalog, key, entry);
        assert forall|i: int| 0 <= i < whole.len() implies (#[trigger] whole[i]).1.mode
            == mode by {
            if i > 0 {
                if key == catalog[0].0 {
                    assert(whole[i] == catalog[i]);
                } else {
                    assert(whole[i] == catalog[i - 1]);
                }
            }
        }
    }
}

proof fn lemma_profiles_mode(catalog: Seq<(Seq<char>, EntryView)>, source: SourceView, n: int)
    requires
        0 <= n <= source.profiles.len(),
        all_of_mode(catalog, source.mode),
        ordered::is_map(catalog),
        with_profiles(catalog, source, n) is Ok,
    ensures
        all_of_mode(with_profiles(catalog, source, n)->Ok_0, source.mode),
        ordered::is_map(with_profiles(catalog, source, n)->Ok_0),
    decreases n,
{
    if n > 0 {
        lemma_profiles_mode(catalog, source, n - 1);
        let before = with_profiles(catalog, source, n - 1)->Ok_0;
        let profile = source.profiles[n - 1];
        let id = profile.normalized_id->0;
        lemma_put_mode(before, id, entry_of(source, profile), source.mode);
        ordered::law_put_map(before, id, entry_of(source, profile));
    }
}

proof fn lemma_visible(sources: Seq<SourceView>, authoritative: bool, n: int)
    requires
        0 <= n <= sources.len(),
        visible_profiles(sources, authoritative, n) is Ok,
    ensures
        all_of_mode(
            visible_profiles(sources, authoritative, n)->Ok_0,
            if authoritative {
                ProfileCatalogSourceMode::Authoritative
            } else {
                ProfileCatalogSourceMode::Append
            },
        ),
        ordered::is_map(visible_profiles(sources, authoritative, n)->Ok_0),
    decreases n,
{
    if n > 0 {
        lemma_visible(sources, authoritative, n - 1);
        let before = visible_profiles(sources, authoritative, n - 1)->Ok_0;
        if is_visible(sources[n - 1], authoritative) {
            lemma_profiles_mode(
                before,
                sources[n - 1],
                sources[n - 1].profiles.len() as int,
            );
        }
    }
}

/// Where a source is authoritative, every profile of the catalog is from such a
/// source; otherwise none is.
pub proof fn law_authoritative_source_hides_others(sources: Seq<SourceView>)
    requires
        catalog_of(sources) is Ok,
    ensures
        all_of_mode(
            catalog_of(sources)->Ok_0.visible,
            if catalog_of(sources)->Ok_0.authoritative {
                ProfileCatalogSourceMode::Authoritative
            } else {
                ProfileCatalogSourceMode::Append
            },
        ),
{
    lemma_visible(
        sources,
        catalog_of(sources)->Ok_0.authoritative,
        sources.len() as int,
    );
}

/// The profiles of a catalog have different identities, and stand in their order.
pub proof fn law_catalog_is_a_map(sources: Seq<SourceView>)
    requires
        catalog_of(sources) is Ok,
    ensures
        ordered::is_map(catalog_of(sources)->Ok_0.visible),
{
    lemma_visible(
        sources,
        catalog_of(sources)->Ok_0.authoritative,
        sources.len() as int,
    );
}

proof fn lemma_kept(
    catalog: Seq<(Seq<char>, EntryView)>,
    source: SourceView,
    n: int,
    id: Seq<char>,
)
    requires
        0 <= n <= source.profiles.len(),
        ordered::is_map(catalog),
        with_profiles(catalog, source, n) is Ok,
        ordered::lookup(catalog, id) is Some,
    ensures
        ordered::is_map(with_profiles(catalog, source, n)->Ok_0),
        ordered::lookup(with_profiles(catalog, source, n)->Ok_0, id) == ordered::lookup(
            catalog,
            id,
        ),
    decreases n,
{
    if n > 0 {
        lemma_kept(catalog, source, n - 1, id);
        let before = with_profiles(catalog, source, n - 1)->Ok_0;
        let profile = source.profiles[n - 1];
        let entry = entry_of(source, profile);
        ordered::law_put_lookup(before, profile.normalized_id->0, entry, id);
        ordered::law_put_map(before, profile.normalized_id->0, entry);
    }
}

proof fn lemma_added(catalog: Seq<(Seq<char>, EntryView)>, source: SourceView, n: int, k: int)
    requires
        0 <= k < n <= source.profiles.len(),
        ordered::is_map(catalog),
        with_profiles(catalog, source, n) is Ok,
    ensures
        source.profiles[k].normalized_id is Some,
        ordered::is_map(with_profiles(catalog, source, n)->Ok_0),
        ordered::lookup(
            with_profiles(catalog, source, n)->Ok_0,
            source.profiles[k].normalized_id->0,
        ) == Some(entry_of(source, source.profiles[k])),
    decreases n,
{
    let before = with_profiles(catalog, source, n - 1)->Ok_0;
    let profile = source.profiles[n - 1];
    let entry = entry_of(source, profile);
    if k < n - 1 {
        lemma_added(catalog, source, n - 1, k);
        ordered::law_put_lookup(
            before,
            profile.normalized_id->0,
            entry,
            source.profiles[k].normalized_id->0,
        );
    } else {
        lemma_still_map(catalog, source, n - 1);
        ordered::law_put_lookup(
            before,
            profile.normalized_id->0,
            entry,
            profile.normalized_id->0,
        );
    }
    ordered::law_put_map(before, profile.normalized_id->0, entry);
}

proof fn lemma_still_map(catalog: Seq<(Seq<char>, EntryView)>, source: SourceView, n: int)
    requires
        0 <= n <= source.profiles.len(),
        ordered::is_map(catalog),
        with_profiles(catalog, source, n) is Ok,
    ensures
        ordered::is_map(with_profiles(catalog, source, n)->Ok_0),
    decreases n,
{
    if n > 0 {
        lemma_still_map(catalog, source, n - 1);
        ordered::law_put_map(
            with_profiles(catalog, source, n - 1)->Ok_0,
            source.profiles[n - 1].normalized_id->0,
            entry_of(source, source.profiles[n - 1]),
        );
    }
}

proof fn lemma_source_visible(
    sources: Seq<SourceView>,
    authoritative: bool,
    n: int,
    i: int,
    k: int,
)
    requires
        0 <= i < n <= sources.len(),
        0 <= k < sources[i].profiles.len(),
        is_visible(sources[i], authoritative),
        visible_profiles(sources, authoritative, n) is Ok,
    ensures
        sources[i].profiles[k].normalized_id is Some,
        ordered::lookup(
            visible_profiles(sources, authoritative, n)->Ok_0,
            sources[i].profiles[k].normalized_id->0,
        ) == Some(entry_of(sources[i], sources[i].profiles[k])),
    decreases n,
{
    let last = sources[n - 1];
    let before = visible_profiles(sources, authoritative, n - 1)->Ok_0;
    lemma_visible(sources, authoritative, n - 1);
    if i < n - 1 {
        lemma_source_visible(sources, authoritative, n - 1, i, k);
        if is_visible(last, authoritative) {
            lemma_kept(
                before,
                last,
                last.profiles.len() as int,
                sources[i].profiles[k].normalized_id->0,
            );
        }
    } else {
        lemma_added(before, last, last.profiles.len() as int, k);
    }
}

/// Every profile of a visible source is in the catalog, under its identity and
/// with its source.
pub proof fn law_visible_profiles_are_offered(sources: Seq<SourceView>, i: int, k: int)
    requires
        catalog_of(sources) is Ok,
        0 <= i < sources.len(),
        0 <= k < sources[i].profiles.len(),
        is_visible(sources[i], catalog_of(sources)->Ok_0.authoritative),
    ensures
        sources[i].profiles[k].normalized_id is Some,
        ordered::lookup(
            catalog_of(sources)->Ok_0.visible,
            sources[i].profiles[k].normalized_id->0,
        ) == Some(entry_of(sources[i], sources[i].profiles[k])),
{
    lemma_source_visible(
        sources,
        catalog_of(sources)->Ok_0.authoritative,
        sources.len() as int,
        i,
        k,
    );
}

/// An authoritative catalog never looks into the store.
pub proof fn law_authoritative_catalog_ignores_store(
    catalog: CatalogView,
    id: Option<Seq<char>>,
    stored: Seq<StoredView>,
    record: Option<RecordView>,
)
    requires
        catalog.authoritative,
    ensures
        !(looked_up(catalog, id) is Stored),
        listed(catalog, stored) == listed(catalog, Seq::empty()),
        revision_of(catalog, id, record) == revision_of(catalog, id, None),
{
}

} // verus!
