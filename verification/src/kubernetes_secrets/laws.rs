//! Which names the cluster takes, where credentials are kept, and what failures are answered.

use crate::digest::{hex_text, sha256};
use crate::kubernetes_secrets::resolution::{resolution, FetchedView, RequestView};
use crate::kubernetes_secrets::{
    after_creation, delete_outcome, handle_of, is_data_key, is_label, is_label_char, is_subdomain,
    read_problem, resolved, secret_name_of, secret_of, settings_of, store_target, value_of,
    write_problem, DriverConfigView, KubeFailureView, ReferenceView, SettingsView, StepView,
    StoreView,
};
use crate::ordered;
use crate::status::Code;
use crate::text;
use vstd::prelude::*;
use vstd::utf8::{encode_utf8, valid_utf8};

verus! {

// ---------------------------------------------------------------------------
// Names
// ---------------------------------------------------------------------------

/// A label has 1 to 63 characters, of which each is a small letter, a digit or a hyphen, and
/// the first and the last are no hyphens.
pub proof fn law_labels(value: Seq<char>)
    ensures
        is_label(value) <==> 1 <= value.len() <= 63 && (forall|i: int|
            0 <= i < value.len() ==> ('a' <= #[trigger] value[i] && value[i] <= 'z') || ('0'
                <= value[i] && value[i] <= '9') || value[i] == '-') && value[0] != '-'
            && value.last() != '-',
{
    if 1 <= value.len() <= 63 && (forall|i: int|
        0 <= i < value.len() ==> ('a' <= #[trigger] value[i] && value[i] <= 'z') || ('0'
            <= value[i] && value[i] <= '9') || value[i] == '-') {
        assert forall|i: int| 0 <= i < value.len() implies is_label_char(#[trigger] value[i]) by {}
        assert(value.last() == value[value.len() - 1]);
    }
    if is_label(value) {
        assert forall|i: int| 0 <= i < value.len() implies ('a' <= #[trigger] value[i] && value[i]
            <= 'z') || ('0' <= value[i] && value[i] <= '9') || value[i] == '-' by {
            assert(is_label_char(value[i]));
        }
    }
}

/// A subdomain has at most 253 characters, and is made of labels with dots between them.
pub proof fn law_subdomains(value: Seq<char>)
    ensures
        is_subdomain(value) <==> value.len() <= 253 && (forall|i: int|
            0 <= i < text::split(value, '.').len() ==> is_label(
                #[trigger] text::split(value, '.')[i],
            )),
        is_subdomain(value) ==> text::join(text::split(value, '.'), seq!['.']) == value,
{
    let parts = text::split(value, '.');
    text::laws::law_split(value, '.');
    if value.len() <= 253 && (forall|i: int| 0 <= i < parts.len() ==> is_label(#[trigger] parts[i])) {
        assert(is_label(parts[0]));
        if value.len() == 0 {
            assert(value =~= Seq::empty());
            assert(parts[0].len() == 0);
        }
        if text::contains_text(value, ".."@) {
            reveal_strlit("..");
            let i = choose|i: int| #[trigger] text::holds_at(value, ".."@, i);
            assert(value.subrange(i, i + 2)[0] == '.' && value.subrange(i, i + 2)[1] == '.');
            lemma_closed_part(value, i);
        }
    }
}

/// Where two separators follow each other, the empty part between them is not the last.
proof fn lemma_closed_part(value: Seq<char>, i: int)
    requires
        0 <= i < value.len() - 1,
        value[i] == '.',
        value[i + 1] == '.',
    ensures
        exists|c: int|
            0 <= c < text::split(value, '.').len() - 1 && (
            #[trigger] text::split(value, '.')[c]).len() == 0,
    decreases value.len(),
{
    let parts = text::split(value, '.');
    let before = text::split(value.drop_last(), '.');
    text::lemma_split_nonempty(value.drop_last(), '.');
    if i + 1 < value.len() - 1 {
        lemma_closed_part(value.drop_last(), i);
        let c = choose|c: int| 0 <= c < before.len() - 1 && (#[trigger] before[c]).len() == 0;
        assert(parts[c] == before[c]);
    } else {
        let shorter = value.drop_last();
        assert(shorter.last() == '.');
        assert(before.last().len() == 0);
        assert(parts[before.len() - 1] == before.last());
    }
}

/// A data key has 1 to 253 characters: ASCII letters, digits, hyphens, underscores and dots.
pub proof fn law_data_keys(value: Seq<char>)
    ensures
        is_data_key(value) <==> 1 <= value.len() <= 253 && (forall|i: int|
            0 <= i < value.len() ==> ('a' <= #[trigger] value[i] && value[i] <= 'z') || ('A'
                <= value[i] && value[i] <= 'Z') || ('0' <= value[i] && value[i] <= '9') || value[i]
                == '-' || value[i] == '_' || value[i] == '.'),
{
    if is_data_key(value) {
        assert forall|i: int| 0 <= i < value.len() implies ('a' <= #[trigger] value[i] && value[i]
            <= 'z') || ('A' <= value[i] && value[i] <= 'Z') || ('0' <= value[i] && value[i] <= '9')
            || value[i] == '-' || value[i] == '_' || value[i] == '.' by {
            assert(crate::kubernetes_secrets::is_key_char(value[i]));
        }
    }
}

/// The Secret that is managed for a credential is named after the provider and the key, by
/// 40 digits of the digest of both with a zero byte between them.
pub proof fn law_managed_names(provider_name: Seq<char>, credential_key: Seq<char>)
    ensures
        secret_name_of(provider_name, credential_key) == "openshell-cred-"@ + hex_text(
            sha256(encode_utf8(provider_name).push(0) + encode_utf8(credential_key)),
        ).take(40),
{
    assert(encode_utf8(provider_name).push(0) =~= encode_utf8(provider_name) + seq![0u8]);
}

/// A managed Secret holds the value under its key, and is labelled as managed.
pub proof fn law_managed_secrets(secret_name: Seq<char>, key: Seq<char>, value: Seq<char>)
    ensures
        secret_of(secret_name, key, value).name == secret_name,
        secret_of(secret_name, key, value).string_data == seq![(key, value)],
        secret_of(secret_name, key, value).secret_type == "Opaque"@,
        ordered::lookup(secret_of(secret_name, key, value).labels, "app.kubernetes.io/managed-by"@)
            == Some("openshell"@),
{
}

// ---------------------------------------------------------------------------
// Settings and places
// ---------------------------------------------------------------------------

/// The configured namespace is used as it is, and must be a label. Without one, that of the
/// service account is used where it is a label, and `default` where it is not.
pub proof fn law_namespaces(config: DriverConfigView, account: Option<Seq<char>>)
    ensures
        settings_of(Ok(config), account) matches Ok(settings)
            ==> settings.allow_reference_namespace == config.allow_reference_namespace,
        config.namespace matches Some(given) ==> (settings_of(Ok(config), account) is Ok
            <==> is_label(given)),
        config.namespace matches Some(given) ==> (settings_of(Ok(config), account) matches Ok(
            settings,
        ) ==> settings.namespace == given),
        config.namespace is None ==> settings_of(Ok(config), account) is Ok,
        config.namespace is None ==> (settings_of(Ok(config), account) matches Ok(settings)
            && settings.namespace == (match account {
            Some(content) => if is_label(text::trimmed(content)) {
                text::trimmed(content)
            } else {
                "default"@
            },
            None => "default"@,
        })),
{
    if let Some(given) = config.namespace {
        lemma_whole(given);
        if is_label(given) {
            lemma_label_is_trimmed(given);
        }
    }
}

proof fn lemma_whole(value: Seq<char>)
    ensures
        text::trimmed(value).len() == value.len() ==> text::trimmed(value) == value,
{
    let (from, to) = text::laws::law_trimmed(value);
    if text::trimmed(value).len() == value.len() {
        assert(value.subrange(0, value.len() as int) =~= value);
    }
}

proof fn lemma_label_is_trimmed(value: Seq<char>)
    requires
        is_label(value),
    ensures
        text::trimmed(value) == value,
{
    let (from, to) = text::laws::law_trimmed(value);
    assert(is_label_char(value[0]));
    assert(is_label_char(value[value.len() - 1]));
    assert(from == 0);
    assert(to == value.len());
    assert(value.subrange(0, value.len() as int) =~= value);
}

/// A handle that is resolved is the version, the namespace and the name of a Secret with
/// colons between them, and nothing else is resolved.
pub proof fn law_resolved_handles(handle: Seq<char>, key: Seq<char>)
    ensures
        resolved(handle, key) matches Ok(reference) ==> {
            &&& handle == "v1"@ + ":"@ + reference.namespace + ":"@ + reference.secret_name
            &&& reference.key == key
            &&& is_label(reference.namespace)
            &&& is_subdomain(reference.secret_name)
            &&& is_data_key(key)
        },
        resolved(handle, key) matches Err(error) ==> error.code == Code::InvalidArgument,
{
    if let Ok(reference) = resolved(handle, key) {
        let parts = text::split(handle, ':');
        text::laws::law_split(handle, ':');
        reveal_strlit(":");
        assert(":"@ =~= seq![':']);
        lemma_whole(parts[1]);
        lemma_whole(parts[2]);
        lemma_whole(key);
        let two = parts.drop_last();
        let one = two.drop_last();
        assert(one[0] == parts[0] && one.len() == 1);
        assert(two.last() == parts[1] && parts.last() == parts[2]);
        reveal_with_fuel(text::join, 4);
        assert(text::join(one, seq![':']) == parts[0]);
        assert(text::join(two, seq![':']) == parts[0] + seq![':'] + parts[1]);
        assert(text::join(parts, seq![':']) == parts[0] + seq![':'] + parts[1] + seq![':']
            + parts[2]);
    }
}

/// A credential stays where its handle says it is. A new one comes to the managed Secret in
/// the configured namespace, under its own key.
pub proof fn law_places_of_credentials(
    request: StoreView,
    settings: SettingsView,
    managed_name: Seq<char>,
)
    ensures
        request.existing_handle matches Some(handle) ==> store_target(
            request,
            settings,
            managed_name,
        ) == resolved(handle.handle, request.credential_key),
        request.existing_handle is None ==> (store_target(request, settings, managed_name) is Ok
            <==> is_data_key(request.credential_key)),
        request.existing_handle is None ==> (store_target(request, settings, managed_name)
            matches Ok(reference) ==> reference == (ReferenceView {
            namespace: settings.namespace,
            secret_name: managed_name,
            key: request.credential_key,
        })),
        store_target(request, settings, managed_name) matches Err(error) ==> error.code
            == Code::InvalidArgument,
{
    if let Some(handle) = request.existing_handle {
        law_resolved_handles(handle.handle, request.credential_key);
    } else {
        lemma_whole(request.credential_key);
        if is_data_key(request.credential_key) {
            let key = request.credential_key;
            let (from, to) = text::laws::law_trimmed(key);
            assert(crate::kubernetes_secrets::is_key_char(key[0]));
            assert(crate::kubernetes_secrets::is_key_char(key[key.len() - 1]));
            assert(from == 0);
            assert(to == key.len());
        }
    }
}

/// A handle names the driver, and carries nothing beside the place.
pub proof fn law_handles(reference: ReferenceView)
    ensures
        handle_of(reference).driver == "kubernetes-secrets"@,
        handle_of(reference).handle == "v1"@ + ":"@ + reference.namespace + ":"@
            + reference.secret_name,
        handle_of(reference).metadata.len() == 0,
{
}

// ---------------------------------------------------------------------------
// Answers
// ---------------------------------------------------------------------------

/// What is not there is not found, what is forbidden is denied, and any other failure means
/// that the cluster is not available. To delete what is not there succeeds, and to create what
/// is there already leads to a merge.
pub proof fn law_failures(reference: ReferenceView, failure: KubeFailureView)
    ensures
        read_problem(reference.namespace, reference.secret_name, failure).code == (
        if failure.code == Some(404u16) {
            Code::NotFound
        } else if failure.code == Some(403u16) {
            Code::PermissionDenied
        } else {
            Code::Unavailable
        }),
        write_problem(reference.namespace, reference.secret_name, failure).code == (
        if failure.code == Some(403u16) {
            Code::PermissionDenied
        } else {
            Code::Unavailable
        }),
        delete_outcome(reference, Ok(())) is Ok,
        delete_outcome(reference, Err(failure)) is Ok <==> failure.code == Some(404u16),
        delete_outcome(reference, Err(failure)) matches Err(error) ==> error.code == (
        if failure.code == Some(403u16) {
            Code::PermissionDenied
        } else {
            Code::Unavailable
        }),
        after_creation(reference, Ok(())) == StepView::Done,
        after_creation(reference, Err(failure)) == StepView::Merge <==> failure.code == Some(
            409u16,
        ),
        failure.code != Some(409u16) ==> (after_creation(reference, Err(failure))
            matches StepView::Failed(error) && error == write_problem(
            reference.namespace,
            reference.secret_name,
            failure,
        )),
{
}

/// The value of a credential is what its Secret has under its key, which has to be UTF-8.
pub proof fn law_values(reference: ReferenceView, data: Option<Seq<(Seq<char>, Seq<u8>)>>)
    ensures
        value_of(reference, data) is Ok <==> (data matches Some(entries) && (ordered::lookup(
            entries,
            reference.key,
        ) matches Some(bytes) && valid_utf8(bytes))),
        value_of(reference, data) matches Ok(bytes) ==> Some(bytes) == ordered::lookup(
            data->0,
            reference.key,
        ),
        value_of(reference, data) matches Err(error) ==> error.code == (if data is Some
            && ordered::lookup(data->0, reference.key) is Some {
            Code::InvalidArgument
        } else {
            Code::NotFound
        }),
{
}

/// A request is answered under its own identity, with the value that its Secret has under its
/// key, and without an end of its validity.
pub proof fn law_answers(request: RequestView, fetched: FetchedView)
    ensures
        resolution(request, fetched) matches Ok(answer) ==> {
            &&& answer.request_id == request.request_id
            &&& answer.expires_at_ms == 0
            &&& fetched matches Ok(Some(entries)) && ordered::lookup(
                entries,
                request.credential_key,
            ) == Some(answer.value)
        },
        request.handle is None ==> (resolution(request, fetched) matches Err(error) && error.code
            == Code::InvalidArgument),
{
    if let Some(handle) = request.handle {
        law_resolved_handles(handle.handle, request.credential_key);
    }
}

} // verus!
