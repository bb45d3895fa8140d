use vstd::prelude::*;
use vstd::string::StrSliceExecFns;

use crate::client::{request_error_text, ClientBuildError, ConnectionStatus, RequestError};
use crate::model::{PendingInteraction, TranscriptKind};
use crate::rpc::{ExtensionUiRequest, ExtensionUiRequestFrame, StreamingBehavior};
use crate::state::{AgentLifecycle, AgentSnapshot, InteractionLease};
use crate::text::{decimal, decimal_string};
use crate::config::{
    same_connection, with_required_capabilities, AuthenticationSource, ClientConfig, ReconnectPolicy,
};
use crate::codec::{DEFAULT_POST_AUTH_FRAME_BYTES, DEFAULT_PRE_AUTH_FRAME_BYTES};
use crate::connection::SocketTarget;
use crate::ids::{AgentId, LeaseHolderId, RunId, ServerId};
use crate::protocol::{
    ClientCapabilities, ClientDescriptor, ClientPlatform, ControlRequest, ControlResponse,
    PairingBundle, TlsIdentityHint,
};
use crate::text::{bytes_le, lemma_bytes_le_total, lemma_bytes_le_transitive, text_le, texts};

verus! {

/// A server this client has paired with, as the user saved it.
#[derive(Debug, PartialEq, Eq)]
pub struct SavedServerProfile {
    pub name: String,
    pub server_id: ServerId,
    pub endpoint: String,
    pub tls_identity: TlsIdentityHint,
}

impl Clone for SavedServerProfile {
    fn clone(&self) -> (r: Self)
        ensures
            r.name == self.name,
            r.server_id == self.server_id,
            r.endpoint == self.endpoint,
            r.tls_identity@ == self.tls_identity@,
    {
        SavedServerProfile {
            name: self.name.clone(),
            server_id: self.server_id.clone(),
            endpoint: self.endpoint.clone(),
            tls_identity: self.tls_identity.clone(),
        }
    }
}

impl SavedServerProfile {
    /// The profile of the server a pairing bundle names, under `name`.
    pub fn from_pairing(bundle: &PairingBundle, name: String) -> (r: Self)
        ensures
            r.name == name,
            r.server_id == bundle.server_id,
            r.endpoint == bundle.endpoint,
            r.tls_identity@ == bundle.tls_identity@,
    {
        SavedServerProfile {
            name,
            server_id: bundle.server_id.clone(),
            endpoint: bundle.endpoint.clone(),
            tls_identity: bundle.tls_identity.clone(),
        }
    }

    /// A configuration that connects to this server with its stored credential.
    pub fn client_config(&self, client: ClientDescriptor) -> (r: ClientConfig)
        ensures
            r.target.endpoint == self.endpoint,
            r.target.tls_identity@ == self.tls_identity@,
            r.server_id == self.server_id,
            texts(r.client.capabilities.requested@) == with_required_capabilities(
                texts(client.capabilities.requested@),
            ),
            r.client.name == client.name,
            r.client.version == client.version,
            r.client.platform == client.platform,
            r.authentication == AuthenticationSource::StoredCredential,
            r.frame_limits.pre_auth_limit() == DEFAULT_PRE_AUTH_FRAME_BYTES,
            r.frame_limits.post_auth_limit() == DEFAULT_POST_AUTH_FRAME_BYTES,
            r.reconnect == (ReconnectPolicy { initial_delay_ms: 250, maximum_delay_ms: 10_000 }),
            r.event_subscriber_capacity == 256,
    {
        ClientConfig::stored(
            SocketTarget { endpoint: self.endpoint.clone(), tls_identity: self.tls_identity.clone() },
            self.server_id.clone(),
            client,
        )
    }
}

/// The profile saved from a pairing bundle connects as the pairing did: the
/// configuration built from the profile and the one built from the bundle
/// agree in everything but how the client authenticates, the profile's
/// using the credential the pairing stored.
pub proof fn lemma_saved_profile_connects_as_paired(
    bundle: PairingBundle,
    profile: SavedServerProfile,
    stored: ClientConfig,
    paired: ClientConfig,
    client: ClientDescriptor,
)
    requires
        profile.server_id == bundle.server_id,
        profile.endpoint == bundle.endpoint,
        profile.tls_identity@ == bundle.tls_identity@,
        stored.target.endpoint == profile.endpoint,
        stored.target.tls_identity@ == profile.tls_identity@,
        stored.server_id == profile.server_id,
        texts(stored.client.capabilities.requested@) == with_required_capabilities_of(client),
        stored.client.name == client.name,
        stored.client.version == client.version,
        stored.client.platform == client.platform,
        stored.authentication == AuthenticationSource::StoredCredential,
        stored.frame_limits.pre_auth_limit() == DEFAULT_PRE_AUTH_FRAME_BYTES,
        stored.frame_limits.post_auth_limit() == DEFAULT_POST_AUTH_FRAME_BYTES,
        stored.reconnect == (ReconnectPolicy { initial_delay_ms: 250, maximum_delay_ms: 10_000 }),
        stored.event_subscriber_capacity == 256,
        paired.target.endpoint == bundle.endpoint,
        paired.target.tls_identity == bundle.tls_identity,
        paired.server_id == bundle.server_id,
        texts(paired.client.capabilities.requested@) == with_required_capabilities_of(client),
        paired.client.name == client.name,
        paired.client.version == client.version,
        paired.client.platform == client.platform,
        paired.frame_limits.pre_auth_limit() == DEFAULT_PRE_AUTH_FRAME_BYTES,
        paired.frame_limits.post_auth_limit() == DEFAULT_POST_AUTH_FRAME_BYTES,
        paired.reconnect == (ReconnectPolicy { initial_delay_ms: 250, maximum_delay_ms: 10_000 }),
        paired.event_subscriber_capacity == 256,
    ensures
        same_connection(stored, paired),
        stored.authentication == AuthenticationSource::StoredCredential,
{
}

/// The capabilities a client requests once the required ones are added.
pub open spec fn with_required_capabilities_of(client: ClientDescriptor) -> Seq<Seq<char>> {
    with_required_capabilities(texts(client.capabilities.requested@))
}

/// Why saved profiles could not be read or written, with the message.
#[derive(Clone, Debug, PartialEq, Eq)]
pub struct ProfileStoreError {
    message: String,
}

impl View for ProfileStoreError {
    type V = Seq<char>;

    closed spec fn view(&self) -> Seq<char> {
        self.message@
    }
}

impl ProfileStoreError {
    /// An error with `message`.
    pub fn new(message: String) -> (r: Self)
        ensures
            r@ == message@,
    {
        ProfileStoreError { message }
    }

    /// The error's message.
    pub fn to_string(&self) -> (r: String)
        ensures
            r@ == self@,
    {
        self.message.clone()
    }
}

/// `profiles` with `profile` saved: it replaces the profile of the same
/// server, or is added last.
pub open spec fn saved(profiles: Seq<SavedServerProfile>, profile: SavedServerProfile) -> Seq<
    SavedServerProfile,
>
    decreases profiles.len(),
{
    if profiles.len() == 0 {
        seq![profile]
    } else if profiles[0].server_id@ == profile.server_id@ {
        profiles.update(0, profile)
    } else {
        seq![profiles[0]] + saved(profiles.drop_first(), profile)
    }
}

/// Saves `profile` among `profiles`: it replaces the first profile of the
/// same server, or is added last.
pub fn upsert_profile(profiles: &mut Vec<SavedServerProfile>, profile: SavedServerProfile)
    ensures
        final(profiles)@ == saved(old(profiles)@, profile),
{
    let ghost start = profiles@;
    let mut i: usize = 0;
    proof {
        assert(start.skip(0) =~= start);
        assert(start.take(0) + saved(start, profile) =~= saved(start, profile));
    }
    while i < profiles.len()
        invariant
            i <= profiles.len(),
            profiles@ == start,
            start == old(profiles)@,
            forall|k: int| 0 <= k < i ==> #[trigger] start[k].server_id@ != profile.server_id@,
            saved(start, profile) == start.take(i as int) + saved(start.skip(i as int), profile),
        decreases profiles.len() - i,
    {
        proof {
            let rest = start.skip(i as int);
            assert(rest[0] == start[i as int]);
            assert(rest.drop_first() =~= start.skip(i + 1));
        }
        if profiles[i].server_id == profile.server_id {
            proof {
                let rest = start.skip(i as int);
                assert(saved(rest, profile) == rest.update(0, profile));
                assert(start.take(i as int) + rest.update(0, profile) =~= start.update(
                    i as int,
                    profile,
                ));
            }
            profiles.set(i, profile);
            proof {
                assert(profiles@ == start.update(i as int, profile));
                assert(profiles@ =~= saved(start, profile));
            }
            return;
        }
        proof {
            let rest = start.skip(i as int);
            assert(start.take(i + 1) =~= start.take(i as int) + seq![start[i as int]]);
            assert(saved(rest, profile) == seq![rest[0]] + saved(rest.drop_first(), profile));
            assert(start.take(i as int) + (seq![rest[0]] + saved(rest.drop_first(), profile))
                =~= start.take(i + 1) + saved(start.skip(i + 1), profile));
        }
        i = i + 1;
    }
    proof {
        assert(start.skip(i as int) =~= Seq::<SavedServerProfile>::empty());
        assert(start.take(i as int) =~= start);
    }
    profiles.push(profile);
}

/// No two profiles are of the same server.
pub open spec fn servers_distinct(profiles: Seq<SavedServerProfile>) -> bool {
    forall|i: int, j: int|
        0 <= i < j < profiles.len() ==> profiles[i].server_id@ != profiles[j].server_id@
}

/// Every profile of a saved list is the saved profile or one that was there.
proof fn lemma_saved_members(profiles: Seq<SavedServerProfile>, profile: SavedServerProfile)
    ensures
        forall|k: int|
            0 <= k < saved(profiles, profile).len() ==> #[trigger] saved(profiles, profile)[k]
                == profile || profiles.contains(saved(profiles, profile)[k]),
    decreases profiles.len(),
{
    if profiles.len() > 0 && profiles[0].server_id@ != profile.server_id@ {
        let rest = profiles.drop_first();
        lemma_saved_members(rest, profile);
        assert forall|k: int| 0 <= k < saved(profiles, profile).len() implies #[trigger] saved(
            profiles,
            profile,
        )[k] == profile || profiles.contains(saved(profiles, profile)[k]) by {
            if k > 0 {
                let e = saved(rest, profile)[k - 1];
                if rest.contains(e) {
                    let m = choose|m: int| 0 <= m < rest.len() && rest[m] == e;
                    assert(profiles[m + 1] == e);
                }
            } else {
                assert(profiles[0] == saved(profiles, profile)[0]);
            }
        }
    } else if profiles.len() > 0 {
        assert forall|k: int| 0 <= k < saved(profiles, profile).len() implies #[trigger] saved(
            profiles,
            profile,
        )[k] == profile || profiles.contains(saved(profiles, profile)[k]) by {
            if k > 0 {
                assert(profiles[k] == saved(profiles, profile)[k]);
            }
        }
    }
}

/// Saving a profile keeps one profile per server, and the saved profile is
/// among them.
pub proof fn lemma_saved_keeps_one_per_server(profiles: Seq<SavedServerProfile>, profile: SavedServerProfile)
    requires
        servers_distinct(profiles),
    ensures
        servers_distinct(saved(profiles, profile)),
        saved(profiles, profile).contains(profile),
    decreases profiles.len(),
{
    if profiles.len() == 0 {
        assert(saved(profiles, profile)[0] == profile);
    } else if profiles[0].server_id@ == profile.server_id@ {
        let result = saved(profiles, profile);
        assert(result[0] == profile);
        assert forall|i: int, j: int| 0 <= i < j < result.len() implies result[i].server_id@
            != result[j].server_id@ by {
            if i == 0 {
                assert(profiles[0].server_id@ != profiles[j].server_id@);
            }
        }
    } else {
        let rest = profiles.drop_first();
        lemma_saved_keeps_one_per_server(rest, profile);
        lemma_saved_members(rest, profile);
        let result = saved(profiles, profile);
        let tail = saved(rest, profile);
        assert(result =~= seq![profiles[0]] + tail);
        assert forall|i: int, j: int| 0 <= i < j < result.len() implies result[i].server_id@
            != result[j].server_id@ by {
            if i == 0 {
                let e = tail[j - 1];
                if e != profile {
                    let m = choose|m: int| 0 <= m < rest.len() && rest[m] == e;
                    assert(profiles[m + 1] == e);
                }
            } else {
                assert(result[i] == tail[i - 1]);
                assert(result[j] == tail[j - 1]);
            }
        }
        let w = choose|w: int| 0 <= w < tail.len() && tail[w] == profile;
        assert(result[w + 1] == profile);
    }
}

/// The bytes a profile is ordered by: its name in UTF-8.
pub open spec fn name_key(profile: SavedServerProfile) -> Seq<u8> {
    vstd::utf8::encode_utf8(profile.name@)
}

/// `sorted` with `profile` placed after every profile whose name is not
/// greater than its own.
pub open spec fn insert_by_name(sorted: Seq<SavedServerProfile>, profile: SavedServerProfile) -> Seq<
    SavedServerProfile,
>
    decreases sorted.len(),
{
    if sorted.len() == 0 {
        seq![profile]
    } else if bytes_le(name_key(sorted.last()), name_key(profile)) {
        sorted.push(profile)
    } else {
        insert_by_name(sorted.drop_last(), profile).push(sorted.last())
    }
}

/// `profiles` sorted by name, profiles of equal names in their given order.
pub open spec fn sorted_by_name(profiles: Seq<SavedServerProfile>) -> Seq<SavedServerProfile>
    decreases profiles.len(),
{
    if profiles.len() == 0 {
        Seq::empty()
    } else {
        insert_by_name(sorted_by_name(profiles.drop_last()), profiles.last())
    }
}

/// Whether the profiles' names never decrease.
pub open spec fn is_sorted_by_name(profiles: Seq<SavedServerProfile>) -> bool {
    forall|i: int, j: int|
        0 <= i < j < profiles.len() ==> bytes_le(name_key(profiles[i]), name_key(profiles[j]))
}

/// Inserting a profile whose name is at most `bound` among profiles whose
/// names are at most `bound` keeps every name at most `bound`.
proof fn lemma_insert_bounded(sorted: Seq<SavedServerProfile>, profile: SavedServerProfile, bound: Seq<u8>)
    requires
        forall|i: int| 0 <= i < sorted.len() ==> bytes_le(name_key(#[trigger] sorted[i]), bound),
        bytes_le(name_key(profile), bound),
    ensures
        insert_by_name(sorted, profile).len() == sorted.len() + 1,
        forall|i: int|
            0 <= i < insert_by_name(sorted, profile).len() ==> bytes_le(
                name_key(#[trigger] insert_by_name(sorted, profile)[i]),
                bound,
            ),
    decreases sorted.len(),
{
    if sorted.len() > 0 && !bytes_le(name_key(sorted.last()), name_key(profile)) {
        lemma_insert_bounded(sorted.drop_last(), profile, bound);
    }
}

/// Inserting by name keeps a list sorted and adds exactly the profile.
proof fn lemma_insert_sorted(sorted: Seq<SavedServerProfile>, profile: SavedServerProfile)
    requires
        is_sorted_by_name(sorted),
    ensures
        is_sorted_by_name(insert_by_name(sorted, profile)),
        insert_by_name(sorted, profile).to_multiset() == sorted.to_multiset().insert(profile),
    decreases sorted.len(),
{
    broadcast use vstd::seq_lib::group_to_multiset_ensures;

    if sorted.len() == 0 {
        assert(seq![profile] =~= Seq::<SavedServerProfile>::empty().push(profile));
    } else if bytes_le(name_key(sorted.last()), name_key(profile)) {
        let result = sorted.push(profile);
        assert forall|i: int, j: int| 0 <= i < j < result.len() implies bytes_le(
            name_key(result[i]),
            name_key(result[j]),
        ) by {
            if j == sorted.len() && i < sorted.len() - 1 {
                lemma_bytes_le_transitive(
                    name_key(sorted[i]),
                    name_key(sorted.last()),
                    name_key(profile),
                );
            }
        }
    } else {
        let last = sorted.last();
        let rest = sorted.drop_last();
        lemma_insert_sorted(rest, profile);
        lemma_bytes_le_total(name_key(last), name_key(profile));
        lemma_insert_bounded(rest, profile, name_key(last));
        assert(sorted =~= rest.push(last));
        assert(rest.to_multiset().insert(profile).insert(last) =~= rest.to_multiset().insert(
            last,
        ).insert(profile));
    }
}

/// Profiles sorted by name come in order of their names and are the same
/// profiles, each as often as before.
pub proof fn lemma_sorted_by_name(profiles: Seq<SavedServerProfile>)
    ensures
        is_sorted_by_name(sorted_by_name(profiles)),
        sorted_by_name(profiles).to_multiset() == profiles.to_multiset(),
    decreases profiles.len(),
{
    broadcast use vstd::seq_lib::group_to_multiset_ensures;

    if profiles.len() == 0 {
        assert(sorted_by_name(profiles).to_multiset() =~= profiles.to_multiset());
    } else {
        let rest = profiles.drop_last();
        lemma_sorted_by_name(rest);
        lemma_insert_sorted(sorted_by_name(rest), profiles.last());
        assert(profiles =~= rest.push(profiles.last()));
    }
}

/// The profiles sorted by name; profiles of equal names keep their order.
pub fn sort_by_name(profiles: Vec<SavedServerProfile>) -> (r: Vec<SavedServerProfile>)
    ensures
        r@ == sorted_by_name(profiles@),
{
    let ghost start = profiles@;
    let mut rest = profiles;
    let mut out: Vec<SavedServerProfile> = Vec::new();
    proof {
        assert(start.take(0) =~= Seq::<SavedServerProfile>::empty());
    }
    while rest.len() > 0
        invariant
            out@.len() + rest@.len() == start.len(),
            rest@ == start.skip(out@.len() as int),
            out@ == sorted_by_name(start.take((start.len() - rest@.len()) as int)),
        decreases rest.len(),
    {
        let ghost done = (start.len() - rest@.len()) as int;
        let ghost before = out@;
        let profile = rest.remove(0);
        proof {
            assert(start.take(done + 1).drop_last() =~= start.take(done));
            assert(profile == start[done]);
            assert(rest@ =~= start.skip(done + 1));
        }
        let mut j: usize = out.len();
        proof {
            assert(before.take(j as int) =~= before);
            assert(before.skip(j as int) =~= Seq::<SavedServerProfile>::empty());
            assert(insert_by_name(before, profile) + Seq::<SavedServerProfile>::empty() =~= insert_by_name(before, profile));
        }
        while j > 0 && !text_le(out[j - 1].name.as_str(), profile.name.as_str())
            invariant
                out@ == before,
                j <= out@.len(),
                insert_by_name(before, profile) == insert_by_name(before.take(j as int), profile)
                    + before.skip(j as int),
            decreases j,
        {
            proof {
                let prefix = before.take(j as int);
                assert(prefix.drop_last() =~= before.take(j - 1));
                assert(prefix.last() == before[j - 1]);
                assert(seq![before[j - 1]] + before.skip(j as int) =~= before.skip(j - 1));
                assert(insert_by_name(prefix, profile) == insert_by_name(before.take(j - 1), profile).push(before[j - 1]));
                assert(insert_by_name(before.take(j - 1), profile).push(before[j - 1]) + before.skip(j as int)
                    =~= insert_by_name(before.take(j - 1), profile) + before.skip(j - 1));
            }
            j = j - 1;
        }
        proof {
            let prefix = before.take(j as int);
            if j > 0 {
                assert(prefix.last() == before[j - 1]);
            }
            assert(insert_by_name(prefix, profile) == prefix.push(profile));
            assert(prefix.push(profile) + before.skip(j as int) =~= before.insert(j as int, profile));
        }
        out.insert(j, profile);
        proof {
            assert(start.take(done + 1).last() == start[done]);
        }
    }
    proof {
        assert(start.take(start.len() as int) =~= start);
    }
    out
}

/// `profiles` with `profile` saved and sorted by name, as the saved list is kept.
pub fn save_profile_list(profiles: Vec<SavedServerProfile>, profile: SavedServerProfile) -> (r: Vec<
    SavedServerProfile,
>)
    ensures
        r@ == sorted_by_name(saved(profiles@, profile)),
{
    let mut profiles = profiles;
    upsert_profile(&mut profiles, profile);
    sort_by_name(profiles)
}

/// Why a user action failed.
#[derive(Debug)]
pub enum ActionError {
    Client(RequestError),
    UnexpectedResponse(ControlResponse),
}

/// Requires the plain acceptance of a request.
pub fn expect_accepted(response: ControlResponse) -> (r: Result<(), ActionError>)
    ensures
        response is Accepted ==> r is Ok,
        !(response is Accepted) ==> (r matches Err(ActionError::UnexpectedResponse(other)) && other
            == response),
{
    match response {
        ControlResponse::Accepted => Ok(()),
        other => Err(ActionError::UnexpectedResponse(other)),
    }
}

/// Requires the list of agents a listing answers with.
pub fn expect_agents(response: ControlResponse) -> (r: Result<Vec<AgentSnapshot>, ActionError>)
    ensures
        match response {
            ControlResponse::Agents { agents } => r == Ok::<Vec<AgentSnapshot>, ActionError>(agents),
            other => (r matches Err(ActionError::UnexpectedResponse(got)) && got == other),
        },
{
    match response {
        ControlResponse::Agents { agents } => Ok(agents),
        other => Err(ActionError::UnexpectedResponse(other)),
    }
}

/// Requires the run an accepted prompt started.
pub fn expect_prompt_accepted(response: ControlResponse) -> (r: Result<RunId, ActionError>)
    ensures
        match response {
            ControlResponse::PromptAccepted { run_id } => r == Ok::<RunId, ActionError>(run_id),
            other => (r matches Err(ActionError::UnexpectedResponse(got)) && got == other),
        },
{
    match response {
        ControlResponse::PromptAccepted { run_id } => Ok(run_id),
        other => Err(ActionError::UnexpectedResponse(other)),
    }
}

/// Requires the lease an interaction-lease request was granted.
pub fn expect_lease(response: ControlResponse) -> (r: Result<InteractionLease, ActionError>)
    ensures
        match response {
            ControlResponse::InteractionLease { lease } => r == Ok::<InteractionLease, ActionError>(
                lease,
            ),
            other => (r matches Err(ActionError::UnexpectedResponse(got)) && got == other),
        },
{
    match response {
        ControlResponse::InteractionLease { lease } => Ok(lease),
        other => Err(ActionError::UnexpectedResponse(other)),
    }
}

/// Requires the release of an interaction lease.
pub fn expect_released(response: ControlResponse) -> (r: Result<(), ActionError>)
    ensures
        response is InteractionReleased ==> r is Ok,
        !(response is InteractionReleased) ==> (r matches Err(ActionError::UnexpectedResponse(got))
            && got == response),
{
    match response {
        ControlResponse::InteractionReleased => Ok(()),
        other => Err(ActionError::UnexpectedResponse(other)),
    }
}

/// How long an interaction lease the user interface asks for lasts.
pub const INTERACTION_LEASE_TTL_MS: u64 = 120_000;

/// The request for `holder` to lease the interaction of `agent_id` for the
/// user interface's lease duration.
pub fn lease_request(agent_id: AgentId, holder: LeaseHolderId) -> (r: ControlRequest)
    ensures
        r == (ControlRequest::AcquireInteractionLease {
            agent_id,
            holder,
            ttl_ms: INTERACTION_LEASE_TTL_MS,
        }),
{
    ControlRequest::AcquireInteractionLease { agent_id, holder, ttl_ms: INTERACTION_LEASE_TTL_MS }
}

/// The request that prompts `agent_id` with `message`, without images,
/// queued as a follow-up when the agent is busy.
pub fn prompt_request(agent_id: AgentId, message: String) -> (r: ControlRequest)
    ensures
        r matches ControlRequest::Prompt { agent_id: id, message: text, images, streaming_behavior }
            && id == agent_id && text == message && images@.len() == 0 && streaming_behavior
            == Some(StreamingBehavior::FollowUp),
{
    ControlRequest::Prompt {
        agent_id,
        message,
        images: Vec::new(),
        streaming_behavior: Some(StreamingBehavior::FollowUp),
    }
}

/// Whether a pairing link has run out at `now_ms`: it is no longer valid
/// from the moment it expires.
pub fn pairing_link_expired(expires_at_ms: u64, now_ms: u64) -> (r: bool)
    ensures
        r == (expires_at_ms <= now_ms),
{
    expires_at_ms <= now_ms
}

/// Why the client could not be started.
#[derive(Debug)]
pub enum StartClientError {
    Build(ClientBuildError),
    Events(RequestError),
}

impl StartClientError {
    /// The human-readable message of the error.
    pub fn to_string(&self) -> (r: String)
        ensures
            match self {
                StartClientError::Build(ClientBuildError::Random(error)) => r@
                    == "secure client ID generation failed: "@ + error@,
                StartClientError::Events(error) => r@ == request_error_text(*error),
            },
    {
        match self {
            StartClientError::Build(error) => error.to_string(),
            StartClientError::Events(error) => error.to_string(),
        }
    }
}

/// Why a QR image did not give a pairing link.
#[derive(Clone, Copy, Debug, PartialEq, Eq)]
pub enum QrIntakeError {
    InvalidImage,
    PairingCodeNotFound,
}

impl QrIntakeError {
    /// The human-readable message of the error.
    pub fn to_string(&self) -> (r: String)
        ensures
            r@ == match self {
                QrIntakeError::InvalidImage => "selected file is not a supported image"@,
                QrIntakeError::PairingCodeNotFound =>
                    "image does not contain an OMP Remote pairing code"@,
            },
    {
        match self {
            QrIntakeError::InvalidImage => String::from_str(
                "selected file is not a supported image",
            ),
            QrIntakeError::PairingCodeNotFound => String::from_str(
                "image does not contain an OMP Remote pairing code",
            ),
        }
    }
}

/// How this client describes itself: the application's name, its version,
/// the platform it runs on and no extra capabilities.
pub fn client_descriptor(version: String, platform: ClientPlatform) -> (r: ClientDescriptor)
    ensures
        r.name@ == "OMP Remote"@,
        r.version == version,
        r.platform == platform,
        r.capabilities.requested@.len() == 0,
{
    ClientDescriptor {
        name: String::from_str("OMP Remote"),
        version,
        platform,
        capabilities: ClientCapabilities { requested: Vec::new() },
    }
}

/// Whether `text` begins with `prefix`.
pub open spec fn starts_with(text: Seq<char>, prefix: Seq<char>) -> bool {
    prefix.len() <= text.len() && text.take(prefix.len() as int) == prefix
}

/// Whether a command-line argument is a pairing link: an app link to the
/// pairing page, or a web address with a fragment.
pub open spec fn is_pairing_link_argument(argument: Seq<char>) -> bool {
    starts_with(argument, "omp-remote://pair#"@) || (starts_with(argument, "https://"@)
        && argument.contains('#'))
}

/// Whether `text` begins with `prefix`.
fn text_starts_with(text: &str, prefix: &str) -> (r: bool)
    ensures
        r == starts_with(text@, prefix@),
{
    let text_len = text.unicode_len();
    let prefix_len = prefix.unicode_len();
    if prefix_len > text_len {
        return false;
    }
    let mut i: usize = 0;
    while i < prefix_len
        invariant
            i <= prefix_len <= text_len,
            text_len == text@.len(),
            prefix_len == prefix@.len(),
            forall|k: int| 0 <= k < i ==> text@[k] == prefix@[k],
        decreases prefix_len - i,
    {
        if text.get_char(i) != prefix.get_char(i) {
            proof {
                assert(text@.take(prefix_len as int)[i as int] != prefix@[i as int]);
            }
            return false;
        }
        i = i + 1;
    }
    proof {
        assert(text@.take(prefix_len as int) =~= prefix@);
    }
    true
}

/// Whether `text` holds the character `c`.
fn text_contains(text: &str, c: char) -> (r: bool)
    ensures
        r == text@.contains(c),
{
    let len = text.unicode_len();
    let mut i: usize = 0;
    while i < len
        invariant
            i <= len,
            len == text@.len(),
            forall|k: int| 0 <= k < i ==> text@[k] != c,
        decreases len - i,
    {
        if text.get_char(i) == c {
            return true;
        }
        i = i + 1;
    }
    false
}

/// Whether a command-line argument is a pairing link to open at start.
pub fn looks_like_pairing_link(argument: &str) -> (r: bool)
    ensures
        r == is_pairing_link_argument(argument@),
{
    text_starts_with(argument, "omp-remote://pair#") || (text_starts_with(argument, "https://")
        && text_contains(argument, '#'))
}

/// Whether an extension request waits for the user's answer: a choice, a
/// confirmation, a text input or an editor.
pub fn interaction_requires_response(frame: &ExtensionUiRequestFrame) -> (r: bool)
    ensures
        r == match frame {
            ExtensionUiRequestFrame::Request { request, .. } => request is Select || request is Confirm
                || request is Input || request is Editor,
        },
{
    match frame {
        ExtensionUiRequestFrame::Request { request, .. } => match request {
            ExtensionUiRequest::Select { .. } | ExtensionUiRequest::Confirm { .. }
            | ExtensionUiRequest::Input { .. } | ExtensionUiRequest::Editor { .. } => true,
            _ => false,
        },
    }
}

/// The key that tells open questions apart: the agent and the request identifier.
pub fn interaction_key(interaction: &PendingInteraction) -> (r: String)
    ensures
        match interaction.envelope.request {
            ExtensionUiRequestFrame::Request { id, .. } => r@ == interaction.envelope.agent_id@
                + ":"@ + id@,
        },
{
    match &interaction.envelope.request {
        ExtensionUiRequestFrame::Request { id, .. } => {
            let mut out = String::from_str(interaction.envelope.agent_id.as_str());
            out.append(":");
            out.append(id.as_str());
            out
        },
    }
}

/// The name an agent lifecycle is shown with, with the reason of a failure.
pub open spec fn lifecycle_text(lifecycle: AgentLifecycle) -> Seq<char> {
    match lifecycle {
        AgentLifecycle::Starting => "Starting"@,
        AgentLifecycle::Idle => "Idle"@,
        AgentLifecycle::Running => "Running"@,
        AgentLifecycle::Stopping => "Stopping"@,
        AgentLifecycle::Stopped => "Stopped"@,
        AgentLifecycle::Interrupted => "Interrupted"@,
        AgentLifecycle::Failed { reason } => "Failed — "@ + reason@,
    }
}

/// The label of an agent lifecycle.
pub fn lifecycle_label(lifecycle: &AgentLifecycle) -> (r: String)
    ensures
        r@ == lifecycle_text(*lifecycle),
{
    match lifecycle {
        AgentLifecycle::Starting => String::from_str("Starting"),
        AgentLifecycle::Idle => String::from_str("Idle"),
        AgentLifecycle::Running => String::from_str("Running"),
        AgentLifecycle::Stopping => String::from_str("Stopping"),
        AgentLifecycle::Stopped => String::from_str("Stopped"),
        AgentLifecycle::Interrupted => String::from_str("Interrupted"),
        AgentLifecycle::Failed { reason } => {
            let mut out = String::from_str("Failed — ");
            out.append(reason.as_str());
            out
        },
    }
}

/// The style of an agent's status dot.
pub fn lifecycle_dot(lifecycle: &AgentLifecycle) -> (r: &'static str)
    ensures
        r@ == match lifecycle {
            AgentLifecycle::Running => "dot running"@,
            AgentLifecycle::Starting | AgentLifecycle::Stopping => "dot working"@,
            AgentLifecycle::Failed { .. } | AgentLifecycle::Interrupted => "dot failed"@,
            _ => "dot idle"@,
        },
{
    match lifecycle {
        AgentLifecycle::Running => "dot running",
        AgentLifecycle::Starting | AgentLifecycle::Stopping => "dot working",
        AgentLifecycle::Failed { .. } | AgentLifecycle::Interrupted => "dot failed",
        _ => "dot idle",
    }
}

/// The label of the connection's state.
pub fn connection_label(status: &ConnectionStatus) -> (r: &'static str)
    ensures
        r@ == match status {
            ConnectionStatus::Connected { .. } => "Connected"@,
            ConnectionStatus::Connecting => "Connecting"@,
            ConnectionStatus::Disconnected { .. } => "Reconnecting"@,
            ConnectionStatus::Stopped { .. } => "Stopped"@,
        },
{
    match status {
        ConnectionStatus::Connected { .. } => "Connected",
        ConnectionStatus::Connecting => "Connecting",
        ConnectionStatus::Disconnected { .. } => "Reconnecting",
        ConnectionStatus::Stopped { .. } => "Stopped",
    }
}

/// The style of the connection's state.
pub fn connection_class(status: &ConnectionStatus) -> (r: &'static str)
    ensures
        r@ == match status {
            ConnectionStatus::Connected { .. } => "connection-state online"@,
            ConnectionStatus::Connecting | ConnectionStatus::Disconnected { .. } =>
                "connection-state pending"@,
            ConnectionStatus::Stopped { .. } => "connection-state offline"@,
        },
{
    match status {
        ConnectionStatus::Connected { .. } => "connection-state online",
        ConnectionStatus::Connecting | ConnectionStatus::Disconnected { .. } =>
            "connection-state pending",
        ConnectionStatus::Stopped { .. } => "connection-state offline",
    }
}

/// The style of a transcript entry.
pub fn transcript_class(kind: TranscriptKind) -> (r: &'static str)
    ensures
        r@ == match kind {
            TranscriptKind::User => "message user"@,
            TranscriptKind::Assistant => "message assistant"@,
            TranscriptKind::Thinking => "message thinking"@,
            TranscriptKind::Tool => "message tool"@,
            TranscriptKind::System => "message system"@,
        },
{
    match kind {
        TranscriptKind::User => "message user",
        TranscriptKind::Assistant => "message assistant",
        TranscriptKind::Thinking => "message thinking",
        TranscriptKind::Tool => "message tool",
        TranscriptKind::System => "message system",
    }
}

/// The heading of a transcript entry.
pub fn transcript_label(kind: TranscriptKind) -> (r: &'static str)
    ensures
        r@ == match kind {
            TranscriptKind::User => "YOU"@,
            TranscriptKind::Assistant => "ASSISTANT"@,
            TranscriptKind::Thinking => "THINKING"@,
            TranscriptKind::Tool => "TOOL ACTIVITY"@,
            TranscriptKind::System => "SYSTEM"@,
        },
{
    match kind {
        TranscriptKind::User => "YOU",
        TranscriptKind::Assistant => "ASSISTANT",
        TranscriptKind::Thinking => "THINKING",
        TranscriptKind::Tool => "TOOL ACTIVITY",
        TranscriptKind::System => "SYSTEM",
    }
}

/// A moment in milliseconds, or `never`.
pub fn format_timestamp(value: Option<u64>) -> (r: String)
    ensures
        r@ == match value {
            Some(ms) => decimal(ms as nat),
            None => "never"@,
        },
{
    match value {
        Some(ms) => decimal_string(ms),
        None => String::from_str("never"),
    }
}

} // verus!
