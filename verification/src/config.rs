use vstd::prelude::*;

use crate::codec::{FrameLimits, DEFAULT_POST_AUTH_FRAME_BYTES, DEFAULT_PRE_AUTH_FRAME_BYTES};
use crate::connection::SocketTarget;
use crate::ids::ServerId;
use crate::protocol::{
    ClientAuthentication, ClientDescriptor, DeviceDescriptor, PairingBundle,
    CAPABILITY_EVENT_REPLAY, CAPABILITY_INTERACTION_LEASES, CAPABILITY_STATE_DELTAS,
};
use crate::text::{contains_text, decimal, push_decimal, texts};

verus! {

/// The only pairing bundle format this client reads.
pub const PAIRING_FORMAT_VERSION: u16 = 1;

/// How long to wait before reconnecting, in milliseconds: the first wait and
/// the longest one.
#[derive(Clone, Copy, Debug, PartialEq, Eq)]
pub struct ReconnectPolicy {
    pub initial_delay_ms: u64,
    pub maximum_delay_ms: u64,
}

impl Default for ReconnectPolicy {
    fn default() -> (r: Self)
        ensures
            r.initial_delay_ms == 250,
            r.maximum_delay_ms == 10_000,
    {
        ReconnectPolicy { initial_delay_ms: 250, maximum_delay_ms: 10_000 }
    }
}

/// The next wait before reconnecting: twice the current one, at most the maximum.
pub fn next_delay(current_ms: u64, maximum_ms: u64) -> (r: u64)
    ensures
        r == if 2 * current_ms <= maximum_ms {
            2 * current_ms
        } else {
            maximum_ms as int
        },
{
    if current_ms <= maximum_ms / 2 {
        current_ms * 2
    } else {
        maximum_ms
    }
}

/// How the client authenticates: with the credential stored for the server,
/// or by pairing.
#[derive(PartialEq, Eq)]
pub enum AuthenticationSource {
    StoredCredential,
    Pair(ClientAuthentication),
}

/// Everything the client needs to connect to one server.
pub struct ClientConfig {
    pub target: SocketTarget,
    pub server_id: ServerId,
    pub client: ClientDescriptor,
    pub authentication: AuthenticationSource,
    pub frame_limits: FrameLimits,
    pub reconnect: ReconnectPolicy,
    pub event_subscriber_capacity: usize,
}

/// Why a client configuration was refused.
#[derive(Clone, Copy, Debug, PartialEq, Eq)]
pub enum ClientConfigError {
    UnsupportedPairingFormat(u16),
}

impl ClientConfigError {
    /// The human-readable message of the error.
    pub fn to_string(&self) -> (r: String)
        ensures
            match self {
                ClientConfigError::UnsupportedPairingFormat(version) => r@
                    == "unsupported pairing bundle format version "@ + decimal(*version as nat),
            },
    {
        match self {
            ClientConfigError::UnsupportedPairingFormat(version) => {
                let mut out = String::from_str("unsupported pairing bundle format version ");
                push_decimal(&mut out, *version as u64);
                out
            },
        }
    }
}

/// `names` with `name` added at the end unless it is there already.
pub open spec fn with_name(names: Seq<Seq<char>>, name: Seq<char>) -> Seq<Seq<char>> {
    if names.contains(name) {
        names
    } else {
        names.push(name)
    }
}

/// Adding a name keeps a list of names free of repeats, and the name is then listed.
pub proof fn lemma_with_name(names: Seq<Seq<char>>, name: Seq<char>)
    ensures
        with_name(names, name).contains(name),
        names.no_duplicates() ==> with_name(names, name).no_duplicates(),
{
    if !names.contains(name) {
        let added = names.push(name);
        assert(added[names.len() as int] == name);
        assert forall|i: int, j: int| 0 <= i < added.len() && 0 <= j < added.len() && i != j && names.no_duplicates() implies added[i] != added[j] by {
            if i < names.len() && j < names.len() {
                assert(added[i] == names[i] && added[j] == names[j]);
            } else if i < names.len() {
                assert(added[i] == names[i]);
            } else {
                assert(added[j] == names[j]);
            }
        }
    }
}

/// The capabilities a client requests once the ones this client needs are added.
pub open spec fn with_required_capabilities(names: Seq<Seq<char>>) -> Seq<Seq<char>> {
    with_name(
        with_name(with_name(names, CAPABILITY_STATE_DELTAS@), CAPABILITY_EVENT_REPLAY@),
        CAPABILITY_INTERACTION_LEASES@,
    )
}

/// Adds `name` to the requested capabilities unless it is there already.
fn request_capability(client: &mut ClientDescriptor, name: &str)
    ensures
        texts(final(client).capabilities.requested@) == with_name(
            texts(old(client).capabilities.requested@),
            name@,
        ),
        final(client).name == old(client).name,
        final(client).version == old(client).version,
        final(client).platform == old(client).platform,
{
    let value = String::from_str(name);
    if !contains_text(&client.capabilities.requested, &value) {
        let ghost before = client.capabilities.requested@;
        client.capabilities.requested.push(value);
        proof {
            assert(texts(client.capabilities.requested@) =~= texts(before).push(name@));
        }
    }
}

/// Adds the capabilities this client relies on: state deltas, event replay
/// and interaction leases.
pub fn add_required_capabilities(client: &mut ClientDescriptor)
    ensures
        texts(final(client).capabilities.requested@) == with_required_capabilities(
            texts(old(client).capabilities.requested@),
        ),
        texts(old(client).capabilities.requested@).no_duplicates() ==> texts(
            final(client).capabilities.requested@,
        ).no_duplicates(),
        final(client).name == old(client).name,
        final(client).version == old(client).version,
        final(client).platform == old(client).platform,
{
    let ghost start = texts(client.capabilities.requested@);
    request_capability(client, CAPABILITY_STATE_DELTAS);
    request_capability(client, CAPABILITY_EVENT_REPLAY);
    request_capability(client, CAPABILITY_INTERACTION_LEASES);
    proof {
        let one = with_name(start, CAPABILITY_STATE_DELTAS@);
        let two = with_name(one, CAPABILITY_EVENT_REPLAY@);
        lemma_with_name(start, CAPABILITY_STATE_DELTAS@);
        lemma_with_name(one, CAPABILITY_EVENT_REPLAY@);
        lemma_with_name(two, CAPABILITY_INTERACTION_LEASES@);
    }
}

/// Whether two configurations connect the same way: the same endpoint,
/// trust mode and server, the same client description and requested
/// capabilities, and the same limits, reconnect policy and event capacity.
pub open spec fn same_connection(a: ClientConfig, b: ClientConfig) -> bool {
    &&& a.target.endpoint@ == b.target.endpoint@
    &&& a.target.tls_identity@ == b.target.tls_identity@
    &&& a.server_id@ == b.server_id@
    &&& texts(a.client.capabilities.requested@) == texts(b.client.capabilities.requested@)
    &&& a.client.name@ == b.client.name@
    &&& a.client.version@ == b.client.version@
    &&& a.client.platform == b.client.platform
    &&& a.frame_limits.pre_auth_limit() == b.frame_limits.pre_auth_limit()
    &&& a.frame_limits.post_auth_limit() == b.frame_limits.post_auth_limit()
    &&& a.reconnect == b.reconnect
    &&& a.event_subscriber_capacity == b.event_subscriber_capacity
}

impl ClientConfig {
    /// A configuration that authenticates with the credential stored for
    /// `server_id`, with the default limits and reconnect policy.
    pub fn stored(target: SocketTarget, server_id: ServerId, client: ClientDescriptor) -> (r: Self)
        ensures
            r.target == target,
            r.server_id == server_id,
            texts(r.client.capabilities.requested@) == with_required_capabilities(
                texts(client.capabilities.requested@),
            ),
            r.client.name == client.name,
            r.client.version == client.version,
            r.client.platform == client.platform,
            r.authentication == AuthenticationSource::StoredCredential,
            r.frame_limits.pre_auth_limit() == DEFAULT_PRE_AUTH_FRAME_BYTES,
            r.frame_limits.post_auth_limit() == DEFAULT_POST_AUTH_FRAME_BYTES,
            r.reconnect == (ReconnectPolicy { initial_delay_ms: 250, maximum_delay_ms: 10_000 }),
            r.event_subscriber_capacity == 256,
    {
        let mut client = client;
        add_required_capabilities(&mut client);
        ClientConfig {
            target,
            server_id,
            client,
            authentication: AuthenticationSource::StoredCredential,
            frame_limits: FrameLimits::default(),
            reconnect: ReconnectPolicy::default(),
            event_subscriber_capacity: 256,
        }
    }

    /// A configuration that pairs with the server of `bundle` as a device
    /// named `device_name`; only the supported bundle format is accepted.
    pub fn pairing(bundle: PairingBundle, client: ClientDescriptor, device_name: String) -> (r:
        Result<Self, ClientConfigError>)
        ensures
            bundle.format_version != PAIRING_FORMAT_VERSION ==> r == Err::<
                ClientConfig,
                ClientConfigError,
            >(ClientConfigError::UnsupportedPairingFormat(bundle.format_version)),
            bundle.format_version == PAIRING_FORMAT_VERSION ==> (r matches Ok(config) && {
                &&& config.target.endpoint == bundle.endpoint
                &&& config.target.tls_identity == bundle.tls_identity
                &&& config.server_id == bundle.server_id
                &&& texts(config.client.capabilities.requested@) == with_required_capabilities(
                    texts(client.capabilities.requested@),
                )
                &&& config.client.name == client.name
                &&& config.client.version == client.version
                &&& config.client.platform == client.platform
                &&& config.authentication == AuthenticationSource::Pair(
                    ClientAuthentication::Pair {
                        pairing_id: bundle.pairing_id,
                        secret: bundle.secret,
                        device: DeviceDescriptor { name: device_name, platform: client.platform },
                    },
                )
                &&& config.frame_limits.pre_auth_limit() == DEFAULT_PRE_AUTH_FRAME_BYTES
                &&& config.frame_limits.post_auth_limit() == DEFAULT_POST_AUTH_FRAME_BYTES
                &&& config.reconnect == (ReconnectPolicy {
                    initial_delay_ms: 250,
                    maximum_delay_ms: 10_000,
                })
                &&& config.event_subscriber_capacity == 256
            }),
    {
        if bundle.format_version != PAIRING_FORMAT_VERSION {
            return Err(ClientConfigError::UnsupportedPairingFormat(bundle.format_version));
        }
        let mut client = client;
        add_required_capabilities(&mut client);
        let platform = client.platform;
        let authentication = AuthenticationSource::Pair(
            ClientAuthentication::Pair {
                pairing_id: bundle.pairing_id,
                secret: bundle.secret,
                device: DeviceDescriptor { name: device_name, platform },
            },
        );
        Ok(
            ClientConfig {
                target: SocketTarget { endpoint: bundle.endpoint, tls_identity: bundle.tls_identity },
                server_id: bundle.server_id,
                client,
                authentication,
                frame_limits: FrameLimits::default(),
                reconnect: ReconnectPolicy::default(),
                event_subscriber_capacity: 256,
            },
        )
    }
}

} // verus!
