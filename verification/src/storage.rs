use vstd::prelude::*;

use crate::assoc::{
    assoc_map, distinct_keys, lemma_assoc_domain, lemma_assoc_get, lemma_assoc_push,
    lemma_assoc_remove, lemma_assoc_update,
};
use crate::ids::ServerId;
use crate::protocol::DeviceCredential;

verus! {

/// Why a credential store failed, with the message.
#[derive(Clone, Debug, PartialEq, Eq)]
pub struct CredentialStoreError {
    message: String,
}

impl View for CredentialStoreError {
    type V = Seq<char>;

    closed spec fn view(&self) -> Seq<char> {
        self.message@
    }
}

impl CredentialStoreError {
    /// An error with `message`.
    pub fn new(message: String) -> (r: Self)
        ensures
            r@ == message@,
    {
        CredentialStoreError { message }
    }

    /// The error's message.
    pub fn to_string(&self) -> (r: String)
        ensures
            r@ == self@,
    {
        self.message.clone()
    }
}

/// Where a store keeps credentials, which decides how it words its errors.
#[derive(Clone, Copy, Debug, PartialEq, Eq)]
pub enum CredentialStoreKind {
    OsKeyring,
    BrowserStorage,
}

/// Accepts a loaded credential only when it belongs to `server_id`.
pub fn credential_for_server(
    server_id: &ServerId,
    credential: DeviceCredential,
    kind: CredentialStoreKind,
) -> (r: Result<DeviceCredential, CredentialStoreError>)
    ensures
        credential.server_id@ == server_id@ ==> r == Ok::<
            DeviceCredential,
            CredentialStoreError,
        >(credential),
        credential.server_id@ != server_id@ ==> (r matches Err(e) && e@ == match kind {
            CredentialStoreKind::OsKeyring => "OS keyring credential belongs to another server"@,
            CredentialStoreKind::BrowserStorage =>
                "stored device credential belongs to another server"@,
        }),
{
    if !(credential.server_id == *server_id) {
        let message = match kind {
            CredentialStoreKind::OsKeyring => String::from_str(
                "OS keyring credential belongs to another server",
            ),
            CredentialStoreKind::BrowserStorage => String::from_str(
                "stored device credential belongs to another server",
            ),
        };
        return Err(CredentialStoreError::new(message));
    }
    Ok(credential)
}

/// Keeps device credentials in the operating system's keyring under a service name.
#[derive(Clone, Debug)]
pub struct NativeCredentialStore {
    pub service: String,
}

impl NativeCredentialStore {
    /// A store for `service`.
    pub fn new(service: String) -> (r: Self)
        ensures
            r.service == service,
    {
        NativeCredentialStore { service }
    }
}

/// Keeps device credentials in browser storage under a namespace.
#[derive(Clone, Debug)]
pub struct BrowserCredentialStore {
    pub namespace: String,
}

impl BrowserCredentialStore {
    /// A store under `namespace`.
    pub fn new(namespace: String) -> (r: Self)
        ensures
            r.namespace == namespace,
    {
        BrowserCredentialStore { namespace }
    }

    /// The storage key of a server's credential: the namespace, a colon and
    /// the server identifier.
    pub fn key(&self, server_id: &ServerId) -> (r: String)
        ensures
            r@ == self.namespace@ + ":"@ + server_id@,
    {
        let mut out = self.namespace.clone();
        out.append(":");
        out.append(server_id.as_str());
        out
    }
}

/// The credentials of a list by server identifier.
pub open spec fn credential_pairs(entries: Seq<DeviceCredential>) -> Seq<(Seq<char>, DeviceCredential)> {
    entries.map_values(|c: DeviceCredential| (c.server_id@, c))
}

/// Keeps device credentials in memory, one per server.
pub struct MemoryCredentialStore {
    credentials: Vec<DeviceCredential>,
}

impl MemoryCredentialStore {
    /// No server has two credentials.
    pub closed spec fn wf(&self) -> bool {
        distinct_keys(credential_pairs(self.credentials@))
    }

    /// The stored credentials, by server identifier.
    pub closed spec fn stored(&self) -> Map<Seq<char>, DeviceCredential> {
        assoc_map(credential_pairs(self.credentials@))
    }

    /// An empty store.
    pub fn new() -> (r: Self)
        ensures
            r.wf(),
            r.stored() == Map::<Seq<char>, DeviceCredential>::empty(),
    {
        let r = MemoryCredentialStore { credentials: Vec::new() };
        proof {
            assert(credential_pairs(r.credentials@) =~= Seq::empty());
        }
        r
    }

    /// Where the credential of `server_id` is stored, if anywhere.
    fn position(&self, server_id: &ServerId) -> (r: Option<usize>)
        ensures
            match r {
                Some(i) => i < self.credentials.len() && self.credentials@[i as int].server_id@
                    == server_id@,
                None => forall|i: int|
                    0 <= i < self.credentials.len() ==> #[trigger] self.credentials@[i].server_id@
                        != server_id@,
            },
    {
        let mut i: usize = 0;
        while i < self.credentials.len()
            invariant
                i <= self.credentials.len(),
                forall|k: int|
                    0 <= k < i ==> #[trigger] self.credentials@[k].server_id@ != server_id@,
            decreases self.credentials.len() - i,
        {
            if self.credentials[i].server_id == *server_id {
                return Some(i);
            }
            i = i + 1;
        }
        None
    }

    /// The credential stored for `server_id`, if any.
    pub fn load(&self, server_id: &ServerId) -> (r: Option<DeviceCredential>)
        requires
            self.wf(),
        ensures
            match r {
                Some(credential) => self.stored().dom().contains(server_id@) && credential
                    == self.stored()[server_id@],
                None => !self.stored().dom().contains(server_id@),
            },
    {
        let ghost pairs = credential_pairs(self.credentials@);
        proof {
            lemma_assoc_domain(pairs, server_id@);
        }
        match self.position(server_id) {
            Some(i) => {
                proof {
                    lemma_assoc_get(pairs, i as int);
                }
                Some(self.credentials[i].clone())
            },
            None => {
                proof {
                    assert forall|k: int| 0 <= k < pairs.len() implies #[trigger] pairs[k].0 != server_id@ by {
                        assert(self.credentials@[k].server_id@ != server_id@);
                    }
                }
                None
            },
        }
    }

    /// Stores `credential` as the one of its server, replacing any earlier one.
    pub fn save(&mut self, credential: &DeviceCredential)
        requires
            old(self).wf(),
        ensures
            final(self).wf(),
            final(self).stored() == old(self).stored().insert(
                credential.server_id@,
                *credential,
            ),
    {
        let ghost pairs = credential_pairs(self.credentials@);
        let copy = credential.clone();
        match self.position(&credential.server_id) {
            Some(i) => {
                self.credentials.set(i, copy);
                proof {
                    assert(credential_pairs(self.credentials@) =~= pairs.update(
                        i as int,
                        (pairs[i as int].0, *credential),
                    ));
                    lemma_assoc_update(pairs, i as int, *credential);
                }
            },
            None => {
                proof {
                    assert forall|k: int| 0 <= k < pairs.len() implies #[trigger] pairs[k].0 != credential.server_id@ by {
                        assert(self.credentials@[k].server_id@ != credential.server_id@);
                    }
                }
                self.credentials.push(copy);
                proof {
                    assert(credential_pairs(self.credentials@) =~= pairs.push(
                        (credential.server_id@, *credential),
                    ));
                    lemma_assoc_push(pairs, credential.server_id@, *credential);
                }
            },
        }
    }

    /// Forgets the credential of `server_id`.
    pub fn remove(&mut self, server_id: &ServerId)
        requires
            old(self).wf(),
        ensures
            final(self).wf(),
            final(self).stored() == old(self).stored().remove(server_id@),
    {
        let ghost pairs = credential_pairs(self.credentials@);
        proof {
            lemma_assoc_domain(pairs, server_id@);
        }
        match self.position(server_id) {
            Some(i) => {
                self.credentials.remove(i);
                proof {
                    assert(credential_pairs(self.credentials@) =~= pairs.remove(i as int));
                    lemma_assoc_remove(pairs, i as int);
                }
            },
            None => {
                proof {
                    assert forall|k: int| 0 <= k < pairs.len() implies #[trigger] pairs[k].0 != server_id@ by {
                        assert(self.credentials@[k].server_id@ != server_id@);
                    }
                    assert(assoc_map(pairs).remove(server_id@) =~= assoc_map(pairs));
                }
            },
        }
    }
}

/// What a store gives back for a server is what was last saved for it.
pub proof fn lemma_saved_credential_loads(
    stored: Map<Seq<char>, DeviceCredential>,
    credential: DeviceCredential,
)
    ensures
        stored.insert(credential.server_id@, credential).dom().contains(credential.server_id@),
        stored.insert(credential.server_id@, credential)[credential.server_id@] == credential,
{
}

} // verus!
