use vstd::prelude::*;

verus! {

/// The error of an identifier constructor: the label names which kind of
/// identifier was given an empty value.
#[derive(Clone, Copy, Debug, PartialEq, Eq)]
pub struct IdentifierError(pub &'static str);

impl IdentifierError {
    /// The human-readable message, `"<label> cannot be empty"`.
    pub fn to_string(&self) -> (r: String)
        ensures
            r@ == self.0@ + " cannot be empty"@,
    {
        let mut text = String::from_str(self.0);
        text.append(" cannot be empty");
        text
    }
}

/// Identifies an agent; the text is never empty.
#[derive(Debug)]
pub struct AgentId(String);

impl View for AgentId {
    type V = Seq<char>;

    closed spec fn view(&self) -> Seq<char> {
        self.0@
    }
}

impl AgentId {
    #[verifier::type_invariant]
    spec fn non_empty(self) -> bool {
        self.0@.len() > 0
    }

    /// Wraps `value`, refusing the empty string.
    pub fn new(value: String) -> (r: Result<Self, IdentifierError>)
        ensures
            r is Ok <==> value@.len() > 0,
            r matches Ok(id) ==> id@ == value@,
            r matches Err(e) ==> e.0@ == "agent ID"@,
    {
        if value.as_str().is_empty() {
            return Err(IdentifierError("agent ID"));
        }
        Ok(AgentId(value))
    }

    /// The identifier's text.
    pub fn as_str(&self) -> (r: &str)
        ensures
            r@ == self@,
            r@.len() > 0,
    {
        proof {
            use_type_invariant(self);
        }
        self.0.as_str()
    }

    /// Gives up the wrapper and returns the text.
    pub fn into_inner(self) -> (r: String)
        ensures
            r@ == self@,
            r@.len() > 0,
    {
        proof {
            use_type_invariant(&self);
        }
        self.0
    }
}

impl Clone for AgentId {
    fn clone(&self) -> (r: Self)
        ensures
            r == *self,
    {
        proof {
            use_type_invariant(self);
        }
        AgentId(self.0.clone())
    }
}

impl PartialEq for AgentId {
    fn eq(&self, other: &Self) -> (r: bool) {
        self.0 == other.0
    }
}

impl Eq for AgentId {}

impl vstd::std_specs::cmp::PartialEqSpecImpl for AgentId {
    open spec fn obeys_eq_spec() -> bool {
        true
    }

    open spec fn eq_spec(&self, other: &Self) -> bool {
        self@ == other@
    }
}

/// Identifies one prompt run of an agent; the text is never empty.
#[derive(Debug)]
pub struct RunId(String);

impl View for RunId {
    type V = Seq<char>;

    closed spec fn view(&self) -> Seq<char> {
        self.0@
    }
}

impl RunId {
    #[verifier::type_invariant]
    spec fn non_empty(self) -> bool {
        self.0@.len() > 0
    }

    /// Wraps `value`, refusing the empty string.
    pub fn new(value: String) -> (r: Result<Self, IdentifierError>)
        ensures
            r is Ok <==> value@.len() > 0,
            r matches Ok(id) ==> id@ == value@,
            r matches Err(e) ==> e.0@ == "run ID"@,
    {
        if value.as_str().is_empty() {
            return Err(IdentifierError("run ID"));
        }
        Ok(RunId(value))
    }

    /// The identifier's text.
    pub fn as_str(&self) -> (r: &str)
        ensures
            r@ == self@,
            r@.len() > 0,
    {
        proof {
            use_type_invariant(self);
        }
        self.0.as_str()
    }

    /// Gives up the wrapper and returns the text.
    pub fn into_inner(self) -> (r: String)
        ensures
            r@ == self@,
            r@.len() > 0,
    {
        proof {
            use_type_invariant(&self);
        }
        self.0
    }
}

impl Clone for RunId {
    fn clone(&self) -> (r: Self)
        ensures
            r == *self,
    {
        proof {
            use_type_invariant(self);
        }
        RunId(self.0.clone())
    }
}

impl PartialEq for RunId {
    fn eq(&self, other: &Self) -> (r: bool) {
        self.0 == other.0
    }
}

impl Eq for RunId {}

impl vstd::std_specs::cmp::PartialEqSpecImpl for RunId {
    open spec fn obeys_eq_spec() -> bool {
        true
    }

    open spec fn eq_spec(&self, other: &Self) -> bool {
        self@ == other@
    }
}

/// Identifies a client that may hold an interaction lease; the text is never empty.
#[derive(Debug)]
pub struct LeaseHolderId(String);

impl View for LeaseHolderId {
    type V = Seq<char>;

    closed spec fn view(&self) -> Seq<char> {
        self.0@
    }
}

impl LeaseHolderId {
    #[verifier::type_invariant]
    spec fn non_empty(self) -> bool {
        self.0@.len() > 0
    }

    /// Wraps `value`, refusing the empty string.
    pub fn new(value: String) -> (r: Result<Self, IdentifierError>)
        ensures
            r is Ok <==> value@.len() > 0,
            r matches Ok(id) ==> id@ == value@,
            r matches Err(e) ==> e.0@ == "lease holder ID"@,
    {
        if value.as_str().is_empty() {
            return Err(IdentifierError("lease holder ID"));
        }
        Ok(LeaseHolderId(value))
    }

    /// The identifier's text.
    pub fn as_str(&self) -> (r: &str)
        ensures
            r@ == self@,
            r@.len() > 0,
    {
        proof {
            use_type_invariant(self);
        }
        self.0.as_str()
    }

    /// Gives up the wrapper and returns the text.
    pub fn into_inner(self) -> (r: String)
        ensures
            r@ == self@,
            r@.len() > 0,
    {
        proof {
            use_type_invariant(&self);
        }
        self.0
    }
}

impl Clone for LeaseHolderId {
    fn clone(&self) -> (r: Self)
        ensures
            r == *self,
    {
        proof {
            use_type_invariant(self);
        }
        LeaseHolderId(self.0.clone())
    }
}

impl PartialEq for LeaseHolderId {
    fn eq(&self, other: &Self) -> (r: bool) {
        self.0 == other.0
    }
}

impl Eq for LeaseHolderId {}

impl vstd::std_specs::cmp::PartialEqSpecImpl for LeaseHolderId {
    open spec fn obeys_eq_spec() -> bool {
        true
    }

    open spec fn eq_spec(&self, other: &Self) -> bool {
        self@ == other@
    }
}

/// Identifies a control server; the text is never empty.
#[derive(Debug)]
pub struct ServerId(String);

impl View for ServerId {
    type V = Seq<char>;

    closed spec fn view(&self) -> Seq<char> {
        self.0@
    }
}

impl ServerId {
    #[verifier::type_invariant]
    spec fn non_empty(self) -> bool {
        self.0@.len() > 0
    }

    /// Wraps `value`, refusing the empty string.
    pub fn new(value: String) -> (r: Result<Self, IdentifierError>)
        ensures
            r is Ok <==> value@.len() > 0,
            r matches Ok(id) ==> id@ == value@,
            r matches Err(e) ==> e.0@ == "server ID"@,
    {
        if value.as_str().is_empty() {
            return Err(IdentifierError("server ID"));
        }
        Ok(ServerId(value))
    }

    /// The identifier's text.
    pub fn as_str(&self) -> (r: &str)
        ensures
            r@ == self@,
            r@.len() > 0,
    {
        proof {
            use_type_invariant(self);
        }
        self.0.as_str()
    }

    /// Gives up the wrapper and returns the text.
    pub fn into_inner(self) -> (r: String)
        ensures
            r@ == self@,
            r@.len() > 0,
    {
        proof {
            use_type_invariant(&self);
        }
        self.0
    }
}

impl Clone for ServerId {
    fn clone(&self) -> (r: Self)
        ensures
            r == *self,
    {
        proof {
            use_type_invariant(self);
        }
        ServerId(self.0.clone())
    }
}

impl PartialEq for ServerId {
    fn eq(&self, other: &Self) -> (r: bool) {
        self.0 == other.0
    }
}

impl Eq for ServerId {}

impl vstd::std_specs::cmp::PartialEqSpecImpl for ServerId {
    open spec fn obeys_eq_spec() -> bool {
        true
    }

    open spec fn eq_spec(&self, other: &Self) -> bool {
        self@ == other@
    }
}

/// Identifies one authenticated connection; the text is never empty.
#[derive(Debug)]
pub struct ConnectionId(String);

impl View for ConnectionId {
    type V = Seq<char>;

    closed spec fn view(&self) -> Seq<char> {
        self.0@
    }
}

impl ConnectionId {
    #[verifier::type_invariant]
    spec fn non_empty(self) -> bool {
        self.0@.len() > 0
    }

    /// Wraps `value`, refusing the empty string.
    pub fn new(value: String) -> (r: Result<Self, IdentifierError>)
        ensures
            r is Ok <==> value@.len() > 0,
            r matches Ok(id) ==> id@ == value@,
            r matches Err(e) ==> e.0@ == "connection ID"@,
    {
        if value.as_str().is_empty() {
            return Err(IdentifierError("connection ID"));
        }
        Ok(ConnectionId(value))
    }

    /// The identifier's text.
    pub fn as_str(&self) -> (r: &str)
        ensures
            r@ == self@,
            r@.len() > 0,
    {
        proof {
            use_type_invariant(self);
        }
        self.0.as_str()
    }

    /// Gives up the wrapper and returns the text.
    pub fn into_inner(self) -> (r: String)
        ensures
            r@ == self@,
            r@.len() > 0,
    {
        proof {
            use_type_invariant(&self);
        }
        self.0
    }
}

impl Clone for ConnectionId {
    fn clone(&self) -> (r: Self)
        ensures
            r == *self,
    {
        proof {
            use_type_invariant(self);
        }
        ConnectionId(self.0.clone())
    }
}

impl PartialEq for ConnectionId {
    fn eq(&self, other: &Self) -> (r: bool) {
        self.0 == other.0
    }
}

impl Eq for ConnectionId {}

impl vstd::std_specs::cmp::PartialEqSpecImpl for ConnectionId {
    open spec fn obeys_eq_spec() -> bool {
        true
    }

    open spec fn eq_spec(&self, other: &Self) -> bool {
        self@ == other@
    }
}

/// Identifies a paired device; the text is never empty.
#[derive(Debug)]
pub struct DeviceId(String);

impl View for DeviceId {
    type V = Seq<char>;

    closed spec fn view(&self) -> Seq<char> {
        self.0@
    }
}

impl DeviceId {
    #[verifier::type_invariant]
    spec fn non_empty(self) -> bool {
        self.0@.len() > 0
    }

    /// Wraps `value`, refusing the empty string.
    pub fn new(value: String) -> (r: Result<Self, IdentifierError>)
        ensures
            r is Ok <==> value@.len() > 0,
            r matches Ok(id) ==> id@ == value@,
            r matches Err(e) ==> e.0@ == "device ID"@,
    {
        if value.as_str().is_empty() {
            return Err(IdentifierError("device ID"));
        }
        Ok(DeviceId(value))
    }

    /// The identifier's text.
    pub fn as_str(&self) -> (r: &str)
        ensures
            r@ == self@,
            r@.len() > 0,
    {
        proof {
            use_type_invariant(self);
        }
        self.0.as_str()
    }

    /// Gives up the wrapper and returns the text.
    pub fn into_inner(self) -> (r: String)
        ensures
            r@ == self@,
            r@.len() > 0,
    {
        proof {
            use_type_invariant(&self);
        }
        self.0
    }
}

impl Clone for DeviceId {
    fn clone(&self) -> (r: Self)
        ensures
            r == *self,
    {
        proof {
            use_type_invariant(self);
        }
        DeviceId(self.0.clone())
    }
}

impl PartialEq for DeviceId {
    fn eq(&self, other: &Self) -> (r: bool) {
        self.0 == other.0
    }
}

impl Eq for DeviceId {}

impl vstd::std_specs::cmp::PartialEqSpecImpl for DeviceId {
    open spec fn obeys_eq_spec() -> bool {
        true
    }

    open spec fn eq_spec(&self, other: &Self) -> bool {
        self@ == other@
    }
}

/// Identifies a one-time pairing offer; the text is never empty.
#[derive(Debug)]
pub struct PairingId(String);

impl View for PairingId {
    type V = Seq<char>;

    closed spec fn view(&self) -> Seq<char> {
        self.0@
    }
}

impl PairingId {
    #[verifier::type_invariant]
    spec fn non_empty(self) -> bool {
        self.0@.len() > 0
    }

    /// Wraps `value`, refusing the empty string.
    pub fn new(value: String) -> (r: Result<Self, IdentifierError>)
        ensures
            r is Ok <==> value@.len() > 0,
            r matches Ok(id) ==> id@ == value@,
            r matches Err(e) ==> e.0@ == "pairing ID"@,
    {
        if value.as_str().is_empty() {
            return Err(IdentifierError("pairing ID"));
        }
        Ok(PairingId(value))
    }

    /// The identifier's text.
    pub fn as_str(&self) -> (r: &str)
        ensures
            r@ == self@,
            r@.len() > 0,
    {
        proof {
            use_type_invariant(self);
        }
        self.0.as_str()
    }

    /// Gives up the wrapper and returns the text.
    pub fn into_inner(self) -> (r: String)
        ensures
            r@ == self@,
            r@.len() > 0,
    {
        proof {
            use_type_invariant(&self);
        }
        self.0
    }
}

impl Clone for PairingId {
    fn clone(&self) -> (r: Self)
        ensures
            r == *self,
    {
        proof {
            use_type_invariant(self);
        }
        PairingId(self.0.clone())
    }
}

impl PartialEq for PairingId {
    fn eq(&self, other: &Self) -> (r: bool) {
        self.0 == other.0
    }
}

impl Eq for PairingId {}

impl vstd::std_specs::cmp::PartialEqSpecImpl for PairingId {
    open spec fn obeys_eq_spec() -> bool {
        true
    }

    open spec fn eq_spec(&self, other: &Self) -> bool {
        self@ == other@
    }
}

/// Identifies one control request on the wire; the text is never empty.
#[derive(Debug)]
pub struct RequestId(String);

impl View for RequestId {
    type V = Seq<char>;

    closed spec fn view(&self) -> Seq<char> {
        self.0@
    }
}

impl RequestId {
    #[verifier::type_invariant]
    spec fn non_empty(self) -> bool {
        self.0@.len() > 0
    }

    /// Wraps `value`, refusing the empty string.
    pub fn new(value: String) -> (r: Result<Self, IdentifierError>)
        ensures
            r is Ok <==> value@.len() > 0,
            r matches Ok(id) ==> id@ == value@,
            r matches Err(e) ==> e.0@ == "request ID"@,
    {
        if value.as_str().is_empty() {
            return Err(IdentifierError("request ID"));
        }
        Ok(RequestId(value))
    }

    /// The identifier's text.
    pub fn as_str(&self) -> (r: &str)
        ensures
            r@ == self@,
            r@.len() > 0,
    {
        proof {
            use_type_invariant(self);
        }
        self.0.as_str()
    }

    /// Gives up the wrapper and returns the text.
    pub fn into_inner(self) -> (r: String)
        ensures
            r@ == self@,
            r@.len() > 0,
    {
        proof {
            use_type_invariant(&self);
        }
        self.0
    }
}

impl Clone for RequestId {
    fn clone(&self) -> (r: Self)
        ensures
            r == *self,
    {
        proof {
            use_type_invariant(self);
        }
        RequestId(self.0.clone())
    }
}

impl PartialEq for RequestId {
    fn eq(&self, other: &Self) -> (r: bool) {
        self.0 == other.0
    }
}

impl Eq for RequestId {}

impl vstd::std_specs::cmp::PartialEqSpecImpl for RequestId {
    open spec fn obeys_eq_spec() -> bool {
        true
    }

    open spec fn eq_spec(&self, other: &Self) -> bool {
        self@ == other@
    }
}

/// Identifies a mutating operation across retries; the text is never empty.
#[derive(Debug)]
pub struct OperationId(String);

impl View for OperationId {
    type V = Seq<char>;

    closed spec fn view(&self) -> Seq<char> {
        self.0@
    }
}

impl OperationId {
    #[verifier::type_invariant]
    spec fn non_empty(self) -> bool {
        self.0@.len() > 0
    }

    /// Wraps `value`, refusing the empty string.
    pub fn new(value: String) -> (r: Result<Self, IdentifierError>)
        ensures
            r is Ok <==> value@.len() > 0,
            r matches Ok(id) ==> id@ == value@,
            r matches Err(e) ==> e.0@ == "operation ID"@,
    {
        if value.as_str().is_empty() {
            return Err(IdentifierError("operation ID"));
        }
        Ok(OperationId(value))
    }

    /// The identifier's text.
    pub fn as_str(&self) -> (r: &str)
        ensures
            r@ == self@,
            r@.len() > 0,
    {
        proof {
            use_type_invariant(self);
        }
        self.0.as_str()
    }

    /// Gives up the wrapper and returns the text.
    pub fn into_inner(self) -> (r: String)
        ensures
            r@ == self@,
            r@.len() > 0,
    {
        proof {
            use_type_invariant(&self);
        }
        self.0
    }
}

impl Clone for OperationId {
    fn clone(&self) -> (r: Self)
        ensures
            r == *self,
    {
        proof {
            use_type_invariant(self);
        }
        OperationId(self.0.clone())
    }
}

impl PartialEq for OperationId {
    fn eq(&self, other: &Self) -> (r: bool) {
        self.0 == other.0
    }
}

impl Eq for OperationId {}

impl vstd::std_specs::cmp::PartialEqSpecImpl for OperationId {
    open spec fn obeys_eq_spec() -> bool {
        true
    }

    open spec fn eq_spec(&self, other: &Self) -> bool {
        self@ == other@
    }
}

/// A secret handed out for one pairing; it is never printed.
pub struct PairingSecret(String);

impl View for PairingSecret {
    type V = Seq<char>;

    closed spec fn view(&self) -> Seq<char> {
        self.0@
    }
}

impl PairingSecret {
    /// Wraps the secret text.
    pub fn new(value: String) -> (r: Self)
        ensures
            r@ == value@,
    {
        PairingSecret(value)
    }

    /// The secret text itself.
    pub fn expose_secret(&self) -> (r: &str)
        ensures
            r@ == self@,
    {
        self.0.as_str()
    }
}

impl Clone for PairingSecret {
    fn clone(&self) -> (r: Self)
        ensures
            r == *self,
    {
        PairingSecret(self.0.clone())
    }
}

impl PartialEq for PairingSecret {
    fn eq(&self, other: &Self) -> (r: bool) {
        self.0 == other.0
    }
}

impl Eq for PairingSecret {}

impl vstd::std_specs::cmp::PartialEqSpecImpl for PairingSecret {
    open spec fn obeys_eq_spec() -> bool {
        true
    }

    open spec fn eq_spec(&self, other: &Self) -> bool {
        self@ == other@
    }
}

/// The bearer token of a paired device; it is never printed.
pub struct DeviceToken(String);

impl View for DeviceToken {
    type V = Seq<char>;

    closed spec fn view(&self) -> Seq<char> {
        self.0@
    }
}

impl DeviceToken {
    /// Wraps the token text.
    pub fn new(value: String) -> (r: Self)
        ensures
            r@ == value@,
    {
        DeviceToken(value)
    }

    /// The token text itself.
    pub fn expose_secret(&self) -> (r: &str)
        ensures
            r@ == self@,
    {
        self.0.as_str()
    }
}

impl Clone for DeviceToken {
    fn clone(&self) -> (r: Self)
        ensures
            r == *self,
    {
        DeviceToken(self.0.clone())
    }
}

impl PartialEq for DeviceToken {
    fn eq(&self, other: &Self) -> (r: bool) {
        self.0 == other.0
    }
}

impl Eq for DeviceToken {}

impl vstd::std_specs::cmp::PartialEqSpecImpl for DeviceToken {
    open spec fn obeys_eq_spec() -> bool {
        true
    }

    open spec fn eq_spec(&self, other: &Self) -> bool {
        self@ == other@
    }
}

} // verus!
