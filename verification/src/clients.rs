//! Registry of the workers connected to the server, and the check of their
//! credentials on each request.
//!
//! A worker registers and receives an identifier; it then sends that
//! identifier as text in the `worker-id` metadata of every request.

use std::collections::HashSet;
use vstd::prelude::*;
use vstd::std_specs::hash::spec_hash_keys_iter;
use vstd::std_specs::iter::IteratorSpec;

use crate::headers::{ascii_chars, header_text, is_visible_ascii_seq};
use crate::ids::{is_random_uuid, new_random_id};
use crate::paths::spec_hyphenated;

verus! {

broadcast use vstd::std_specs::hash::group_hash_axioms;

/// The UUID that `uuid::Uuid::parse_str` reads from a text, if it reads one.
pub uninterp spec fn spec_parse_uuid(s: Seq<char>) -> Option<u128>;

/// Calls `uuid::Uuid::parse_str` and hands back the UUID as its big-endian
/// 128-bit value. The result depends on the text alone; a text in the
/// hyphenated form that `Uuid::to_string` writes reads as the UUID it was
/// written from.
#[verifier::external_body]
pub(crate) fn parse_uuid(s: &str) -> (r: Option<u128>)
    ensures
        r == spec_parse_uuid(s@),
        forall|id: u128| s@ == spec_hyphenated(id) ==> r == Some(id),
{
    match uuid::Uuid::parse_str(s) {
        Ok(u) => Some(u.as_u128()),
        Err(_) => None,
    }
}

/// The value of 16 bytes read as a big-endian number.
pub open spec fn big_endian(b: Seq<u8>) -> nat
    decreases b.len(),
{
    if b.len() == 0 {
        0
    } else {
        big_endian(b.drop_last()) * 256 + b.last() as nat
    }
}

/// Calls `uuid::Uuid::from_slice`, which accepts exactly 16 bytes and reads
/// them as the big-endian value of the UUID.
#[verifier::external_body]
pub(crate) fn uuid_from_slice(b: &[u8]) -> (r: Option<u128>)
    ensures
        r is Some <==> b@.len() == 16,
        r matches Some(v) ==> v == big_endian(b@),
{
    match uuid::Uuid::from_slice(b) {
        Ok(u) => Some(u.as_u128()),
        Err(_) => None,
    }
}

/// Calls `uuid::Uuid::from_u128` and `Uuid::into_bytes`: the 16 big-endian
/// bytes of the UUID.
#[verifier::external_body]
fn uuid_bytes(id: u128) -> (r: Vec<u8>)
    ensures
        r@.len() == 16,
        big_endian(r@) == id,
{
    uuid::Uuid::from_u128(id).into_bytes().to_vec()
}

/// The bytes that identify a worker in a registration response.
pub fn registration_bytes(worker_id: u128) -> (r: Vec<u8>)
    ensures
        r@.len() == 16,
        big_endian(r@) == worker_id,
{
    uuid_bytes(worker_id)
}

/// Why a registration response did not carry a worker identifier.
#[derive(Clone, Copy, Debug, PartialEq, Eq, Structural)]
pub struct InvalidWorkerId;

/// Reads the worker identifier of a registration response: exactly 16
/// bytes, big-endian.
pub fn parse_registration(bytes: &[u8]) -> (r: Result<u128, InvalidWorkerId>)
    ensures
        match r {
            Ok(id) => bytes@.len() == 16 && id == big_endian(bytes@),
            Err(_) => bytes@.len() != 16,
        },
{
    match uuid_from_slice(bytes) {
        Some(id) => Ok(id),
        None => Err(InvalidWorkerId),
    }
}

/// Why a request was refused.
#[derive(Clone, Copy, Debug, PartialEq, Eq, Structural)]
pub enum AuthFailure {
    /// The `worker-id` metadata is not the text of a UUID.
    InvalidAuthentication,
    /// The request carries no parsed credentials.
    MissingExtension,
    /// The worker is not registered.
    UnknownId,
    /// The request carries no `worker-id`.
    NotAuthenticated,
}

/// The credentials parsed from a request: the worker identifier it carries,
/// if any.
#[derive(Clone, Copy, Debug, PartialEq, Eq, Structural)]
pub struct AuthenticationExtension(pub Option<u128>);

/// The identifier the `worker-id` metadata reads as, when it reads as text.
pub open spec fn spec_worker_id(header: Seq<u8>) -> Option<u128> {
    if is_visible_ascii_seq(header) {
        spec_parse_uuid(ascii_chars(header))
    } else {
        None
    }
}

/// Reads the credentials of a request from its `worker-id` metadata. A
/// request without it carries no credentials; one whose value is not the
/// text of a UUID is refused.
pub fn intercept_credentials(worker_id: Option<&[u8]>) -> (r: Result<AuthenticationExtension, AuthFailure>)
    ensures
        forall|id: u128|
            worker_id matches Some(h) && is_visible_ascii_seq(h@) && ascii_chars(h@) == spec_hyphenated(id)
                ==> r == Ok::<AuthenticationExtension, AuthFailure>(AuthenticationExtension(Some(id))),
        match worker_id {
            None => r == Ok::<AuthenticationExtension, AuthFailure>(AuthenticationExtension(None)),
            Some(h) => match spec_worker_id(h@) {
                Some(id) => r == Ok::<AuthenticationExtension, AuthFailure>(
                    AuthenticationExtension(Some(id)),
                ),
                None => r == Err::<AuthenticationExtension, AuthFailure>(
                    AuthFailure::InvalidAuthentication,
                ),
            },
        },
{
    match worker_id {
        None => Ok(AuthenticationExtension(None)),
        Some(h) => match header_text(h) {
            Err(_) => Err(AuthFailure::InvalidAuthentication),
            Ok(text) => match parse_uuid(text.as_str()) {
                Some(id) => Ok(AuthenticationExtension(Some(id))),
                None => Err(AuthFailure::InvalidAuthentication),
            },
        },
    }
}

/// Outcome of checking the credentials of a request.
#[derive(Clone, Copy, Debug, PartialEq, Eq, Structural)]
pub enum AuthResult {
    /// The credentials could not be checked, or were refused.
    Failed(AuthFailure),
    /// The request comes from this registered worker.
    Successful(u128),
    /// The request carries no credentials.
    NoAuth,
}

impl AuthResult {
    /// The worker, if the credentials were accepted; otherwise why they were
    /// not.
    pub open spec fn successful_spec(self) -> Result<u128, AuthFailure> {
        match self {
            AuthResult::Failed(e) => Err(e),
            AuthResult::Successful(id) => Ok(id),
            AuthResult::NoAuth => Err(AuthFailure::NotAuthenticated),
        }
    }

    /// The worker, if the credentials were accepted; otherwise why they were
    /// not.
    pub fn successful(self) -> (r: Result<u128, AuthFailure>)
        ensures
            r == self.successful_spec(),
    {
        match self {
            AuthResult::Failed(e) => Err(e),
            AuthResult::Successful(id) => Ok(id),
            AuthResult::NoAuth => Err(AuthFailure::NotAuthenticated),
        }
    }
}

/// The registered workers.
pub struct Service {
    clients: HashSet<u128>,
}

impl View for Service {
    type V = Set<u128>;

    closed spec fn view(&self) -> Set<u128> {
        self.clients@
    }
}

/// What checking credentials against the registered workers `reg` gives.
pub open spec fn spec_verify(reg: Set<u128>, ext: AuthenticationExtension) -> AuthResult {
    match ext.0 {
        None => AuthResult::NoAuth,
        Some(id) => if reg.contains(id) {
            AuthResult::Successful(id)
        } else {
            AuthResult::Failed(AuthFailure::UnknownId)
        },
    }
}

impl AuthenticationExtension {
    /// Checks the credentials against the registered workers.
    pub fn verify(&self, service: &Service) -> (r: AuthResult)
        ensures
            r == spec_verify(service@, *self),
    {
        match self.0 {
            None => AuthResult::NoAuth,
            Some(id) => if service.get_client(&id) {
                AuthResult::Successful(id)
            } else {
                AuthResult::Failed(AuthFailure::UnknownId)
            },
        }
    }

    /// Checks the credentials a request carries; a request without parsed
    /// credentials cannot be checked.
    pub fn verify_request(extension: Option<AuthenticationExtension>, service: &Service) -> (r:
        AuthResult)
        ensures
            r == match extension {
                None => AuthResult::Failed(AuthFailure::MissingExtension),
                Some(ext) => spec_verify(service@, ext),
            },
    {
        match extension {
            None => AuthResult::Failed(AuthFailure::MissingExtension),
            Some(ext) => ext.verify(service),
        }
    }
}

impl Service {
    /// A registry without workers.
    pub fn new() -> (r: Service)
        ensures
            r@ == Set::<u128>::empty(),
    {
        Service { clients: HashSet::new() }
    }

    /// Registers a worker under a new random identifier and returns it.
    pub fn register_client(&mut self) -> (r: u128)
        ensures
            is_random_uuid(r),
            final(self)@ == old(self)@.insert(r),
    {
        let id = new_random_id();
        self.clients.insert(id);
        id
    }

    /// Removes a worker from the registry.
    pub fn erase_client(&mut self, id: &u128)
        ensures
            final(self)@ == old(self)@.remove(*id),
    {
        self.clients.remove(id);
    }

    /// The worker is registered.
    pub fn get_client(&self, id: &u128) -> (r: bool)
        ensures
            r == self@.contains(*id),
    {
        self.clients.contains(id)
    }

    /// The registered workers, each once, in no particular order.
    pub fn client_ids(&self) -> (r: Vec<u128>)
        ensures
            r@.to_set() == self@,
            r@.no_duplicates(),
    {
        let mut r: Vec<u128> = Vec::new();
        let ghost all = spec_hash_keys_iter(&self.clients).remaining().unref();
        for x in it: self.clients.iter()
            invariant
                it.seq().unref() == all,
                all.to_set() == self@,
                all.no_duplicates(),
                r@ == all.take(it.index() as int),
        {
            r.push(*x);
            proof {
                assert(all.take(it.index() + 1) == all.take(it.index() as int).push(
                    all[it.index() as int],
                ));
            }
        }
        proof {
            assert(all.take(all.len() as int) == all);
        }
        r
    }

    /// Number of registered workers.
    pub fn client_count(&self) -> (r: usize)
        ensures
            r == self@.len(),
    {
        self.clients.len()
    }
}

/// What checking the credentials of a request gives: the worker, or why it
/// was refused.
pub open spec fn request_worker(service: Set<u128>, extension: Option<AuthenticationExtension>) -> Result<
    u128,
    AuthFailure,
> {
    match extension {
        None => Err(AuthFailure::MissingExtension),
        Some(ext) => spec_verify(service, ext).successful_spec(),
    }
}

/// Registers a new worker and answers with its identifier, as 16
/// big-endian bytes.
pub fn register_client(service: &mut Service) -> (r: Vec<u8>)
    ensures
        r@.len() == 16,
        is_random_uuid(big_endian(r@) as u128),
        final(service)@ == old(service)@.insert(big_endian(r@) as u128),
{
    let id = service.register_client();
    registration_bytes(id)
}

/// Answers a worker that asks for its registration with its identifier, as
/// 16 big-endian bytes; refuses a request whose credentials are missing or
/// not those of a registered worker.
pub fn get_worker_registration(extension: Option<AuthenticationExtension>, service: &Service) -> (r:
    Result<Vec<u8>, AuthFailure>)
    ensures
        match request_worker(service@, extension) {
            Ok(id) => r is Ok && r.unwrap()@.len() == 16 && big_endian(r.unwrap()@) == id,
            Err(f) => r == Err::<Vec<u8>, AuthFailure>(f),
        },
{
    match AuthenticationExtension::verify_request(extension, service).successful() {
        Ok(id) => Ok(registration_bytes(id)),
        Err(f) => Err(f),
    }
}

/// A registered worker is accepted as itself; once erased, or before it
/// registers, it is refused as unknown; a request without credentials is
/// not authenticated.
pub proof fn law_registered_worker_is_authenticated(reg: Set<u128>, id: u128)
    ensures
        spec_verify(reg.insert(id), AuthenticationExtension(Some(id))) == AuthResult::Successful(id),
        spec_verify(reg.remove(id), AuthenticationExtension(Some(id))) == AuthResult::Failed(
            AuthFailure::UnknownId,
        ),
        spec_verify(reg, AuthenticationExtension(None)).successful_spec() == Err::<u128, AuthFailure>(
            AuthFailure::NotAuthenticated,
        ),
{
}

} // verus!
