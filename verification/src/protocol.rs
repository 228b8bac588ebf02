//! The node protocol's request: version, size, identifier, lifetime, object
//! and credential checks, and which roles may perform which operation.
use vstd::prelude::*;
use crate::text::{utf8, is_cid, is_cid_bytes};
use crate::order::{texts, contains_str};
use crate::identity::{membership_time_fits, MembershipCredential, NodeCertificate, membership_outcome};

verus! {

/// The protocol's name on the wire.
pub const PROTOCOL_ID: &'static str = "arcane-commons-mesh/1";

/// Largest encrypted object a node accepts.
pub const MAX_OBJECT_BYTES: usize = 4 * 1024 * 1024 + 128 * 1024;

/// Largest frame: an object and room for its envelope.
pub const MAX_FRAME_BYTES: usize = MAX_OBJECT_BYTES + 16 * 1024;

/// How long a request lives, and the clock skew its credential may have.
pub const REQUEST_TTL_SECONDS: i64 = 300;

/// What a request asks a node to do.
#[derive(Clone, Copy, Debug, PartialEq, Eq, Structural)]
pub enum Operation {
    Hello,
    HasObject,
    PutObject,
    GetObject,
    AuditObject,
    DeleteAfter,
    ReplicateObject,
    Ping,
}

/// A signed request to a storage node.
#[derive(Clone, Debug)]
pub struct Request {
    pub protocol_version: u16,
    pub request_id: String,
    pub community_id: String,
    pub node_id: String,
    pub operation: Operation,
    pub object_cid: Option<String>,
    pub issued_at: i64,
    pub expires_at: i64,
    pub credential: MembershipCredential,
}

/// A request as it travels: signed by the member, with the node's
/// certificate and the payload.
#[derive(Clone, Debug)]
pub struct WireFrame {
    pub request: Request,
    pub request_signature: Vec<u8>,
    pub node_certificate: NodeCertificate,
    pub node_owner_public_key: [u8; 32],
    pub payload: Vec<u8>,
}

/// A node's answer to a request.
#[derive(Clone, Debug)]
pub struct WireResponse {
    pub protocol_version: u16,
    pub request_id: String,
    pub ok: bool,
    pub error_code: Option<String>,
    pub payload: Vec<u8>,
    pub payload_cid: String,
}

/// Why a request was refused.
#[derive(Debug, PartialEq, Eq, Structural)]
pub enum ProtocolError {
    Version,
    Lifetime,
    RequestId,
    ObjectCid,
    Credential,
    Unauthorized,
    Oversized,
}

/// Whether roles allow an operation: reading needs `member` or `node`,
/// storing and replicating need `node`, auditing `auditor`, deleting
/// `admin`.
pub open spec fn role_allows(op: Operation, roles: Seq<Seq<char>>) -> bool {
    match op {
        Operation::Hello | Operation::Ping | Operation::HasObject | Operation::GetObject => roles.contains(
            "member"@,
        ) || roles.contains("node"@),
        Operation::PutObject | Operation::ReplicateObject => roles.contains("node"@),
        Operation::AuditObject => roles.contains("auditor"@),
        Operation::DeleteAfter => roles.contains("admin"@),
    }
}

/// Whether an operation names an object.
pub open spec fn needs_object(op: Operation) -> bool {
    !(op is Hello || op is Ping)
}

/// The checks before a request's lifetime is checked pass: version, frame
/// size and identifier length.
pub open spec fn lifetime_reached(r: &Request, frame_size: int) -> bool {
    r.protocol_version == 1 && frame_size <= MAX_FRAME_BYTES && 16 <= utf8(r.request_id@).len() <= 128
}

/// A request's lifetime holds at `now`.
pub open spec fn lifetime_ok(r: &Request, now: int) -> bool {
    !(r.issued_at > now + REQUEST_TTL_SECONDS || r.expires_at < now || r.expires_at - r.issued_at
        > REQUEST_TTL_SECONDS)
}

/// A request names an object where its operation needs one.
pub open spec fn object_ok(r: &Request) -> bool {
    !(needs_object(r.operation) && !(r.object_cid matches Some(c) && is_cid_bytes(utf8(c@))))
}

/// What `Request::validate` answers.
pub open spec fn request_outcome(r: &Request, now: int, frame_size: int) -> Result<(), ProtocolError> {
    if r.protocol_version != 1 {
        Err(ProtocolError::Version)
    } else if frame_size > MAX_FRAME_BYTES {
        Err(ProtocolError::Oversized)
    } else if utf8(r.request_id@).len() < 16 || utf8(r.request_id@).len() > 128 {
        Err(ProtocolError::RequestId)
    } else if r.issued_at > now + REQUEST_TTL_SECONDS || r.expires_at < now || r.expires_at
        - r.issued_at > REQUEST_TTL_SECONDS {
        Err(ProtocolError::Lifetime)
    } else if needs_object(r.operation) && !(r.object_cid matches Some(c) && is_cid_bytes(
        utf8(c@),
    )) {
        Err(ProtocolError::ObjectCid)
    } else if membership_outcome(&r.credential, r.community_id@, now, REQUEST_TTL_SECONDS as int) is Err {
        Err(ProtocolError::Credential)
    } else if !role_allows(r.operation, texts(r.credential.claims.roles@)) {
        Err(ProtocolError::Unauthorized)
    } else {
        Ok(())
    }
}

impl Request {
    /// Checks a request that arrived at `now` in a frame of `frame_size`
    /// bytes.
    pub fn validate(&self, now: i64, frame_size: usize) -> (res: Result<(), ProtocolError>)
        requires
            lifetime_reached(self, frame_size as int) ==> now + REQUEST_TTL_SECONDS <= i64::MAX,
            lifetime_reached(self, frame_size as int) && self.issued_at <= now + REQUEST_TTL_SECONDS
                && self.expires_at >= now ==> self.expires_at - self.issued_at <= i64::MAX,
            lifetime_reached(self, frame_size as int) && lifetime_ok(self, now as int) && object_ok(self)
                ==> membership_time_fits(
                &self.credential,
                self.community_id@,
                now as int,
                REQUEST_TTL_SECONDS as int,
            ),
        ensures
            res == request_outcome(self, now as int, frame_size as int),
    {
        if self.protocol_version != 1 {
            return Err(ProtocolError::Version);
        }
        if frame_size > MAX_FRAME_BYTES {
            return Err(ProtocolError::Oversized);
        }
        let id_len = self.request_id.as_str().as_bytes().len();
        if id_len < 16 || id_len > 128 {
            return Err(ProtocolError::RequestId);
        }
        if self.issued_at > now + REQUEST_TTL_SECONDS || self.expires_at < now || self.expires_at
            - self.issued_at > REQUEST_TTL_SECONDS {
            return Err(ProtocolError::Lifetime);
        }
        let needs = match self.operation {
            Operation::Hello | Operation::Ping => false,
            _ => true,
        };
        if needs {
            let present = match &self.object_cid {
                Some(c) => is_cid(c.as_str()),
                None => false,
            };
            if !present {
                return Err(ProtocolError::ObjectCid);
            }
        }
        match self.credential.verify(self.community_id.as_str(), now, REQUEST_TTL_SECONDS) {
            Err(_) => {
                return Err(ProtocolError::Credential);
            },
            Ok(_) => {},
        }
        let roles = &self.credential.claims.roles;
        let allowed = match self.operation {
            Operation::Hello | Operation::Ping | Operation::HasObject | Operation::GetObject => {
                contains_str(roles, "member") || contains_str(roles, "node")
            },
            Operation::PutObject | Operation::ReplicateObject => contains_str(roles, "node"),
            Operation::AuditObject => contains_str(roles, "auditor"),
            Operation::DeleteAfter => contains_str(roles, "admin"),
        };
        if !allowed {
            return Err(ProtocolError::Unauthorized);
        }
        Ok(())
    }
}

} // verus!
