//! A storage node's decisions: when it refuses work, what a network request
//! asks of it and how it answers, and which file-based requests it serves.
use vstd::prelude::*;
use crate::text::{utf8, has_prefix, str_equal, push_bytes, string_from_utf8, starts_with};
use crate::hashing::{cid, cid_of};
use crate::store::{StoreError, check_put, put_check};
use crate::protocol::{Operation, WireResponse, MAX_OBJECT_BYTES};
use vstd::utf8::{valid_utf8, decode_utf8};

verus! {

/// Why a node refused work.
#[derive(Debug)]
pub enum NodeError {
    Offline,
    Oversized,
    Storage(StoreError),
}

/// An offline node refuses every operation.
pub fn check_online(active: bool) -> (res: Result<(), NodeError>)
    ensures
        res is Ok <==> active,
        res is Err ==> res matches Err(NodeError::Offline),
{
    if active {
        Ok(())
    } else {
        Err(NodeError::Offline)
    }
}

/// The checks a node makes before it stores an object: online, within the
/// protocol's object limit, then the store's own checks.
pub fn check_node_put(active: bool, object_cid: &str, bytes: &[u8], quota: u64) -> (res: Result<
    (),
    NodeError,
>)
    ensures
        !active ==> res matches Err(NodeError::Offline),
        active && bytes@.len() > MAX_OBJECT_BYTES ==> res matches Err(NodeError::Oversized),
        active && bytes@.len() <= MAX_OBJECT_BYTES ==> (res is Ok <==> put_check(
            object_cid@,
            bytes@,
            quota,
        ) is Ok),
        active && bytes@.len() <= MAX_OBJECT_BYTES && res is Err ==> res matches Err(
            NodeError::Storage(_),
        ),
        res matches Err(NodeError::Storage(e)) ==> Err::<(), StoreError>(e) == put_check(
            object_cid@,
            bytes@,
            quota,
        ),
{
    if !active {
        return Err(NodeError::Offline);
    }
    if bytes.len() > MAX_OBJECT_BYTES {
        return Err(NodeError::Oversized);
    }
    match check_put(object_cid, bytes, quota) {
        Err(e) => Err(NodeError::Storage(e)),
        Ok(_) => Ok(()),
    }
}

/// What a node does for a network request.
#[derive(Debug)]
pub enum NodeAction {
    Store(String),
    Fetch(String),
    Audit(String),
    Delete(String),
    Reply(bool, Option<String>, Vec<u8>),
}

/// What came of the work a node did.
#[derive(Debug)]
pub enum ActionOutcome {
    Stored(bool),
    Fetched(Option<Vec<u8>>),
    Audited(bool),
    Deleted(bool),
}

/// The text `true` or `false`.
pub open spec fn bool_text(b: bool) -> Seq<u8> {
    if b {
        seq![116u8, 114u8, 117u8, 101u8]
    } else {
        seq![102u8, 97u8, 108u8, 115u8, 101u8]
    }
}

/// What a node does for an operation on an optional object and a payload:
/// store only a payload that hashes to the named object, fetch, audit or
/// delete a named object, and answer greetings at once.
pub open spec fn plan_spec(op: Operation, object_cid: Option<Seq<char>>, payload: Seq<u8>) -> (Seq<char>, int) {
    match op {
        Operation::PutObject | Operation::ReplicateObject => match object_cid {
            Some(c) => if cid_of(payload) == c {
                (c, 0)
            } else {
                ("storage_rejected"@, 5)
            },
            None => ("storage_rejected"@, 5),
        },
        Operation::GetObject => match object_cid {
            Some(c) => (c, 1),
            None => ("not_found"@, 5),
        },
        Operation::HasObject | Operation::AuditObject => match object_cid {
            Some(c) => (c, 2),
            None => (Seq::empty(), 6),
        },
        Operation::DeleteAfter => match object_cid {
            Some(c) => (c, 3),
            None => ("not_found"@, 7),
        },
        Operation::Hello | Operation::Ping => (Seq::empty(), 4),
    }
}

/// Whether an action is the one `plan_spec` gives.
pub open spec fn action_matches(a: NodeAction, plan: (Seq<char>, int)) -> bool {
    match a {
        NodeAction::Store(c) => plan.1 == 0 && c@ == plan.0,
        NodeAction::Fetch(c) => plan.1 == 1 && c@ == plan.0,
        NodeAction::Audit(c) => plan.1 == 2 && c@ == plan.0,
        NodeAction::Delete(c) => plan.1 == 3 && c@ == plan.0,
        NodeAction::Reply(ok, code, payload) => {
            ||| plan.1 == 4 && ok && code is None && payload@.len() == 0
            ||| plan.1 == 5 && !ok && (code matches Some(k) && k@ == plan.0) && payload@.len() == 0
            ||| plan.1 == 6 && ok && code is None && payload@ == bool_text(false)
            ||| plan.1 == 7 && !ok && (code matches Some(k) && k@ == plan.0) && payload@.len() == 0
        },
    }
}

/// The view of an optional string.
pub open spec fn opt_view(o: Option<String>) -> Option<Seq<char>> {
    match o {
        Some(s) => Some(s@),
        None => None,
    }
}

/// The bytes of `true` or `false`.
fn bool_bytes(b: bool) -> (res: Vec<u8>)
    ensures
        res@ == bool_text(b),
{
    let mut out: Vec<u8> = Vec::new();
    if b {
        push_bytes(&mut out, &[116u8, 114u8, 117u8, 101u8]);
    } else {
        push_bytes(&mut out, &[102u8, 97u8, 108u8, 115u8, 101u8]);
    }
    assert(out@ =~= bool_text(b));
    out
}

/// Decides what a node does for a network request.
pub fn plan_request(operation: Operation, object_cid: &Option<String>, payload: &[u8]) -> (res:
    NodeAction)
    ensures
        action_matches(res, plan_spec(operation, opt_view(*object_cid), payload@)),
{
    match operation {
        Operation::PutObject | Operation::ReplicateObject => match object_cid {
            Some(c) => {
                let actual = cid(payload);
                if str_equal(actual.as_str(), c.as_str()) {
                    NodeAction::Store(c.clone())
                } else {
                    NodeAction::Reply(false, Some("storage_rejected".to_owned()), Vec::new())
                }
            },
            None => NodeAction::Reply(false, Some("storage_rejected".to_owned()), Vec::new()),
        },
        Operation::GetObject => match object_cid {
            Some(c) => NodeAction::Fetch(c.clone()),
            None => NodeAction::Reply(false, Some("not_found".to_owned()), Vec::new()),
        },
        Operation::HasObject | Operation::AuditObject => match object_cid {
            Some(c) => NodeAction::Audit(c.clone()),
            None => NodeAction::Reply(true, None, bool_bytes(false)),
        },
        Operation::DeleteAfter => match object_cid {
            Some(c) => NodeAction::Delete(c.clone()),
            None => NodeAction::Reply(false, Some("not_found".to_owned()), Vec::new()),
        },
        Operation::Hello | Operation::Ping => NodeAction::Reply(true, None, Vec::new()),
    }
}

/// The answer to work done: stored or rejected, the fetched bytes or
/// not found, the audit verdict as text, deleted or not found.
pub fn reply_for(outcome: ActionOutcome) -> (res: (bool, Option<String>, Vec<u8>))
    ensures
        match outcome {
            ActionOutcome::Stored(ok) => res.0 == ok && (if ok {
                res.1 is None
            } else {
                res.1 matches Some(k) && k@ == "storage_rejected"@
            }) && res.2@.len() == 0,
            ActionOutcome::Fetched(Some(bytes)) => res.0 && res.1 is None && res.2@ == bytes@,
            ActionOutcome::Fetched(None) => !res.0 && (res.1 matches Some(k) && k@ == "not_found"@)
                && res.2@.len() == 0,
            ActionOutcome::Audited(healthy) => res.0 && res.1 is None && res.2@ == bool_text(
                healthy,
            ),
            ActionOutcome::Deleted(deleted) => res.0 == deleted && (if deleted {
                res.1 is None
            } else {
                res.1 matches Some(k) && k@ == "not_found"@
            }) && res.2@.len() == 0,
        },
{
    match outcome {
        ActionOutcome::Stored(ok) => {
            if ok {
                (true, None, Vec::new())
            } else {
                (false, Some("storage_rejected".to_owned()), Vec::new())
            }
        },
        ActionOutcome::Fetched(Some(bytes)) => (true, None, bytes),
        ActionOutcome::Fetched(None) => (false, Some("not_found".to_owned()), Vec::new()),
        ActionOutcome::Audited(healthy) => (true, None, bool_bytes(healthy)),
        ActionOutcome::Deleted(deleted) => {
            if deleted {
                (true, None, Vec::new())
            } else {
                (false, Some("not_found".to_owned()), Vec::new())
            }
        },
    }
}

/// The wire answer to a request, naming its payload by content identifier.
pub fn wire_response(request_id: String, ok: bool, error_code: Option<String>, payload: Vec<u8>) -> (res:
    WireResponse)
    ensures
        res.protocol_version == 1,
        res.request_id == request_id,
        res.ok == ok,
        res.error_code == error_code,
        res.payload == payload,
        res.payload_cid@ == cid_of(payload@),
{
    let payload_cid = cid(&payload);
    WireResponse { protocol_version: 1, request_id, ok, error_code, payload, payload_cid }
}

/// A file-based request to a node, by the name of its file.
#[derive(Debug)]
pub enum IpcRequest {
    Put(String),
    Get(String),
    Repair,
    Ignore,
    Discard,
}

/// The bytes between a prefix and a suffix.
pub open spec fn between(b: Seq<u8>, p: Seq<u8>, s: Seq<u8>) -> Seq<u8> {
    b.subrange(p.len() as int, b.len() - s.len())
}

/// A name with both a prefix and a suffix that do not overlap.
pub open spec fn framed(b: Seq<u8>, p: Seq<u8>, s: Seq<u8>) -> bool {
    p.len() + s.len() <= b.len() && b.take(p.len() as int) == p && b.skip(b.len() - s.len()) == s
}

/// Whether the name has the prefix and the suffix, not overlapping.
fn is_framed(name: &[u8], prefix: &[u8], suffix: &[u8]) -> (res: bool)
    ensures
        res == framed(name@, prefix@, suffix@),
{
    if prefix.len() > name.len() || suffix.len() > name.len() - prefix.len() {
        return false;
    }
    let mut i: usize = 0;
    while i < prefix.len()
        invariant
            prefix@.len() + suffix@.len() <= name@.len(),
            0 <= i <= prefix@.len(),
            forall|k: int| 0 <= k < i ==> name@[k] == prefix@[k],
        decreases prefix@.len() - i,
    {
        if name[i] != prefix[i] {
            assert(name@.take(prefix@.len() as int)[i as int] != prefix@[i as int]);
            return false;
        }
        i = i + 1;
    }
    assert(name@.take(prefix@.len() as int) =~= prefix@);
    let start = name.len() - suffix.len();
    let mut j: usize = 0;
    while j < suffix.len()
        invariant
            prefix@.len() + suffix@.len() <= name@.len(),
            name@.len() == name.len(),
            start == name@.len() - suffix@.len(),
            0 <= j <= suffix@.len(),
            forall|k: int| 0 <= k < j ==> name@[start + k] == suffix@[k],
        decreases suffix@.len() - j,
    {
        if name[start + j] != suffix[j] {
            assert(name@.skip(start as int)[j as int] != suffix@[j as int]);
            return false;
        }
        j = j + 1;
    }
    assert(name@.skip(start as int) =~= suffix@);
    true
}

/// The text between a prefix and a suffix of a name known to carry both.
fn middle(name: &[u8], prefix_len: usize, suffix_len: usize) -> (res: Option<String>)
    requires
        prefix_len + suffix_len <= name@.len(),
    ensures
        res is Some <==> valid_utf8(name@.subrange(prefix_len as int, name@.len() - suffix_len)),
        res matches Some(s) ==> s@ == decode_utf8(
            name@.subrange(prefix_len as int, name@.len() - suffix_len),
        ),
{
    let mut bytes: Vec<u8> = Vec::new();
    let end = name.len() - suffix_len;
    let mut i: usize = prefix_len;
    while i < end
        invariant
            prefix_len <= i <= end,
            end == name@.len() - suffix_len,
            bytes@ == name@.subrange(prefix_len as int, i as int),
        decreases end - i,
    {
        bytes.push(name[i]);
        i = i + 1;
        assert(bytes@ =~= name@.subrange(prefix_len as int, i as int));
    }
    string_from_utf8(bytes)
}

/// Reads the request a file name stands for: `put-<object>.blob` stores the
/// file's bytes, `get-<object>.req` asks for an object, `repair-*.json`
/// carries a repair task, names starting with a dot are left alone, and
/// anything else is discarded.
pub fn parse_ipc_name(name: &str) -> (res: IpcRequest)
    ensures
        ({
            let b = utf8(name@);
            let put = framed(b, utf8("put-"@), utf8(".blob"@));
            let get = framed(b, utf8("get-"@), utf8(".req"@));
            let repair = has_prefix(b, utf8("repair-"@)) && b.len() >= utf8(".json"@).len()
                && b.skip(b.len() - utf8(".json"@).len()) == utf8(".json"@);
            &&& put && valid_utf8(between(b, utf8("put-"@), utf8(".blob"@))) ==> (res matches IpcRequest::Put(c)
                && c@ == decode_utf8(between(b, utf8("put-"@), utf8(".blob"@))))
            &&& !put && get && valid_utf8(between(b, utf8("get-"@), utf8(".req"@))) ==> (res matches IpcRequest::Get(c)
                && c@ == decode_utf8(between(b, utf8("get-"@), utf8(".req"@))))
            &&& !put && !get && repair ==> res is Repair
            &&& !put && !get && !repair && has_prefix(b, utf8("."@)) ==> res is Ignore
            &&& !put && !get && !repair && !has_prefix(b, utf8("."@)) ==> res is Discard
        }),
{
    let b = name.as_bytes();
    let put_prefix = "put-".as_bytes();
    let put_suffix = ".blob".as_bytes();
    let get_prefix = "get-".as_bytes();
    let get_suffix = ".req".as_bytes();
    let put = is_framed(b, put_prefix, put_suffix);
    if put {
        match middle(b, put_prefix.len(), put_suffix.len()) {
            Some(c) => {
                return IpcRequest::Put(c);
            },
            None => {},
        }
    }
    let get = is_framed(b, get_prefix, get_suffix);
    if !put && get {
        match middle(b, get_prefix.len(), get_suffix.len()) {
            Some(c) => {
                return IpcRequest::Get(c);
            },
            None => {},
        }
    }
    if put || get {
        return IpcRequest::Discard;
    }
    let json_suffix = ".json".as_bytes();
    if starts_with(name, "repair-") && ends_with_bytes(b, json_suffix) {
        return IpcRequest::Repair;
    }
    if starts_with(name, ".") {
        return IpcRequest::Ignore;
    }
    IpcRequest::Discard
}

/// Whether `b` ends with `s`.
fn ends_with_bytes(b: &[u8], s: &[u8]) -> (res: bool)
    ensures
        res == (b@.len() >= s@.len() && b@.skip(b@.len() - s@.len()) == s@),
{
    if s.len() > b.len() {
        return false;
    }
    let start = b.len() - s.len();
    let mut j: usize = 0;
    while j < s.len()
        invariant
            b@.len() == b.len(),
            s@.len() <= b@.len(),
            start == b@.len() - s@.len(),
            0 <= j <= s@.len(),
            forall|k: int| 0 <= k < j ==> b@[start + k] == s@[k],
        decreases s@.len() - j,
    {
        if b[start + j] != s[j] {
            assert(b@.skip(start as int)[j as int] != s@[j as int]);
            return false;
        }
        j = j + 1;
    }
    assert(b@.skip(start as int) =~= s@);
    true
}

/// A repair task is bound to its task and challenge: both at least 16
/// bytes long.
pub fn repair_binding_ok(task_id: &str, challenge: &str) -> (res: bool)
    ensures
        res == (utf8(task_id@).len() >= 16 && utf8(challenge@).len() >= 16),
{
    task_id.as_bytes().len() >= 16 && challenge.as_bytes().len() >= 16
}

} // verus!
