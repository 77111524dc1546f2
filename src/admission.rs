use vstd::prelude::*;

use crate::codec::{decode_hex, is_hex_text, split_fields, split_of, unhex, views};
use crate::payload::{PayloadModel, TaskPayload};

verus! {

/// The verdict on one decoded task.
#[derive(Clone, Copy, Debug, PartialEq, Eq, Structural)]
pub enum Admission {
    Accepted,
    /// The deadline has passed.
    Expired,
    /// The responsibility filter does not select this node.
    NotSelected,
    /// The responsibility filter cannot be read.
    FilterMalformed,
    /// The requester's public key is not hex text.
    KeyMalformed,
}

/// What a responsibility filter says of a node. The filter lists the selected
/// node identities as hex text, separated by dots; it is malformed where a
/// listed identity is not hex text.
pub open spec fn filter_verdict(filter: Seq<u8>, node_id: Seq<u8>) -> Option<bool> {
    let parts = split_of(filter);
    if forall|k: int| 0 <= k < parts.len() ==> is_hex_text(#[trigger] parts[k]) {
        Some(exists|k: int| 0 <= k < parts.len() && unhex(#[trigger] parts[k]) == node_id)
    } else {
        None
    }
}

/// The deadline check first, then the responsibility check, then the
/// requester's key, which must decode before the task is queued.
pub open spec fn admission_of(p: PayloadModel, now: u64, node_id: Seq<u8>) -> Admission {
    if now >= p.deadline {
        Admission::Expired
    } else {
        match filter_verdict(p.filter, node_id) {
            None => Admission::FilterMalformed,
            Some(false) => Admission::NotSelected,
            Some(true) => if is_hex_text(p.public_key) {
                Admission::Accepted
            } else {
                Admission::KeyMalformed
            },
        }
    }
}

impl Admission {
    pub fn is_accepted(&self) -> (r: bool)
        ensures
            r == (*self == Admission::Accepted),
    {
        match self {
            Admission::Accepted => true,
            _ => false,
        }
    }
}

fn bytes_equal(a: &Vec<u8>, b: &Vec<u8>) -> (r: bool)
    ensures
        r == (a@ == b@),
{
    if a.len() != b.len() {
        return false;
    }
    let mut i: usize = 0;
    while i < a.len()
        invariant
            a.len() == b.len(),
            i <= a.len(),
            forall|j: int| 0 <= j < i ==> a@[j] == b@[j],
        decreases a.len() - i,
    {
        if a[i] != b[i] {
            return false;
        }
        i = i + 1;
    }
    assert(a@ =~= b@);
    true
}

/// Reads a responsibility filter: `None` where it is malformed, else whether
/// it selects `node_id`.
pub fn evaluate_filter(filter: &Vec<u8>, node_id: &Vec<u8>) -> (r: Option<bool>)
    ensures
        r == filter_verdict(filter@, node_id@),
{
    let parts = split_fields(filter);
    let ghost ps = views(parts@);
    let mut found = false;
    let mut i: usize = 0;
    while i < parts.len()
        invariant
            ps == views(parts@),
            ps == split_of(filter@),
            i <= parts.len(),
            forall|k: int| 0 <= k < i ==> is_hex_text(#[trigger] ps[k]),
            found == exists|k: int| 0 <= k < i && unhex(#[trigger] ps[k]) == node_id@,
        decreases parts.len() - i,
    {
        assert(ps[i as int] == parts[i as int]@);
        match decode_hex(&parts[i]) {
            None => {
                return None;
            },
            Some(id) => {
                if bytes_equal(&id, node_id) {
                    found = true;
                }
            },
        }
        i = i + 1;
    }
    Some(found)
}

/// Admits the task `p` at time `now` and, where it is accepted, hands out
/// the requester's key as raw bytes; otherwise the verdict that rejects it.
pub fn admitted_key(p: &TaskPayload, now: u64, node_id: &Vec<u8>) -> (r: Result<Vec<u8>, Admission>)
    ensures
        r is Ok <==> admission_of(p@, now, node_id@) == Admission::Accepted,
        r is Ok ==> r->Ok_0@ == unhex(p.public_key@) && is_hex_text(p.public_key@),
        r is Err ==> r->Err_0 == admission_of(p@, now, node_id@),
{
    if now >= p.deadline {
        return Err(Admission::Expired);
    }
    match evaluate_filter(&p.filter, node_id) {
        None => Err(Admission::FilterMalformed),
        Some(false) => Err(Admission::NotSelected),
        Some(true) => match decode_hex(&p.public_key) {
            None => Err(Admission::KeyMalformed),
            Some(key) => Ok(key),
        },
    }
}

/// Decides whether this node runs the task `p` at time `now`.
pub fn admit_task(p: &TaskPayload, now: u64, node_id: &Vec<u8>) -> (r: Admission)
    ensures
        r == admission_of(p@, now, node_id@),
        p.deadline <= now ==> r == Admission::Expired,
        filter_verdict(p.filter@, node_id@) == Some(false) ==> r != Admission::Accepted,
        r == Admission::Accepted <==> (now < p.deadline && filter_verdict(p.filter@, node_id@)
            == Some(true) && is_hex_text(p.public_key@)),
        r == Admission::Accepted ==> is_hex_text(p.public_key@),
{
    match admitted_key(p, now, node_id) {
        Ok(_) => Admission::Accepted,
        Err(verdict) => verdict,
    }
}

} // verus!
