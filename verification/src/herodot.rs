//! The remote commit protocol, transport aside: the collector endpoint for
//! a host, and the decoding of the collector's acknowledgment body into the
//! correlation identifier it assigns. Issuing the request is the caller's
//! work; every outcome of the round trip maps onto `CommitError`.

use vstd::prelude::*;
use vstd::string::*;
use crate::ident::RecordId;
use crate::ident::uuid_parsed;
use crate::text::starts_with;
use crate::text::starts_with_seq;
use crate::text::trim;
use crate::text::trim_seq;

verus! {

/// Why a commit round trip failed. The first two arise in transport, which
/// the caller performs; the rest in decoding the acknowledgment.
#[derive(Debug, Clone)]
pub enum CommitError {
    /// The request could not be sent or no response arrived.
    Transport(String),
    /// The response arrived with a non-success status.
    Status(u16),
    /// The response body is not an acknowledgment object.
    MalformedResponse,
    /// The acknowledgment object does not carry the `record_id` field.
    MissingRecordId,
    /// The `record_id` field does not hold a textual identifier.
    MalformedIdentifier,
}

/// The outcome of decoding an acknowledgment body: the identifier value,
/// or which decoding failure the body shows. The body must be an object
/// holding exactly the `record_id` field with a textual identifier.
pub open spec fn response_outcome(s: Seq<char>) -> Result<u128, CommitError> {
    let t = trim_seq(s);
    if t.len() < 2 || t[0] != '{' || t[t.len() - 1] != '}' {
        Err(CommitError::MalformedResponse)
    } else {
        let u = trim_seq(t.subrange(1, t.len() - 1));
        if !starts_with_seq(u, "\"record_id\""@) {
            Err(CommitError::MissingRecordId)
        } else {
            let v = trim_seq(u.subrange(11, u.len() as int));
            if v.len() < 1 || v[0] != ':' {
                Err(CommitError::MalformedResponse)
            } else {
                let w = trim_seq(v.subrange(1, v.len() as int));
                if w.len() < 2 || w[0] != '"' || w[w.len() - 1] != '"' {
                    Err(CommitError::MalformedResponse)
                } else {
                    let content = w.subrange(1, w.len() - 1);
                    if exists|i: int|
                        0 <= i < content.len() && (content[i] == '"' || content[i] == '\\') {
                        Err(CommitError::MalformedResponse)
                    } else {
                        match uuid_parsed(content) {
                            Some(value) => Ok(value),
                            None => Err(CommitError::MalformedIdentifier),
                        }
                    }
                }
            }
        }
    }
}

/// Decodes a collector acknowledgment body into the assigned identifier.
pub fn parse_commit_response(body: &str) -> (r: Result<RecordId, CommitError>)
    ensures
        match r {
            Ok(id) => response_outcome(body@) == Ok::<u128, CommitError>(id.value),
            Err(e) => response_outcome(body@) == Err::<u128, CommitError>(e),
        },
{
    proof {
        reveal_strlit("\"record_id\"");
    }
    let t = trim(body);
    let tn: usize = t.unicode_len();
    if tn < 2 || t.get_char(0) != '{' || t.get_char(tn - 1) != '}' {
        return Err(CommitError::MalformedResponse);
    }
    let u = trim(t.substring_char(1, tn - 1));
    let un: usize = u.unicode_len();
    if !starts_with(u, "\"record_id\"") {
        return Err(CommitError::MissingRecordId);
    }
    let v = trim(u.substring_char(11, un));
    let vn: usize = v.unicode_len();
    if vn < 1 || v.get_char(0) != ':' {
        return Err(CommitError::MalformedResponse);
    }
    let w = trim(v.substring_char(1, vn));
    let wn: usize = w.unicode_len();
    if wn < 2 || w.get_char(0) != '"' || w.get_char(wn - 1) != '"' {
        return Err(CommitError::MalformedResponse);
    }
    let content = w.substring_char(1, wn - 1);
    let cn: usize = wn - 2;
    proof {
        assert(response_outcome(body@) == (if (exists|k: int|
            0 <= k < content@.len() && (content@[k] == '"' || content@[k] == '\\')) {
            Err::<u128, CommitError>(CommitError::MalformedResponse)
        } else {
            match uuid_parsed(content@) {
                Some(value) => Ok::<u128, CommitError>(value),
                None => Err::<u128, CommitError>(CommitError::MalformedIdentifier),
            }
        }));
    }
    let mut i: usize = 0;
    while i < cn
        invariant
            cn == content@.len(),
            0 <= i <= cn,
            forall|k: int| 0 <= k < i ==> !(content@[k] == '"' || content@[k] == '\\'),
            response_outcome(body@) == (if (exists|k: int|
                0 <= k < content@.len() && (content@[k] == '"' || content@[k] == '\\')) {
                Err::<u128, CommitError>(CommitError::MalformedResponse)
            } else {
                match uuid_parsed(content@) {
                    Some(value) => Ok::<u128, CommitError>(value),
                    None => Err::<u128, CommitError>(CommitError::MalformedIdentifier),
                }
            }),
        decreases cn - i,
    {
        let c = content.get_char(i);
        if c == '"' || c == '\\' {
            proof {
                assert(content@[i as int] == '"' || content@[i as int] == '\\');
            }
            return Err(CommitError::MalformedResponse);
        }
        i = i + 1;
    }
    match RecordId::parse(content) {
        Some(id) => Ok(id),
        None => Err(CommitError::MalformedIdentifier),
    }
}

/// A handle on a remote collector, identified by its host.
#[derive(Debug, Clone)]
pub struct Herodot {
    pub host: String,
}

impl Herodot {
    /// Wraps the collector's host, stored unchanged.
    pub fn new(host: String) -> (r: Self)
        ensures
            r.host == host,
    {
        Herodot { host }
    }

    /// The store endpoint of the collector: the host followed by the fixed
    /// record path.
    pub fn commit_url(&self) -> (r: String)
        ensures
            r@ == self.host@ + "/api/record"@,
    {
        let mut out = self.host.clone();
        out.append("/api/record");
        out
    }
}

} // verus!
