//! Agent DID identifiers (`kamn:did:agent:<identifier>`).
use vstd::prelude::*;
use crate::text::{concat, has_prefix, is_blank, is_blank_seq, strip_prefix};

verus! {

/// Prefix every agent DID starts with.
pub const AGENT_DID_PREFIX: &'static str = "kamn:did:agent:";

/// Whether `value` is a well-formed agent DID: the agent prefix followed by a
/// non-blank identifier.
pub open spec fn agent_did_valid(value: Seq<char>) -> bool {
    has_prefix(value, "kamn:did:agent:"@) && !is_blank_seq(value.skip("kamn:did:agent:"@.len() as int))
}

/// Parser detail reported for a malformed agent DID.
pub open spec fn agent_did_error_text(value: Seq<char>) -> Seq<char> {
    if !has_prefix(value, "kamn:did:agent:"@) {
        "invalid agent did prefix: "@ + value
    } else {
        "agent did identifier must not be empty: "@ + value
    }
}

/// A validated agent DID.
#[derive(Debug, Clone, PartialEq, Eq)]
pub struct AgentDid {
    value: String,
}

impl AgentDid {
    /// Characters of the DID.
    pub closed spec fn spec_text(&self) -> Seq<char> {
        self.value@
    }

    /// Parses an agent DID; the error carries the parser detail text.
    pub fn parse(value: &str) -> (r: Result<AgentDid, String>)
        ensures
            r is Ok <==> agent_did_valid(value@),
            r matches Ok(did) ==> did.spec_text() == value@,
            r matches Err(detail) ==> detail@ == agent_did_error_text(value@),
    {
        match strip_prefix(value, AGENT_DID_PREFIX) {
            None => Err(concat("invalid agent did prefix: ", value)),
            Some(rest) => {
                if is_blank(rest.as_str()) {
                    Err(concat("agent did identifier must not be empty: ", value))
                } else {
                    Ok(AgentDid { value: value.to_owned() })
                }
            },
        }
    }

    /// The DID text.
    pub fn as_str(&self) -> (s: &str)
        ensures
            s@ == self.spec_text(),
    {
        self.value.as_str()
    }
}

} // verus!
