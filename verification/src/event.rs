//! Events, and the capability that decides whether an event's signature is
//! valid.

use crate::time::Timestamp;
use vstd::prelude::*;

verus! {

/// `serde_json::Value`, a JSON document. Nothing in this crate looks inside
/// one: an event carries its payload through unread.
#[verifier::external_type_specification]
#[verifier::external_body]
pub struct ExJsonValue(serde_json::Value);

/// `Clone::clone` of `serde_json::Value`: the copy is the same document as
/// the value it was made from. This is taken on trust from the derived
/// impl, which copies the value variant by variant.
pub assume_specification[ <serde_json::Value as Clone>::clone ](
    value: &serde_json::Value,
) -> (copy: serde_json::Value)
    ensures
        copy == *value,
;

/// A signed record of something that a node reported.
#[derive(Debug, PartialEq, Eq)]
pub struct Event {
    /// Identifier chosen by the reporter. Nothing requires it to be unique.
    pub event_id: String,
    /// When the event happened; the key of queries on the log.
    pub timestamp: Timestamp,
    /// The node that produced the event.
    pub origin_id: String,
    /// An open tag such as join, leave or data update.
    pub event_type: String,
    /// Data of the event, carried as it came.
    pub payload: serde_json::Value,
    /// What authenticates the event.
    pub signature: String,
}

impl Clone for Event {
    fn clone(&self) -> (copy: Event)
        ensures
            copy == *self,
    {
        Event {
            event_id: self.event_id.clone(),
            timestamp: self.timestamp,
            origin_id: self.origin_id.clone(),
            event_type: self.event_type.clone(),
            payload: self.payload.clone(),
            signature: self.signature.clone(),
        }
    }
}

/// Why the log refused an event.
#[derive(Clone, Copy, Debug, PartialEq, Eq, Structural)]
pub enum EventError {
    /// The verifier did not hold the event's signature valid.
    InvalidSignature,
}

impl EventError {
    /// The text that a caller is shown for this error.
    pub fn message(&self) -> (text: String)
        ensures
            text@ == "Invalid event signature"@,
    {
        match self {
            EventError::InvalidSignature => "Invalid event signature".to_owned(),
        }
    }
}

/// The step that decides whether an event's signature is valid. A log is
/// built over one such capability and asks it before every append, so another
/// scheme can be put in without touching the log.
pub trait VerifierCapability {
    /// The events whose signature this capability holds valid.
    spec fn accepts(&self, event: &Event) -> bool;

    /// Decides whether the signature of `event` is valid.
    fn verify_signature(&self, event: &Event) -> (valid: bool)
        ensures
            valid == self.accepts(event),
    ;
}

/// The capability that holds every signature valid.
#[derive(Clone, Copy, Debug)]
pub struct AcceptAll;

impl VerifierCapability for AcceptAll {
    open spec fn accepts(&self, event: &Event) -> bool {
        true
    }

    fn verify_signature(&self, event: &Event) -> (valid: bool) {
        true
    }
}

} // verus!
