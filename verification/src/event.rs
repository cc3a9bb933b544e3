//! Classification of forge events.
//!
//! Only a push to the watched reference starts a build. Every other kind of
//! event is acknowledged, so that the forge does not deliver it again.

use vstd::prelude::*;
use vstd::string::*;
use crate::text::{present, same_bytes};

verus! {

/// The string that `serde_yaml` finds under `key` at the top level of the
/// YAML or JSON `document`, if it finds one.
pub uninterp spec fn yaml_string_field(document: Seq<u8>, key: Seq<char>) -> Option<Seq<u8>>;

/// The bytes held, if any.
pub open spec fn held(value: Option<Vec<u8>>) -> Option<Seq<u8>> {
    match value {
        None => None,
        Some(bytes) => Some(bytes@),
    }
}

/// Looks up a string at the top level of a document.
///
/// Parses `document` with `serde_yaml::from_slice` into a `serde_yaml::Value`,
/// indexes it with `Value::get` and reads the entry with `Value::as_str`. The
/// outcome depends on `document` and `key` alone.
#[verifier::external_body]
fn string_field(document: &[u8], key: &str) -> (value: Option<Vec<u8>>)
    ensures
        held(value) == yaml_string_field(document@, key@),
{
    let parsed: serde_yaml::Value = serde_yaml::from_slice(document).ok()?;
    parsed.get(key)?.as_str().map(|text| text.as_bytes().to_vec())
}

/// What a delivery asks for.
#[derive(Clone, Copy, Debug, PartialEq, Eq, Structural)]
pub enum Classification {
    /// A push to the watched reference: a build is due.
    Triggering,
    /// An event that the service does not act on.
    Acknowledged,
    /// A push to another reference.
    Rejected,
}

/// Why a delivery could not be classified.
#[derive(Clone, Copy, Debug, PartialEq, Eq, Structural)]
pub enum ClassifyError {
    /// The delivery does not say what kind of event it is.
    MissingEventType,
    /// The body of a push does not parse, or names no reference.
    MalformedPayload,
}

/// The event type of a push.
pub open spec fn push_event() -> Seq<u8> {
    "push".spec_bytes()
}

/// How a push is classified, given the reference that its payload names:
/// it triggers exactly when that reference is the watched one, byte for byte.
pub open spec fn push_classified(pushed: Option<Seq<u8>>, watched: Seq<u8>) -> Result<
    Classification,
    ClassifyError,
> {
    match pushed {
        None => Err(ClassifyError::MalformedPayload),
        Some(reference) => if reference == watched {
            Ok(Classification::Triggering)
        } else {
            Ok(Classification::Rejected)
        },
    }
}

/// How a delivery with event type `event` and body `body` is classified for
/// a repository that watches `watched`.
pub open spec fn classified(event: Option<Seq<u8>>, body: Seq<u8>, watched: Seq<u8>) -> Result<
    Classification,
    ClassifyError,
> {
    match event {
        None => Err(ClassifyError::MissingEventType),
        Some(kind) => if kind == push_event() {
            push_classified(yaml_string_field(body, "ref"@), watched)
        } else {
            Ok(Classification::Acknowledged)
        },
    }
}

/// Classifies a push whose payload names the reference `pushed`, or names
/// none.
pub fn classify_push(pushed: Option<Vec<u8>>, watched: &str) -> (r: Result<
    Classification,
    ClassifyError,
>)
    ensures
        r == push_classified(held(pushed), watched.spec_bytes()),
{
    match pushed {
        None => Err(ClassifyError::MalformedPayload),
        Some(reference) => if same_bytes(reference.as_slice(), watched.as_bytes()) {
            Ok(Classification::Triggering)
        } else {
            Ok(Classification::Rejected)
        },
    }
}

/// Classifies a delivery from its event type header and its body.
///
/// The body is parsed only for a push.
pub fn classify(event_type: Option<&[u8]>, body: &[u8], watched: &str) -> (r: Result<
    Classification,
    ClassifyError,
>)
    ensures
        r == classified(present(event_type), body@, watched.spec_bytes()),
        event_type is None ==> r == Err::<Classification, ClassifyError>(
            ClassifyError::MissingEventType,
        ),
{
    let kind = match event_type {
        None => {
            return Err(ClassifyError::MissingEventType);
        },
        Some(kind) => kind,
    };
    if same_bytes(kind, "push".as_bytes()) {
        classify_push(string_field(body, "ref"), watched)
    } else {
        Ok(Classification::Acknowledged)
    }
}

} // verus!
