//! A plainer dispatcher, for a forge that is set up to deliver nothing but
//! pushes to the branch that is built: every delivery that passes
//! authentication asks for a build, whatever it says.

use vstd::prelude::*;
use vstd::string::*;
use crate::app::{handled, index_of, place, slug_of, target_of, Deplorable, Outcome};
use crate::auth::{secret_key, verdict, verify_github_request};
use crate::buffer::bytes_of;
use crate::config::{Config, Repo};
use crate::http::{Request, Response, StatusCode};

verus! {

/// What the plain dispatcher decides for a request to `target` with the
/// signature header `signature` and the body `body`: the repository to
/// build, or the status to refuse the request with.
///
/// An unknown path is not found. A delivery to a served path asks for a
/// build exactly when it passes authentication, and is unauthorized
/// otherwise, whatever the fault.
pub open spec fn accepted(
    entries: Seq<(String, Repo)>,
    target: Option<Seq<u8>>,
    signature: Option<Seq<u8>>,
    body: Seq<u8>,
) -> Result<int, StatusCode> {
    let found = match target {
        None => None,
        Some(target) => match slug_of(target) {
            None => None,
            Some(slug) => index_of(entries, slug),
        },
    };
    match found {
        None => Err(StatusCode::NotFound),
        Some(i) => if verdict(secret_key(entries[i].1.secret), body, signature) is Ok {
            Ok(i)
        } else {
            Err(StatusCode::Unauthorized)
        },
    }
}

/// The plain dispatcher over a routing table.
pub struct Nixlify {
    conditions: Deplorable,
}

impl Nixlify {
    /// The routing table that requests are looked up in.
    pub closed spec fn table(&self) -> Deplorable {
        self.conditions
    }

    /// What the dispatcher decides for `request` with the body `body`.
    pub open spec fn decision(&self, request: Request, body: Seq<u8>) -> Result<int, StatusCode> {
        accepted(
            self.table().entries(),
            target_of(request),
            request.headers.value_of("x-hub-signature".spec_bytes()),
            body,
        )
    }

    /// Builds the dispatcher from the settings, with the routing table that
    /// `Deplorable::new` makes of them.
    pub fn new(config: Config) -> (nixlify: Nixlify)
        ensures
            forall|slug: Seq<u8>| #[trigger]
                crate::app::repo_of(nixlify.table().entries(), slug) == crate::app::repo_of(
                    config.repos@,
                    slug,
                ),
            crate::app::distinct_slugs(nixlify.table().entries()),
    {
        Nixlify { conditions: Deplorable::new(config) }
    }

    /// The routing table that requests are looked up in.
    pub fn routes(&self) -> (table: &Deplorable)
        ensures
            *table == self.table(),
    {
        &self.conditions
    }

    /// Answers a request.
    ///
    /// An accepted delivery is answered with its own body and asks for a
    /// build; a refused one is answered with the status of the refusal and no
    /// body.
    pub fn handle_request(&self, request: &Request, body: &bytes::Bytes) -> (outcome: Outcome)
        ensures
            outcome.response.headers.fields() == Seq::<(Seq<u8>, Seq<u8>)>::empty(),
            match self.decision(*request, bytes_of(*body)) {
                Ok(index) => {
                    &&& outcome.response.status == StatusCode::Success
                    &&& bytes_of(outcome.response.body) == bytes_of(*body)
                    &&& place(outcome.signal) == Some(index)
                },
                Err(status) => {
                    &&& outcome.response.status == status
                    &&& bytes_of(outcome.response.body) == Seq::<u8>::empty()
                    &&& outcome.signal is None
                },
            },
            outcome.signal matches Some(i) ==> i < self.table().entries().len(),
    {
        let found = match &request.path {
            None => None,
            Some(path) => self.conditions.route(path.as_str().as_bytes()),
        };
        let index: usize = match found {
            None => {
                return Outcome { response: Response::empty(StatusCode::NotFound), signal: None };
            },
            Some(index) => index,
        };
        let signature: Option<&[u8]> = match request.headers.get("x-hub-signature") {
            None => None,
            Some(value) => Some(value.as_slice()),
        };
        match verify_github_request(&self.conditions.repo(index).secret, body, signature) {
            Ok(_) => Outcome {
                response: Response::with_body(StatusCode::Success, body.clone()),
                signal: Some(index),
            },
            Err(_) => Outcome { response: Response::empty(StatusCode::Unauthorized), signal: None },
        }
    }
}

/// The two dispatchers agree on which paths are served and on which
/// deliveries pass authentication: the plain one accepts a delivery exactly
/// when the other one does not refuse it as not found, unauthorized, or for
/// its signature.
pub proof fn lemma_plain_dispatcher_agrees(
    entries: Seq<(String, Repo)>,
    target: Option<Seq<u8>>,
    signature: Option<Seq<u8>>,
    event: Option<Seq<u8>>,
    body: Seq<u8>,
)
    ensures
        accepted(entries, target, signature, body) == Err::<int, StatusCode>(StatusCode::NotFound)
            <==> handled(entries, target, signature, event, body) == Err::<
            Option<int>,
            StatusCode,
        >(StatusCode::NotFound),
        handled(entries, target, signature, event, body) matches Ok(Some(index)) ==> accepted(
            entries,
            target,
            signature,
            body,
        ) == Ok::<int, StatusCode>(index),
{
}

} // verus!
