//! The dispatcher: from a request to a response, and to the repository
//! whose build is due.
//!
//! A request is routed by its path to a repository, authenticated against
//! that repository's secret, and classified. The answer tells the forge only
//! whether the delivery was valid; it never waits for a build.

use vstd::prelude::*;
use vstd::string::*;
use vstd::utf8::encode_utf8;
use crate::auth::{secret_key, verdict, verify_github_request};
use crate::buffer::bytes_of;
use crate::config::{Config, Repo};
use crate::event::{classified, classify, Classification};
use crate::http::{Request, Response, StatusCode};
use crate::text::same_bytes;

verus! {

/// Whether `b` ends the path of a request target: the mark before a query or
/// before a fragment.
pub open spec fn ends_path(b: u8) -> bool {
    b == 0x3f || b == 0x23
}

/// The length of the path that `target` begins with: up to its first `?` or
/// `#`, or all of it.
pub open spec fn path_len(target: Seq<u8>) -> nat
    decreases target.len(),
{
    if target.len() == 0 || ends_path(target[0]) {
        0
    } else {
        1 + path_len(target.skip(1))
    }
}

/// The slug that a request target asks for: its path without the leading
/// `/`. A path that does not begin with `/` asks for none.
pub open spec fn slug_of(target: Seq<u8>) -> Option<Seq<u8>> {
    let path = target.take(path_len(target) as int);
    if path.len() > 0 && path[0] == 0x2f {
        Some(path.skip(1))
    } else {
        None
    }
}

/// The path of `target` is a beginning of it without `?` or `#`, and what
/// follows it, if anything, is one of the two.
pub proof fn lemma_path_len(target: Seq<u8>)
    ensures
        path_len(target) <= target.len(),
        forall|i: int| 0 <= i < path_len(target) ==> !ends_path(#[trigger] target[i]),
        path_len(target) < target.len() ==> ends_path(target[path_len(target) as int]),
    decreases target.len(),
{
    if target.len() == 0 || ends_path(target[0]) {
    } else {
        let rest = target.skip(1);
        lemma_path_len(rest);
        assert forall|i: int| 0 <= i < path_len(target) implies !ends_path(
            #[trigger] target[i],
        ) by {
            if i > 0 {
                assert(target[i] == rest[i - 1]);
            }
        }
        if path_len(target) < target.len() {
            assert(target[path_len(target) as int] == rest[path_len(rest) as int]);
        }
    }
}

/// The slug of a route, as the bytes that a path is compared with.
pub open spec fn slug_bytes(entry: (String, Repo)) -> Seq<u8> {
    encode_utf8(entry.0@)
}

/// The place of the last entry of `entries` whose slug is `slug`, if there is
/// one.
pub open spec fn index_of(entries: Seq<(String, Repo)>, slug: Seq<u8>) -> Option<int>
    decreases entries.len(),
{
    if entries.len() == 0 {
        None
    } else if slug_bytes(entries.last()) == slug {
        Some(entries.len() - 1)
    } else {
        index_of(entries.drop_last(), slug)
    }
}

/// The settings that `entries` holds for `slug`: those of the last entry with
/// that slug.
pub open spec fn repo_of(entries: Seq<(String, Repo)>, slug: Seq<u8>) -> Option<Repo> {
    match index_of(entries, slug) {
        None => None,
        Some(i) => Some(entries[i].1),
    }
}

/// Whether no two entries share a slug.
pub open spec fn distinct_slugs(entries: Seq<(String, Repo)>) -> bool {
    forall|i: int, j: int|
        0 <= i < j < entries.len() ==> slug_bytes(#[trigger] entries[i]) != slug_bytes(
            #[trigger] entries[j],
        )
}

/// What `index_of` finds is an entry with the slug asked for, and it finds
/// one whenever there is one.
pub proof fn lemma_index_of(entries: Seq<(String, Repo)>, slug: Seq<u8>)
    ensures
        match index_of(entries, slug) {
            Some(i) => 0 <= i < entries.len() && slug_bytes(entries[i]) == slug && forall|j: int|
                i < j < entries.len() ==> slug_bytes(#[trigger] entries[j]) != slug,
            None => forall|j: int|
                0 <= j < entries.len() ==> slug_bytes(#[trigger] entries[j]) != slug,
        },
    decreases entries.len(),
{
    if entries.len() == 0 {
    } else if slug_bytes(entries.last()) == slug {
    } else {
        let shorter = entries.drop_last();
        lemma_index_of(shorter, slug);
        match index_of(shorter, slug) {
            Some(i) => {
                assert forall|j: int| i < j < entries.len() implies slug_bytes(
                    #[trigger] entries[j],
                ) != slug by {
                    if j < shorter.len() {
                        assert(entries[j] == shorter[j]);
                    }
                }
            },
            None => {
                assert forall|j: int| 0 <= j < entries.len() implies slug_bytes(
                    #[trigger] entries[j],
                ) != slug by {
                    if j < shorter.len() {
                        assert(entries[j] == shorter[j]);
                    }
                }
            },
        }
    }
}

/// Looking a slug up after one more entry was put in front: a later entry
/// with that slug still wins.
proof fn lemma_repo_of_front(first: (String, Repo), rest: Seq<(String, Repo)>, slug: Seq<u8>)
    ensures
        repo_of(seq![first] + rest, slug) == match repo_of(rest, slug) {
            Some(repo) => Some(repo),
            None => if slug_bytes(first) == slug {
                Some(first.1)
            } else {
                None
            },
        },
        index_of(seq![first] + rest, slug) == match index_of(rest, slug) {
            Some(i) => Some(i + 1),
            None => if slug_bytes(first) == slug {
                Some(0int)
            } else {
                None
            },
        },
    decreases rest.len(),
{
    let all = seq![first] + rest;
    if rest.len() == 0 {
        assert(all.drop_last() =~= Seq::<(String, Repo)>::empty());
        assert(all.last() == first);
    } else {
        assert(all.last() == rest.last());
        assert(all.drop_last() =~= seq![first] + rest.drop_last());
        lemma_repo_of_front(first, rest.drop_last(), slug);
        lemma_index_of(rest.drop_last(), slug);
    }
}

/// What the dispatcher decides for a request to `target` with the header
/// fields `signature` and `event` and the body `body`.
///
/// An unknown path is not found. A delivery that fails authentication is
/// answered as authentication says. Of the others, a push to the watched
/// reference is accepted and names the repository to build, any event but a
/// push is accepted and names none, and everything else is a bad request.
pub open spec fn handled(
    entries: Seq<(String, Repo)>,
    target: Option<Seq<u8>>,
    signature: Option<Seq<u8>>,
    event: Option<Seq<u8>>,
    body: Seq<u8>,
) -> Result<Option<int>, StatusCode> {
    let found = match target {
        None => None,
        Some(target) => match slug_of(target) {
            None => None,
            Some(slug) => index_of(entries, slug),
        },
    };
    match found {
        None => Err(StatusCode::NotFound),
        Some(i) => match verdict(secret_key(entries[i].1.secret), body, signature) {
            Err(status) => Err(status),
            Ok(_) => match classified(event, body, encode_utf8(entries[i].1.reference@)) {
                Ok(Classification::Triggering) => Ok(Some(i)),
                Ok(Classification::Acknowledged) => Ok(None),
                _ => Err(StatusCode::BadRequest),
            },
        },
    }
}

/// The request target as bytes, if the request has one.
pub open spec fn target_of(request: Request) -> Option<Seq<u8>> {
    match request.path {
        None => None,
        Some(path) => Some(encode_utf8(path@)),
    }
}

/// A place in the routing table, if any, as a number.
pub open spec fn place(index: Option<usize>) -> Option<int> {
    match index {
        None => None,
        Some(i) => Some(i as int),
    }
}

/// The routing table of the service: for each slug the settings of its
/// repository. It is built once and never changes.
pub struct Deplorable {
    conditions: Vec<(String, Repo)>,
}

/// What the dispatcher answers, and which repository's build it asks for.
pub struct Outcome {
    /// The response to send.
    pub response: Response,
    /// The place in the routing table of the repository to build, if a build
    /// is due.
    pub signal: Option<usize>,
}

impl Deplorable {
    /// The routes, each a slug with the settings of its repository.
    pub closed spec fn entries(&self) -> Seq<(String, Repo)> {
        self.conditions@
    }

    #[verifier::type_invariant]
    spec fn slugs_are_distinct(&self) -> bool {
        distinct_slugs(self.conditions@)
    }

    /// What the dispatcher decides for `request` with the body `body`.
    pub open spec fn decision(&self, request: Request, body: Seq<u8>) -> Result<
        Option<int>,
        StatusCode,
    > {
        handled(
            self.entries(),
            target_of(request),
            request.headers.value_of("x-hub-signature".spec_bytes()),
            request.headers.value_of("x-github-event".spec_bytes()),
            body,
        )
    }

    /// Builds the routing table from the settings.
    ///
    /// Every slug of the settings is routed, to the settings of the last
    /// entry that has it, and no slug is routed twice.
    pub fn new(config: Config) -> (app: Deplorable)
        ensures
            distinct_slugs(app.entries()),
            forall|slug: Seq<u8>| #[trigger]
                repo_of(app.entries(), slug) == repo_of(config.repos@, slug),
    {
        let ghost all = config.repos@;
        let mut pending: Vec<(String, Repo)> = config.repos;
        let mut routes: Vec<(String, Repo)> = Vec::new();
        assert(all.skip(all.len() as int) =~= Seq::<(String, Repo)>::empty());
        while pending.len() > 0
            invariant
                pending@ == all.take(pending@.len() as int),
                pending@.len() <= all.len(),
                distinct_slugs(routes@),
                forall|slug: Seq<u8>| #[trigger]
                    repo_of(routes@, slug) == repo_of(all.skip(pending@.len() as int), slug),
            decreases pending@.len(),
        {
            let ghost k = pending@.len() - 1;
            let ghost before = routes@;
            let entry = pending.pop().unwrap();
            assert(entry == all[k]);
            assert(pending@ =~= all.take(k));
            assert(all.skip(k) =~= seq![entry] + all.skip(k + 1));
            let known = find(&routes, entry.0.as_str().as_bytes());
            proof {
                lemma_index_of(before, slug_bytes(entry));
            }
            if known.is_none() {
                routes.push(entry);
                assert(routes@.drop_last() =~= before);
            }
            assert forall|slug: Seq<u8>| #[trigger]
                repo_of(routes@, slug) == repo_of(all.skip(k), slug) by {
                lemma_repo_of_front(entry, all.skip(k + 1), slug);
                assert(repo_of(before, slug) == repo_of(all.skip(k + 1), slug));
                lemma_index_of(before, slug);
            }
        }
        assert(all.skip(0) =~= all);
        Deplorable { conditions: routes }
    }

    /// The number of routes.
    pub fn len(&self) -> (n: usize)
        ensures
            n == self.entries().len(),
    {
        self.conditions.len()
    }

    /// The slug of the route at `index`.
    pub fn slug(&self, index: usize) -> (slug: &String)
        requires
            index < self.entries().len(),
        ensures
            *slug == self.entries()[index as int].0,
    {
        &self.conditions[index].0
    }

    /// The settings of the repository at `index`.
    pub fn repo(&self, index: usize) -> (repo: &Repo)
        requires
            index < self.entries().len(),
        ensures
            *repo == self.entries()[index as int].1,
    {
        &self.conditions[index].1
    }

    /// The place of the repository that the request target `target` asks
    /// for, if it asks for one that is served.
    pub fn route(&self, target: &[u8]) -> (index: Option<usize>)
        ensures
            place(index) == match slug_of(target@) {
                None => None,
                Some(slug) => index_of(self.entries(), slug),
            },
            index matches Some(i) ==> i < self.entries().len(),
    {
        let n: usize = target.len();
        let mut end: usize = 0;
        proof {
            lemma_path_len(target@);
        }
        while end < n && target[end] != 0x3f && target[end] != 0x23
            invariant
                n == target@.len(),
                end <= path_len(target@) <= n,
                forall|i: int| 0 <= i < path_len(target@) ==> !ends_path(#[trigger] target@[i]),
                path_len(target@) < n ==> ends_path(target@[path_len(target@) as int]),
            decreases n - end,
        {
            proof {
                if end == path_len(target@) {
                    assert(ends_path(target@[end as int]));
                }
            }
            end = end + 1;
        }
        assert(end == path_len(target@)) by {
            if end < path_len(target@) {
                assert(!ends_path(target@[end as int]));
            }
        }
        if end == 0 || target[0] != 0x2f {
            return None;
        }
        let slug = vstd::slice::slice_subrange(target, 1, end);
        assert(slug@ =~= target@.take(end as int).skip(1));
        let found = find(&self.conditions, slug);
        proof {
            lemma_index_of(self.conditions@, slug@);
        }
        found
    }

    /// Decides on a request: the place of the repository to build, if the
    /// request is a valid push to its watched reference; nothing to do, if
    /// it is another event; or the status to refuse it with.
    ///
    /// Authentication comes before the body is parsed.
    pub fn handle_repo_request(&self, request: &Request, body: &bytes::Bytes) -> (r: Result<
        Option<usize>,
        StatusCode,
    >)
        ensures
            match r {
                Ok(signal) => self.decision(*request, bytes_of(*body)) == Ok::<
                    Option<int>,
                    StatusCode,
                >(place(signal)),
                Err(status) => self.decision(*request, bytes_of(*body)) == Err::<
                    Option<int>,
                    StatusCode,
                >(status),
            },
            r matches Ok(Some(i)) ==> i < self.entries().len(),
    {
        let target = match &request.path {
            None => {
                return Err(StatusCode::NotFound);
            },
            Some(path) => path.as_str().as_bytes(),
        };
        let index: usize = match self.route(target) {
            None => {
                return Err(StatusCode::NotFound);
            },
            Some(index) => index,
        };
        let repo = &self.conditions[index].1;
        let signature: Option<&[u8]> = match request.headers.get("x-hub-signature") {
            None => None,
            Some(value) => Some(value.as_slice()),
        };
        match verify_github_request(&repo.secret, body, signature) {
            Err(status) => {
                return Err(status);
            },
            Ok(_) => {},
        }
        let event: Option<&[u8]> = match request.headers.get("x-github-event") {
            None => None,
            Some(value) => Some(value.as_slice()),
        };
        match classify(event, body.as_ref(), repo.reference.as_str()) {
            Ok(Classification::Triggering) => Ok(Some(index)),
            Ok(Classification::Acknowledged) => Ok(None),
            _ => Err(StatusCode::BadRequest),
        }
    }

    /// Answers a request.
    ///
    /// An accepted delivery is answered with its own body; a refused one with
    /// the status of the refusal and no body. A build is asked for only with
    /// an accepted push.
    pub fn handle_request(&self, request: &Request, body: &bytes::Bytes) -> (outcome: Outcome)
        ensures
            outcome.response.headers.fields() == Seq::<(Seq<u8>, Seq<u8>)>::empty(),
            match self.decision(*request, bytes_of(*body)) {
                Ok(signal) => {
                    &&& outcome.response.status == StatusCode::Success
                    &&& bytes_of(outcome.response.body) == bytes_of(*body)
                    &&& place(outcome.signal) == signal
                },
                Err(status) => {
                    &&& outcome.response.status == status
                    &&& bytes_of(outcome.response.body) == Seq::<u8>::empty()
                    &&& outcome.signal is None
                },
            },
            outcome.signal matches Some(i) ==> i < self.entries().len(),
    {
        match self.handle_repo_request(request, body) {
            Ok(signal) => Outcome {
                response: Response::with_body(StatusCode::Success, body.clone()),
                signal,
            },
            Err(status) => Outcome { response: Response::empty(status), signal: None },
        }
    }
}

/// Routing: a request whose path names no slug that is served is not found,
/// whatever its headers and body.
pub proof fn lemma_unknown_path_not_found(app: Deplorable, request: Request, body: Seq<u8>)
    requires
        target_of(request) matches Some(target) ==> (slug_of(target) matches Some(slug)
            ==> forall|i: int|
            0 <= i < app.entries().len() ==> slug_bytes(#[trigger] app.entries()[i]) != slug),
    ensures
        app.decision(request, body) == Err::<Option<int>, StatusCode>(StatusCode::NotFound),
{
    match target_of(request) {
        None => {},
        Some(target) => match slug_of(target) {
            None => {},
            Some(slug) => {
                lemma_index_of(app.entries(), slug);
            },
        },
    }
}

/// A delivery to a served path that passes authentication but does not say
/// what kind of event it is, is a bad request.
pub proof fn lemma_missing_event_type_is_bad_request(
    app: Deplorable,
    request: Request,
    body: Seq<u8>,
    target: Seq<u8>,
    slug: Seq<u8>,
    index: int,
)
    requires
        target_of(request) == Some(target),
        slug_of(target) == Some(slug),
        index_of(app.entries(), slug) == Some(index),
        verdict(
            secret_key(app.entries()[index].1.secret),
            body,
            request.headers.value_of("x-hub-signature".spec_bytes()),
        ) is Ok,
        request.headers.value_of("x-github-event".spec_bytes()) is None,
    ensures
        app.decision(request, body) == Err::<Option<int>, StatusCode>(StatusCode::BadRequest),
{
}

/// A build is asked for only of a served repository, only for a delivery
/// that passed its authentication, and only for a push to its watched
/// reference.
pub proof fn lemma_signal_only_for_valid_push(
    app: Deplorable,
    request: Request,
    body: Seq<u8>,
    index: int,
)
    requires
        app.decision(request, body) == Ok::<Option<int>, StatusCode>(Some(index)),
    ensures
        0 <= index < app.entries().len(),
        verdict(
            secret_key(app.entries()[index].1.secret),
            body,
            request.headers.value_of("x-hub-signature".spec_bytes()),
        ) is Ok,
        classified(
            request.headers.value_of("x-github-event".spec_bytes()),
            body,
            encode_utf8(app.entries()[index].1.reference@),
        ) == Ok::<Classification, crate::event::ClassifyError>(Classification::Triggering),
{
    match target_of(request) {
        None => {},
        Some(target) => match slug_of(target) {
            None => {},
            Some(slug) => {
                lemma_index_of(app.entries(), slug);
            },
        },
    }
}

/// The place of the last entry of `entries` whose slug is `slug`.
fn find(entries: &Vec<(String, Repo)>, slug: &[u8]) -> (index: Option<usize>)
    ensures
        place(index) == index_of(entries@, slug@),
        index matches Some(i) ==> i < entries@.len(),
{
    let mut i: usize = entries.len();
    assert(entries@.take(i as int) =~= entries@);
    while i > 0
        invariant
            i <= entries@.len(),
            index_of(entries@, slug@) == index_of(entries@.take(i as int), slug@),
        decreases i,
    {
        let entry = &entries[i - 1];
        proof {
            let shown = entries@.take(i as int);
            assert(shown.last() == *entry);
            assert(shown.drop_last() =~= entries@.take(i - 1));
        }
        if same_bytes(entry.0.as_str().as_bytes(), slug) {
            return Some(i - 1);
        }
        i = i - 1;
    }
    assert(entries@.take(0).len() == 0);
    None
}

} // verus!
