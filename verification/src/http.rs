//! Requests and responses as values: status codes, header fields, and the
//! parts of a request line.

use vstd::prelude::*;
use vstd::string::*;
use crate::buffer::bytes_of;
use crate::text::{lowered, to_lower, same_bytes};

verus! {

/// The status codes that the service answers with.
#[derive(Clone, Copy, Debug, PartialEq, Eq, Structural)]
pub enum StatusCode {
    Success,
    BadRequest,
    Unauthorized,
    NotFound,
}

impl StatusCode {
    /// The three-digit number of the status.
    pub open spec fn number(self) -> u16 {
        match self {
            StatusCode::Success => 200,
            StatusCode::BadRequest => 400,
            StatusCode::Unauthorized => 401,
            StatusCode::NotFound => 404,
        }
    }

    /// The reason phrase that goes with the status by convention.
    pub open spec fn reason(self) -> Seq<char> {
        match self {
            StatusCode::Success => "OK"@,
            StatusCode::BadRequest => "Bad Request"@,
            StatusCode::Unauthorized => "Unauthorized"@,
            StatusCode::NotFound => "Not Found"@,
        }
    }

    /// The three-digit number of the status.
    pub fn as_u16(&self) -> (n: u16)
        ensures
            n == self.number(),
    {
        match self {
            StatusCode::Success => 200,
            StatusCode::BadRequest => 400,
            StatusCode::Unauthorized => 401,
            StatusCode::NotFound => 404,
        }
    }

    /// The reason phrase that goes with the status by convention.
    pub fn canonical_reason(&self) -> (phrase: &'static str)
        ensures
            phrase@ == self.reason(),
    {
        match self {
            StatusCode::Success => "OK",
            StatusCode::BadRequest => "Bad Request",
            StatusCode::Unauthorized => "Unauthorized",
            StatusCode::NotFound => "Not Found",
        }
    }
}

/// Fields as plain sequences of bytes: name, then value.
pub open spec fn plain_fields(raw: Seq<(Vec<u8>, Vec<u8>)>) -> Seq<(Seq<u8>, Seq<u8>)> {
    Seq::new(raw.len(), |i: int| (raw[i].0@, raw[i].1@))
}

/// The same fields with each name in small letters.
pub open spec fn lowered_fields(fields: Seq<(Seq<u8>, Seq<u8>)>) -> Seq<(Seq<u8>, Seq<u8>)> {
    Seq::new(fields.len(), |i: int| (lowered(fields[i].0), fields[i].1))
}

/// The value of the last field of `fields` that is named `name`, if there is
/// one.
pub open spec fn last_value(fields: Seq<(Seq<u8>, Seq<u8>)>, name: Seq<u8>) -> Option<Seq<u8>>
    decreases fields.len(),
{
    if fields.len() == 0 {
        None
    } else if fields.last().0 == name {
        Some(fields.last().1)
    } else {
        last_value(fields.drop_last(), name)
    }
}

/// Header fields, found by name whatever the case of its letters.
///
/// Names are kept in small letters. Where a name occurs more than once, the
/// last field of that name is the one that counts.
#[derive(Debug)]
pub struct Headers {
    entries: Vec<(Vec<u8>, Vec<u8>)>,
}

impl Headers {
    /// The fields in the order they were given: name in small letters, then
    /// value.
    pub closed spec fn fields(&self) -> Seq<(Seq<u8>, Seq<u8>)> {
        Seq::new(self.entries@.len(), |i: int| (self.entries@[i].0@, self.entries@[i].1@))
    }

    /// The value found under `name`, compared without regard to case.
    pub open spec fn value_of(&self, name: Seq<u8>) -> Option<Seq<u8>> {
        last_value(self.fields(), lowered(name))
    }

    /// Copies parsed fields, name then value, turning each name into small
    /// letters.
    pub fn parse(raw: &[(Vec<u8>, Vec<u8>)]) -> (headers: Headers)
        ensures
            headers.fields() == lowered_fields(plain_fields(raw@)),
    {
        let n: usize = raw.len();
        let mut entries: Vec<(Vec<u8>, Vec<u8>)> = Vec::new();
        let mut i: usize = 0;
        while i < n
            invariant
                n == raw@.len(),
                i <= n,
                entries@.len() == i,
                forall|j: int|
                    0 <= j < i ==> (#[trigger] entries@[j]).0@ == lowered(raw@[j].0@)
                        && entries@[j].1@ == raw@[j].1@,
            decreases n - i,
        {
            let field = &raw[i];
            let name: Vec<u8> = to_lower(field.0.as_slice());
            let value: Vec<u8> = vstd::slice::slice_to_vec(field.1.as_slice());
            entries.push((name, value));
            i = i + 1;
        }
        let headers = Headers { entries };
        assert(headers.fields() =~= lowered_fields(plain_fields(raw@)));
        headers
    }

    /// The number of fields.
    pub fn len(&self) -> (n: usize)
        ensures
            n == self.fields().len(),
    {
        self.entries.len()
    }

    /// The name, in small letters, and the value of the field at `index`.
    pub fn field(&self, index: usize) -> (pair: (&[u8], &[u8]))
        requires
            index < self.fields().len(),
        ensures
            pair.0@ == self.fields()[index as int].0,
            pair.1@ == self.fields()[index as int].1,
    {
        let entry = &self.entries[index];
        (entry.0.as_slice(), entry.1.as_slice())
    }

    /// The value of the field named `key`, whatever the case of its letters.
    /// `key` is compared by its bytes as encoded.
    pub fn get(&self, key: &str) -> (value: Option<&Vec<u8>>)
        ensures
            match value {
                Some(v) => self.value_of(key.spec_bytes()) == Some(v@),
                None => self.value_of(key.spec_bytes()) is None,
            },
    {
        let name: Vec<u8> = to_lower(key.as_bytes());
        let mut i: usize = self.entries.len();
        assert(self.fields().take(i as int) =~= self.fields());
        while i > 0
            invariant
                i <= self.entries@.len(),
                name@ == lowered(key.spec_bytes()),
                last_value(self.fields(), name@) == last_value(self.fields().take(i as int), name@),
            decreases i,
        {
            let entry = &self.entries[i - 1];
            proof {
                let shown = self.fields().take(i as int);
                assert(shown.last() == (entry.0@, entry.1@));
                assert(shown.drop_last() =~= self.fields().take(i - 1));
            }
            if same_bytes(entry.0.as_slice(), name.as_slice()) {
                return Some(&entry.1);
            }
            i = i - 1;
        }
        assert(self.fields().take(0).len() == 0);
        None
    }
}

/// The head of a request: the request line and the header fields.
#[derive(Debug)]
pub struct Request {
    pub method: Option<String>,
    pub path: Option<String>,
    pub version: Option<u8>,
    pub headers: Headers,
}

/// What is sent back for a request.
pub struct Response {
    pub status: StatusCode,
    pub headers: Headers,
    pub body: bytes::Bytes,
}

impl Response {
    /// A response of the given status with no header fields and no body.
    pub fn empty(status: StatusCode) -> (response: Response)
        ensures
            response.status == status,
            response.headers.fields() == Seq::<(Seq<u8>, Seq<u8>)>::empty(),
            bytes_of(response.body) == Seq::<u8>::empty(),
    {
        let headers = Headers::parse(Vec::new().as_slice());
        assert(headers.fields() =~= Seq::<(Seq<u8>, Seq<u8>)>::empty());
        Response { status, headers, body: bytes::Bytes::new() }
    }

    /// A response of the given status with no header fields and `body` as
    /// its body.
    pub fn with_body(status: StatusCode, body: bytes::Bytes) -> (response: Response)
        ensures
            response.status == status,
            response.headers.fields() == Seq::<(Seq<u8>, Seq<u8>)>::empty(),
            response.body == body,
    {
        let headers = Headers::parse(Vec::new().as_slice());
        assert(headers.fields() =~= Seq::<(Seq<u8>, Seq<u8>)>::empty());
        Response { status, headers, body }
    }
}

} // verus!
