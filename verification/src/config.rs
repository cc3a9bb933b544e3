//! The settings of the service: which repositories it serves, and for each
//! where its source lies on the forge and where its build result goes.

use vstd::prelude::*;
use vstd::string::*;

verus! {

/// The settings of one repository. They are fixed when the service starts.
#[derive(Clone, Debug)]
pub struct Repo {
    /// Owner and name on the forge, as in `owner/name`.
    pub repo: String,
    /// The reference whose pushes are built, as in `refs/heads/main`.
    pub reference: String,
    /// Where the link to the build result is put.
    pub out: String,
    /// The token that reads a private repository, if one is needed.
    pub token: Option<String>,
    /// The secret that signs the repository's webhook deliveries, if any.
    pub secret: Option<String>,
}

/// All repositories served, each under the slug that its webhook path ends
/// in.
#[derive(Clone, Debug)]
pub struct Config {
    pub repos: Vec<(String, Repo)>,
}

/// The address that describes the branch `reference` of `repo`.
pub open spec fn branch_url_of(repo: Seq<char>, reference: Seq<char>) -> Seq<char> {
    "https://api.github.com/repos/"@ + repo + "/branches/"@ + reference
}

/// The address that redirects to the source archive of `repo` at `commit`.
pub open spec fn tarball_url_of(repo: Seq<char>, commit: Seq<char>) -> Seq<char> {
    "https://api.github.com/repos/"@ + repo + "/tarball/"@ + commit
}

/// The value of the authorization header that presents `token`.
pub open spec fn authorization_of(token: Seq<char>) -> Seq<char> {
    "token "@ + token
}

/// The arguments of the build tool that builds the source at `location` and
/// links the result at `out`.
pub open spec fn build_arguments_of(out: Seq<char>, location: Seq<char>) -> Seq<Seq<char>> {
    seq!["--out-link"@, out, location]
}

/// The name of the build tool.
pub fn build_program() -> (program: &'static str)
    ensures
        program@ == "nix-build"@,
{
    "nix-build"
}

/// The name by which the service presents itself to the forge.
pub fn user_agent() -> (agent: &'static str)
    ensures
        agent@ == "Deplorable"@,
{
    "Deplorable"
}

impl Repo {
    /// The address to ask for the commit that the watched reference is at.
    pub fn branch_url(&self) -> (url: String)
        ensures
            url@ == branch_url_of(self.repo@, self.reference@),
    {
        let mut url = String::from_str("https://api.github.com/repos/");
        url.append(self.repo.as_str());
        url.append("/branches/");
        url.append(self.reference.as_str());
        url
    }

    /// The address to ask for the location of the source archive at `commit`.
    pub fn tarball_url(&self, commit: &str) -> (url: String)
        ensures
            url@ == tarball_url_of(self.repo@, commit@),
    {
        let mut url = String::from_str("https://api.github.com/repos/");
        url.append(self.repo.as_str());
        url.append("/tarball/");
        url.append(commit);
        url
    }

    /// The authorization header value to send, if the repository has a token.
    pub fn authorization(&self) -> (value: Option<String>)
        ensures
            value is Some <==> self.token is Some,
            value matches Some(v) ==> v@ == authorization_of(self.token->0@),
    {
        match &self.token {
            None => None,
            Some(token) => {
                let mut value = String::from_str("token ");
                value.append(token.as_str());
                Some(value)
            },
        }
    }

    /// The arguments to run the build tool with for the source at `location`.
    pub fn build_arguments(&self, location: &str) -> (arguments: Vec<String>)
        ensures
            arguments@.len() == 3,
            forall|i: int|
                0 <= i < 3 ==> (#[trigger] arguments@[i])@ == build_arguments_of(
                    self.out@,
                    location@,
                )[i],
    {
        let mut arguments: Vec<String> = Vec::new();
        arguments.push(String::from_str("--out-link"));
        arguments.push(self.out.clone());
        arguments.push(String::from_str(location));
        arguments
    }
}

} // verus!
