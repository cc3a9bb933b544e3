//! A repository that is built straight from a reference, with the `nix`
//! command: the forge is asked for the source archive of the reference
//! itself, and webhook deliveries for it are not signed.

use vstd::prelude::*;
use vstd::string::*;
use crate::config::tarball_url_of;

verus! {

/// The settings of such a repository.
#[derive(Clone, Debug)]
pub struct Nixhub {
    /// Owner and name on the forge, as in `owner/name`.
    pub repo: String,
    /// The reference that is built.
    pub reference: String,
    /// Where the link to the build result is put.
    pub out: String,
    /// The token that reads a private repository, if one is needed.
    pub token: Option<String>,
}

/// The header line that presents `token`.
pub open spec fn authorization_line_of(token: Seq<char>) -> Seq<char> {
    "Authorization: token "@ + token
}

/// The arguments of the `nix` command that builds the source at `location`
/// and links the result at `out`.
pub open spec fn nix_arguments_of(out: Seq<char>, location: Seq<char>) -> Seq<Seq<char>> {
    seq!["build"@, "--out-link"@, out, "-f"@, location]
}

/// The name of the build tool.
pub fn build_program() -> (program: &'static str)
    ensures
        program@ == "nix"@,
{
    "nix"
}

/// The name by which the builder presents itself to the forge.
pub fn user_agent() -> (agent: &'static str)
    ensures
        agent@ == "Nix builder"@,
{
    "Nix builder"
}

impl Nixhub {
    /// The address that redirects to the source archive of the reference.
    pub fn tarball_url(&self) -> (url: String)
        ensures
            url@ == tarball_url_of(self.repo@, self.reference@),
    {
        let mut url = String::from_str("https://api.github.com/repos/");
        url.append(self.repo.as_str());
        url.append("/tarball/");
        url.append(self.reference.as_str());
        url
    }

    /// The authorization header line to send, if the repository has a token.
    pub fn authorization_header(&self) -> (line: Option<String>)
        ensures
            line is Some <==> self.token is Some,
            line matches Some(l) ==> l@ == authorization_line_of(self.token->0@),
    {
        match &self.token {
            None => None,
            Some(token) => {
                let mut line = String::from_str("Authorization: token ");
                line.append(token.as_str());
                Some(line)
            },
        }
    }

    /// The arguments to run the build tool with for the source at `location`.
    pub fn build_arguments(&self, location: &str) -> (arguments: Vec<String>)
        ensures
            arguments@.len() == 5,
            forall|i: int|
                0 <= i < 5 ==> (#[trigger] arguments@[i])@ == nix_arguments_of(
                    self.out@,
                    location@,
                )[i],
    {
        let mut arguments: Vec<String> = Vec::new();
        arguments.push(String::from_str("build"));
        arguments.push(String::from_str("--out-link"));
        arguments.push(self.out.clone());
        arguments.push(String::from_str("-f"));
        arguments.push(String::from_str(location));
        arguments
    }
}

} // verus!
