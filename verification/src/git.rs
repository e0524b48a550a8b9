//! Source origins: a repository URL parsed into owner, name and branch,
//! and the derived folder and API paths. Fetching itself is left to the
//! surrounding program; revision post-processing is verified here.

use vstd::prelude::*;
use crate::error::{Error, Result};
use crate::text::{split_by, split_char, trimmed, without_pattern};

verus! {

/// A source origin: the repository URL, the owner and repository name
/// parsed out of it, and an optional branch.
#[derive(Debug)]
pub struct Origin {
    repository: String,
    owner: String,
    name: String,
    branch: Option<String>,
}

/// The URL with every `.git` removed, split at `/`.
pub open spec fn repo_parts(repo: Seq<char>) -> Seq<Seq<char>> {
    split_by(without_pattern(repo, ".git"@), '/')
}

/// Whether a repository URL parses: it must split into at least three
/// `/`-separated parts, and still hold owner and name once `.git` is
/// removed.
pub open spec fn repo_wellformed(repo: Seq<char>) -> bool {
    split_by(repo, '/').len() >= 3 && repo_parts(repo).len() >= 2
}

/// The spec-level view of an origin.
#[verifier::ext_equal]
pub struct OriginView {
    pub repository: Seq<char>,
    pub owner: Seq<char>,
    pub name: Seq<char>,
    pub branch: Option<Seq<char>>,
}

impl View for Origin {
    type V = OriginView;

    closed spec fn view(&self) -> OriginView {
        OriginView {
            repository: self.repository@,
            owner: self.owner@,
            name: self.name@,
            branch: match self.branch {
                Some(b) => Some(b@),
                None => None,
            },
        }
    }
}

/// The origin that parsing a well-formed URL yields: the repository as
/// given, the name from the last part, the owner from the part before it.
pub open spec fn parsed_origin(repo: Seq<char>, branch: Option<Seq<char>>) -> OriginView {
    let parts = repo_parts(repo);
    OriginView {
        repository: repo,
        owner: parts[parts.len() - 2],
        name: parts[parts.len() - 1],
        branch: branch,
    }
}

impl Clone for Origin {
    /// An exact copy of the origin.
    fn clone(&self) -> (r: Origin)
        ensures
            r@ == self@,
    {
        Origin {
            repository: self.repository.clone(),
            owner: self.owner.clone(),
            name: self.name.clone(),
            branch: match &self.branch {
                Some(b) => Some(b.clone()),
                None => None,
            },
        }
    }
}

impl Origin {
    /// Parses a repository URL. Succeeds exactly on well-formed URLs: at
    /// least three `/`-separated parts, with owner and name still present
    /// after `.git` removal.
    pub fn try_new(repo: &str, branch: Option<&str>) -> (r: Result<Origin>)
        ensures
            r is Ok <==> repo_wellformed(repo@),
            r is Ok ==> r->Ok_0@ == parsed_origin(
                repo@,
                match branch {
                    Some(b) => Some(b@),
                    None => None,
                },
            ),
            r is Err ==> (r->Err_0 matches Error::Repository(s) && s@ == repo@),
    {
        let raw_parts = split_char(repo, '/');
        proof {
            assert(raw_parts@.map_values(|p: String| p@).len() == split_by(repo@, '/').len());
        }
        if raw_parts.len() < 3 {
            return Err(Error::Repository(repo.to_owned()));
        }
        proof {
            reveal_strlit(".git");
        }
        let stripped = crate::text::remove_all(repo, ".git");
        let parts = split_char(stripped.as_str(), '/');
        proof {
            assert(parts@.map_values(|p: String| p@).len() == repo_parts(repo@).len());
        }
        if parts.len() < 2 {
            return Err(Error::Repository(repo.to_owned()));
        }
        let name = parts[parts.len() - 1].clone();
        let owner = parts[parts.len() - 2].clone();
        proof {
            assert(name@ == parts@.map_values(|p: String| p@)[parts@.len() - 1]);
            assert(owner@ == parts@.map_values(|p: String| p@)[parts@.len() - 2]);
        }
        let branch_owned: Option<String> = match branch {
            Some(b) => Some(b.to_owned()),
            None => None,
        };
        Ok(Origin { repository: repo.to_owned(), owner, name, branch: branch_owned })
    }

    /// The checkout folder for the origin: `owner/branch`, with `master`
    /// standing in when no branch is set.
    pub fn folder(&self) -> (r: String)
        ensures
            r@ == self@.owner + "/"@ + (match self@.branch {
                Some(b) => b,
                None => "master"@,
            }),
    {
        let mut out = self.owner.clone();
        out.append("/");
        match &self.branch {
            Some(b) => out.append(b.as_str()),
            None => out.append("master"),
        }
        out
    }

    /// The repository URL as given.
    pub fn repository(&self) -> (r: &String)
        ensures
            r@ == self@.repository,
    {
        &self.repository
    }

    /// The branch, when one is set.
    pub fn branch(&self) -> (r: Option<&String>)
        ensures
            (match r {
                Some(b) => self@.branch == Some(b@),
                None => self@.branch is None,
            }),
    {
        match &self.branch {
            Some(b) => Some(b),
            None => None,
        }
    }

    /// The repository name parsed from the URL.
    pub fn name(&self) -> (r: &String)
        ensures
            r@ == self@.name,
    {
        &self.name
    }

    /// Whether two origins hold the same repository, owner, name and
    /// branch.
    pub fn same(&self, other: &Origin) -> (r: bool)
        ensures
            r == (self@ == other@),
    {
        let repo_eq = crate::text::str_eq(self.repository.as_str(), other.repository.as_str());
        let owner_eq = crate::text::str_eq(self.owner.as_str(), other.owner.as_str());
        let name_eq = crate::text::str_eq(self.name.as_str(), other.name.as_str());
        let branch_eq = match (&self.branch, &other.branch) {
            (Some(a), Some(b)) => crate::text::str_eq(a.as_str(), b.as_str()),
            (None, None) => true,
            _ => false,
        };
        if repo_eq && owner_eq && name_eq && branch_eq {
            proof {
                assert(self@ == other@);
            }
            true
        } else {
            proof {
                assert(self@ != other@);
            }
            false
        }
    }

    /// The owner parsed from the URL.
    pub fn owner(&self) -> (r: &String)
        ensures
            r@ == self@.owner,
    {
        &self.owner
    }

    /// Replaces the branch.
    pub fn set_branch(&mut self, branch: Option<String>)
        ensures
            final(self)@.repository == old(self)@.repository,
            final(self)@.owner == old(self)@.owner,
            final(self)@.name == old(self)@.name,
            final(self)@.branch == (match branch {
                Some(b) => Some(b@),
                None => None::<Seq<char>>,
            }),
    {
        self.branch = branch;
    }

    /// The hosted-API URL that reports the latest commit of the branch:
    /// `https://api.github.com/repos/{owner}/{name}/branches/{branch}`,
    /// with `master` standing in when no branch is set.
    pub fn api_url(&self) -> (r: String)
        ensures
            r@ == "https://api.github.com/repos/"@ + self@.owner + "/"@ + self@.name
                + "/branches/"@ + (match self@.branch {
                Some(b) => b,
                None => "master"@,
            }),
    {
        let mut out = String::from_str("https://api.github.com/repos/");
        out.append(self.owner.as_str());
        out.append("/");
        out.append(self.name.as_str());
        out.append("/branches/");
        match &self.branch {
            Some(b) => out.append(b.as_str()),
            None => out.append("master"),
        }
        out
    }
}

/// Abbreviates a revision hash to its first seven characters; a hash
/// shorter than seven characters is refused.
pub fn short_hash(hash: &str) -> (r: Result<String>)
    ensures
        r is Ok <==> trimmed(hash@).len() >= 7,
        r is Ok ==> r->Ok_0@ == trimmed(hash@).take(7),
        r is Err ==> (r->Err_0 matches Error::Hash(s) && s@ == trimmed(hash@)),
{
    let cleaned = crate::text::trim_str(hash);
    let len = cleaned.as_str().unicode_len();
    if len < 7 {
        Err(Error::Hash(cleaned))
    } else {
        let head = cleaned.as_str().substring_char(0, 7);
        proof {
            assert(cleaned@.subrange(0, 7) =~= trimmed(hash@).take(7));
        }
        Ok(head.to_owned())
    }
}

/// Joins a binary's reported version with a revision hash as
/// `version-hash`, taking the last whitespace-separated token of the
/// report's last line as the version.
pub open spec fn version_tag(output: Seq<char>, hash: Seq<char>) -> Seq<char> {
    let tokens = split_by(trimmed(output), ' ');
    tokens[tokens.len() - 1] + "-"@ + hash
}

/// Builds the `version-hash` tag out of a binary's version report.
pub fn version_string(output: &str, hash: &str) -> (r: String)
    ensures
        r@ == version_tag(output@, hash@),
{
    let cleaned = crate::text::trim_str(output);
    let tokens = split_char(cleaned.as_str(), ' ');
    proof {
        crate::text::lemma_split_by_len(cleaned@, ' ');
        assert(tokens@.map_values(|p: String| p@).len() == split_by(trimmed(output@), ' ').len());
    }
    let mut out = tokens[tokens.len() - 1].clone();
    proof {
        assert(out@ == tokens@.map_values(|p: String| p@)[tokens@.len() - 1]);
    }
    out.append("-");
    out.append(hash);
    out
}

} // verus!
