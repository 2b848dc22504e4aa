//! Repository specifications: parsing the accepted shorthand and URL
//! forms, and deriving clone URLs and cache keys.
//!
//! Full `http(s)`/`ssh` URLs are taken apart by the `url` crate behind
//! a trusted wrapper; everything after that split is verified against
//! the wrapper's named result.

use vstd::prelude::*;
use vstd::string::StrSliceExecFns;
use vstd::string::StringExecFns;
use crate::strutil::{
    concat_str, copy_str, ends_with, find_char, first_index_of, lemma_first_index_of,
    replace_chars, replace_sub, split_chars, split_on, starts_with, str_eq, strip_trailing,
    strip_leading, substr, trim, trim_chars, trim_end_char, trim_start_char,
};

verus! {

/// The remote layer's errors.
#[derive(Debug)]
pub enum RemoteError {
    GitNotFound,
    GitCommandFailed(String),
    GitExitError { status: i32, stderr: String },
    InvalidRepoSpec(String),
    CacheDirectoryError(String),
    UnsupportedScheme(String),
    UrlParseError(String),
}

pub enum RemoteErrKind {
    GitNotFound,
    GitCommandFailed,
    GitExitError,
    InvalidRepoSpec,
    CacheDirectoryError,
    UnsupportedScheme,
    UrlParseError,
}

impl View for RemoteError {
    type V = RemoteErrKind;

    open spec fn view(&self) -> RemoteErrKind {
        match self {
            RemoteError::GitNotFound => RemoteErrKind::GitNotFound,
            RemoteError::GitCommandFailed(_) => RemoteErrKind::GitCommandFailed,
            RemoteError::GitExitError { .. } => RemoteErrKind::GitExitError,
            RemoteError::InvalidRepoSpec(_) => RemoteErrKind::InvalidRepoSpec,
            RemoteError::CacheDirectoryError(_) => RemoteErrKind::CacheDirectoryError,
            RemoteError::UnsupportedScheme(_) => RemoteErrKind::UnsupportedScheme,
            RemoteError::UrlParseError(_) => RemoteErrKind::UrlParseError,
        }
    }
}

impl RemoteError {
    /// A human-readable line for this error.
    pub fn message(&self) -> (r: String)
        ensures
            match self {
                RemoteError::GitNotFound => r@ == "git is not installed or not found in PATH"@,
                RemoteError::GitCommandFailed(s) => r@ == "failed to execute git command: "@
                    + s@,
                RemoteError::GitExitError { status, stderr } => r@
                    == "git command exited with status "@ + (if *status >= 0 {
                    crate::strutil::dec_chars(*status as int)
                } else {
                    "-"@ + crate::strutil::dec_chars(-(*status as int))
                }) + ": "@ + stderr@,
                RemoteError::InvalidRepoSpec(s) => r@ == "invalid repository specification: "@
                    + s@,
                RemoteError::CacheDirectoryError(s) => r@
                    == "failed to create cache directory: "@ + s@,
                RemoteError::UnsupportedScheme(s) => r@ == "unsupported URL scheme: "@ + s@,
                RemoteError::UrlParseError(s) => r@ == "failed to parse URL: "@ + s@,
            },
    {
        match self {
            RemoteError::GitNotFound => String::from_str(
                "git is not installed or not found in PATH",
            ),
            RemoteError::GitCommandFailed(s) => concat_str(
                String::from_str("failed to execute git command: "),
                s.as_str(),
            ),
            RemoteError::GitExitError { status, stderr } => concat_str(
                concat_str(
                    concat_str(
                        String::from_str("git command exited with status "),
                        crate::strutil::i32_to_string(*status).as_str(),
                    ),
                    ": ",
                ),
                stderr.as_str(),
            ),
            RemoteError::InvalidRepoSpec(s) => concat_str(
                String::from_str("invalid repository specification: "),
                s.as_str(),
            ),
            RemoteError::CacheDirectoryError(s) => concat_str(
                String::from_str("failed to create cache directory: "),
                s.as_str(),
            ),
            RemoteError::UnsupportedScheme(s) => concat_str(
                String::from_str("unsupported URL scheme: "),
                s.as_str(),
            ),
            RemoteError::UrlParseError(s) => concat_str(
                String::from_str("failed to parse URL: "),
                s.as_str(),
            ),
        }
    }
}

/// Where a repository is hosted.
#[derive(Debug, Clone, Copy, PartialEq, Eq, Structural)]
pub enum Provider {
    GitHub,
    GitLab,
    GenericGit,
}

/// A parsed repository specification.
#[derive(Debug, Clone)]
pub struct RepoSpec {
    pub provider: Provider,
    pub owner: String,
    pub repo: String,
    pub branch: Option<String>,
}

pub struct RepoSpecV {
    pub provider: Provider,
    pub owner: Seq<char>,
    pub repo: Seq<char>,
    pub branch: Option<Seq<char>>,
}

impl View for RepoSpec {
    type V = RepoSpecV;

    open spec fn view(&self) -> RepoSpecV {
        RepoSpecV {
            provider: self.provider,
            owner: self.owner@,
            repo: self.repo@,
            branch: match &self.branch {
                Some(b) => Some(b@),
                None => None,
            },
        }
    }
}

// ---- the url crate's view of a URL --------------------------------------

/// The three parts of a parsed absolute URL: scheme, host, path.
pub struct UrlParts {
    pub scheme: String,
    pub host: Option<String>,
    pub path: String,
}

/// What `url::Url::parse` makes of a string: `None` when it refuses
/// the input, else the URL's scheme, host and path.  The result
/// depends on the input alone.
pub uninterp spec fn url_parts_of(s: Seq<char>) -> Option<
    (Seq<char>, Option<Seq<char>>, Seq<char>),
>;

pub open spec fn url_parts_view(r: Option<UrlParts>) -> Option<
    (Seq<char>, Option<Seq<char>>, Seq<char>),
> {
    match r {
        Some(p) => Some(
            (
                p.scheme@,
                match p.host {
                    Some(h) => Some(h@),
                    None => None,
                },
                p.path@,
            ),
        ),
        None => None,
    }
}

/// Relies on `url::Url::parse`, `Url::scheme`, `Url::host_str` and
/// `Url::path`: parsing an absolute URL and reading those three parts
/// is a function of the input string alone, and parse failure is
/// reported as an error value.
#[verifier::external_body]
fn parse_url_parts(s: &str) -> (r: Option<UrlParts>)
    ensures
        url_parts_view(r) == url_parts_of(s@),
{
    match url::Url::parse(s) {
        Ok(u) => Some(
            UrlParts {
                scheme: u.scheme().to_string(),
                host: u.host_str().map(|h| h.to_string()),
                path: u.path().to_string(),
            },
        ),
        Err(_) => None,
    }
}

// ---- helpers ------------------------------------------------------------

/// `p` without a final `.git`.
pub open spec fn strip_git_suffix(p: Seq<char>) -> Seq<char> {
    if ".git"@.is_suffix_of(p) {
        p.take(p.len() - ".git"@.len())
    } else {
        p
    }
}

fn strip_dot_git(s: &str) -> (r: String)
    ensures
        r@ == strip_git_suffix(s@),
{
    if ends_with(s, ".git") {
        proof {
            reveal_strlit(".git");
        }
        let n = s.unicode_len();
        let r = substr(s, 0, n - 4);
        proof {
            assert(s@.subrange(0, n - 4) =~= s@.take(s@.len() - ".git"@.len()));
        }
        r
    } else {
        copy_str(s)
    }
}

/// The provider a host name denotes.
pub open spec fn provider_of_host(h: Seq<char>) -> Provider {
    if h == "github.com"@ {
        Provider::GitHub
    } else if h == "gitlab.com"@ {
        Provider::GitLab
    } else {
        Provider::GenericGit
    }
}

fn host_provider(h: &str) -> (p: Provider)
    ensures
        p == provider_of_host(h@),
{
    if str_eq(h, "github.com") {
        Provider::GitHub
    } else if str_eq(h, "gitlab.com") {
        Provider::GitLab
    } else {
        Provider::GenericGit
    }
}

// ---- clone URLs and cache keys ------------------------------------------

impl RepoSpec {
    /// The URL this specification is cloned from.
    pub fn to_clone_url(&self) -> (r: String)
        ensures
            match self.provider {
                Provider::GitHub => r@ == "https://github.com/"@ + self.owner@ + "/"@
                    + self.repo@ + ".git"@,
                Provider::GitLab => r@ == "https://gitlab.com/"@ + self.owner@ + "/"@
                    + self.repo@ + ".git"@,
                Provider::GenericGit => r@ == self.owner@ + "/"@ + self.repo@,
            },
    {
        match self.provider {
            Provider::GitHub => concat_str(
                concat_str(
                    concat_str(
                        concat_str(String::from_str("https://github.com/"), self.owner.as_str()),
                        "/",
                    ),
                    self.repo.as_str(),
                ),
                ".git",
            ),
            Provider::GitLab => concat_str(
                concat_str(
                    concat_str(
                        concat_str(String::from_str("https://gitlab.com/"), self.owner.as_str()),
                        "/",
                    ),
                    self.repo.as_str(),
                ),
                ".git",
            ),
            Provider::GenericGit => concat_str(
                concat_str(copy_str(self.owner.as_str()), "/"),
                self.repo.as_str(),
            ),
        }
    }

    /// The relative directory this repository is cached under.
    pub fn cache_key(&self) -> (r: String)
        ensures
            match self.provider {
                Provider::GitHub => r@ == "github.com/"@ + self.owner@ + "/"@ + self.repo@,
                Provider::GitLab => r@ == "gitlab.com/"@ + self.owner@ + "/"@ + self.repo@,
                Provider::GenericGit => r@ == replace_chars(
                    replace_chars(
                        "git/"@ + self.owner@ + "/"@ + self.repo@,
                        "://"@,
                        "/"@,
                    ),
                    ":"@,
                    "/"@,
                ),
            },
    {
        match self.provider {
            Provider::GitHub => concat_str(
                concat_str(
                    concat_str(String::from_str("github.com/"), self.owner.as_str()),
                    "/",
                ),
                self.repo.as_str(),
            ),
            Provider::GitLab => concat_str(
                concat_str(
                    concat_str(String::from_str("gitlab.com/"), self.owner.as_str()),
                    "/",
                ),
                self.repo.as_str(),
            ),
            Provider::GenericGit => {
                let raw = concat_str(
                    concat_str(
                        concat_str(String::from_str("git/"), self.owner.as_str()),
                        "/",
                    ),
                    self.repo.as_str(),
                );
                let once = replace_sub(raw.as_str(), "://", "/");
                replace_sub(once.as_str(), ":", "/")
            }
        }
    }
}

// ---- parsing ------------------------------------------------------------

/// How an `owner/repo[@branch]` shorthand is read.
pub open spec fn shorthand_spec(s: Seq<char>, provider: Provider) -> Result<
    RepoSpecV,
    RemoteErrKind,
> {
    let parts = split_chars(s, '/');
    if parts.len() < 2 {
        Err(RemoteErrKind::InvalidRepoSpec)
    } else {
        let owner = trim_chars(parts[0]);
        let repo_part = trim_chars(parts[1]);
        if owner.len() == 0 || repo_part.len() == 0 {
            Err(RemoteErrKind::InvalidRepoSpec)
        } else {
            let repo_raw = if repo_part.contains('@') {
                repo_part.take(first_index_of(repo_part, '@'))
            } else {
                repo_part
            };
            let branch = if repo_part.contains('@') {
                Some(repo_part.skip(first_index_of(repo_part, '@') + 1))
            } else {
                None
            };
            Ok(
                RepoSpecV {
                    provider,
                    owner,
                    repo: strip_git_suffix(repo_raw),
                    branch,
                },
            )
        }
    }
}

/// How a `git@host:owner/repo` URL is read.
pub open spec fn ssh_url_spec(s: Seq<char>) -> Result<RepoSpecV, RemoteErrKind> {
    if !"git@"@.is_prefix_of(s) {
        Err(RemoteErrKind::InvalidRepoSpec)
    } else {
        let rest = s.skip("git@"@.len() as int);
        let parts = split_chars(rest, ':');
        if parts.len() != 2 {
            Err(RemoteErrKind::InvalidRepoSpec)
        } else {
            let host = parts[0];
            let path = strip_git_suffix(trim_end_char(parts[1], '/'));
            let pp = split_chars(path, '/');
            if pp.len() < 2 {
                Err(RemoteErrKind::InvalidRepoSpec)
            } else {
                Ok(
                    RepoSpecV {
                        provider: provider_of_host(host),
                        owner: pp[0],
                        repo: pp[1],
                        branch: None,
                    },
                )
            }
        }
    }
}

/// How a full URL is read: `git@` URLs by the ssh form, anything else
/// through the `url` crate's parts.
pub open spec fn full_url_spec(s: Seq<char>) -> Result<RepoSpecV, RemoteErrKind> {
    if "git@"@.is_prefix_of(s) {
        ssh_url_spec(s)
    } else {
        match url_parts_of(s) {
            None => Err(RemoteErrKind::UrlParseError),
            Some((scheme, host, path)) => {
                if scheme != "http"@ && scheme != "https"@ && scheme != "ssh"@ {
                    Err(RemoteErrKind::UnsupportedScheme)
                } else {
                    match host {
                        None => Err(RemoteErrKind::InvalidRepoSpec),
                        Some(h) => {
                            let p = strip_git_suffix(
                                trim_end_char(trim_start_char(path, '/'), '/'),
                            );
                            let pp = split_chars(p, '/');
                            if pp.len() < 2 {
                                Err(RemoteErrKind::InvalidRepoSpec)
                            } else {
                                Ok(
                                    RepoSpecV {
                                        provider: provider_of_host(h),
                                        owner: pp[0],
                                        repo: pp[1],
                                        branch: None,
                                    },
                                )
                            }
                        }
                    }
                }
            }
        }
    }
}

/// How a whole repository specification is read: trimmed, with
/// `github:`/`gitlab:` shorthand prefixes, full URLs, and the bare
/// `owner/repo` form defaulting to GitHub.
pub open spec fn repo_spec_of(raw: Seq<char>) -> Result<RepoSpecV, RemoteErrKind> {
    let s = trim_chars(raw);
    if s.len() == 0 {
        Err(RemoteErrKind::InvalidRepoSpec)
    } else if "github:"@.is_prefix_of(s) {
        shorthand_spec(s.skip("github:"@.len() as int), Provider::GitHub)
    } else if "gitlab:"@.is_prefix_of(s) {
        shorthand_spec(s.skip("gitlab:"@.len() as int), Provider::GitLab)
    } else if "http://"@.is_prefix_of(s) || "https://"@.is_prefix_of(s) || "git@"@.is_prefix_of(
        s,
    ) || "ssh://"@.is_prefix_of(s) {
        full_url_spec(s)
    } else {
        shorthand_spec(s, Provider::GitHub)
    }
}

/// The view of a parse result.
pub open spec fn repo_result_view(r: Result<RepoSpec, RemoteError>) -> Result<
    RepoSpecV,
    RemoteErrKind,
> {
    match r {
        Ok(spec) => Ok(spec@),
        Err(e) => Err(e@),
    }
}

/// Read an `owner/repo[@branch]` shorthand, with surrounding
/// whitespace tolerated and a `.git` suffix dropped.  A missing piece
/// is an `InvalidRepoSpec` error, if and only if.
pub fn parse_shorthand(s: &str, provider: Provider) -> (r: Result<RepoSpec, RemoteError>)
    ensures
        repo_result_view(r) == shorthand_spec(s@, provider),
{
    let parts = split_on(s, '/');
    let ghost sparts = parts@.map_values(|p: String| p@);
    proof {
        crate::strutil::lemma_split_chars_len(s@, '/');
    }
    if parts.len() < 2 {
        return Err(
            RemoteError::InvalidRepoSpec(
                concat_str(
                    String::from_str("shorthand must be in format 'owner/repo', got: "),
                    s,
                ),
            ),
        );
    }
    let owner = trim(parts[0].as_str());
    let repo_part = trim(parts[1].as_str());
    if owner.as_str().unicode_len() == 0 || repo_part.as_str().unicode_len() == 0 {
        return Err(
            RemoteError::InvalidRepoSpec(
                String::from_str("owner and repo cannot be empty"),
            ),
        );
    }
    let rp_len = repo_part.as_str().unicode_len();
    let (repo_raw, branch) = match find_char(repo_part.as_str(), '@', 0) {
        Some(at) => {
            proof {
                lemma_first_index_of(repo_part@, '@', at as int);
                assert(repo_part@.contains('@'));
                assert(repo_part@.subrange(0, at as int) =~= repo_part@.take(at as int));
                assert(repo_part@.subrange(at + 1, rp_len as int) =~= repo_part@.skip(at + 1));
            }
            (
                substr(repo_part.as_str(), 0, at),
                Some(substr(repo_part.as_str(), at + 1, rp_len)),
            )
        }
        None => {
            proof {
                if repo_part@.contains('@') {
                    let w = choose|w: int|
                        0 <= w < repo_part@.len() && repo_part@[w] == '@';
                }
            }
            (copy_str(repo_part.as_str()), None)
        }
    };
    let repo = strip_dot_git(repo_raw.as_str());
    Ok(RepoSpec { provider, owner, repo, branch })
}

/// Read a `git@host:owner/repo` SSH URL.  A malformed one is an
/// `InvalidRepoSpec` error, if and only if.
pub fn parse_ssh_url(s: &str) -> (r: Result<RepoSpec, RemoteError>)
    ensures
        repo_result_view(r) == ssh_url_spec(s@),
{
    if !starts_with(s, "git@") {
        return Err(
            RemoteError::InvalidRepoSpec(
                concat_str(String::from_str("invalid SSH URL: "), s),
            ),
        );
    }
    proof {
        reveal_strlit("git@");
    }
    let n = s.unicode_len();
    let rest = substr(s, 4, n);
    proof {
        assert(rest@ =~= s@.skip("git@"@.len() as int));
    }
    let parts = split_on(rest.as_str(), ':');
    proof {
        crate::strutil::lemma_split_chars_len(rest@, ':');
    }
    if parts.len() != 2 {
        return Err(
            RemoteError::InvalidRepoSpec(
                concat_str(String::from_str("invalid SSH URL format: "), s),
            ),
        );
    }
    let host = &parts[0];
    let path = strip_dot_git(strip_trailing(parts[1].as_str(), '/').as_str());
    let pp = split_on(path.as_str(), '/');
    proof {
        crate::strutil::lemma_split_chars_len(path@, '/');
    }
    if pp.len() < 2 {
        return Err(
            RemoteError::InvalidRepoSpec(
                concat_str(String::from_str("SSH URL path must contain owner/repo: "), s),
            ),
        );
    }
    let provider = host_provider(host.as_str());
    Ok(
        RepoSpec {
            provider,
            owner: copy_str(pp[0].as_str()),
            repo: copy_str(pp[1].as_str()),
            branch: None,
        },
    )
}

/// Read a full URL: `git@` SSH URLs directly, anything else through
/// the `url` crate.  Unsupported schemes and hostless or short paths
/// are errors, if and only if.
pub fn parse_full_url(s: &str) -> (r: Result<RepoSpec, RemoteError>)
    ensures
        repo_result_view(r) == full_url_spec(s@),
{
    if starts_with(s, "git@") {
        return parse_ssh_url(s);
    }
    match parse_url_parts(s) {
        None => Err(
            RemoteError::UrlParseError(
                concat_str(String::from_str("failed to parse URL: "), s),
            ),
        ),
        Some(parts) => {
            let scheme_ok = str_eq(parts.scheme.as_str(), "http") || str_eq(
                parts.scheme.as_str(),
                "https",
            ) || str_eq(parts.scheme.as_str(), "ssh");
            if !scheme_ok {
                return Err(RemoteError::UnsupportedScheme(parts.scheme));
            }
            match parts.host {
                None => Err(
                    RemoteError::InvalidRepoSpec(String::from_str("URL has no host")),
                ),
                Some(h) => {
                    let p = strip_dot_git(
                        strip_trailing(
                            strip_leading(parts.path.as_str(), '/').as_str(),
                            '/',
                        ).as_str(),
                    );
                    let pp = split_on(p.as_str(), '/');
                    proof {
                        crate::strutil::lemma_split_chars_len(p@, '/');
                    }
                    if pp.len() < 2 {
                        return Err(
                            RemoteError::InvalidRepoSpec(
                                concat_str(
                                    String::from_str("URL path must contain owner/repo: "),
                                    s,
                                ),
                            ),
                        );
                    }
                    let provider = host_provider(h.as_str());
                    Ok(
                        RepoSpec {
                            provider,
                            owner: copy_str(pp[0].as_str()),
                            repo: copy_str(pp[1].as_str()),
                            branch: None,
                        },
                    )
                }
            }
        }
    }
}

/// Read a whole repository specification: trimmed first, then the
/// `github:`/`gitlab:` shorthands, full URLs, or the bare
/// `owner/repo` form on GitHub.  The empty specification is an
/// `InvalidRepoSpec` error, if and only if.
pub fn parse_repo_spec(raw: &str) -> (r: Result<RepoSpec, RemoteError>)
    ensures
        repo_result_view(r) == repo_spec_of(raw@),
{
    let t = trim(raw);
    let s = t.as_str();
    let n = s.unicode_len();
    if n == 0 {
        return Err(
            RemoteError::InvalidRepoSpec(String::from_str("empty repository specification")),
        );
    }
    if starts_with(s, "github:") {
        proof {
            reveal_strlit("github:");
        }
        let rest = substr(s, 7, n);
        proof {
            assert(rest@ =~= s@.skip("github:"@.len() as int));
        }
        parse_shorthand(rest.as_str(), Provider::GitHub)
    } else if starts_with(s, "gitlab:") {
        proof {
            reveal_strlit("gitlab:");
        }
        let rest = substr(s, 7, n);
        proof {
            assert(rest@ =~= s@.skip("gitlab:"@.len() as int));
        }
        parse_shorthand(rest.as_str(), Provider::GitLab)
    } else if starts_with(s, "http://") || starts_with(s, "https://") || starts_with(s, "git@")
        || starts_with(s, "ssh://") {
        parse_full_url(s)
    } else {
        parse_shorthand(s, Provider::GitHub)
    }
}

} // verus!
