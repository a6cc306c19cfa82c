//! Git host repository URLs and the links derived from them.
use vstd::prelude::*;
use crate::text::{
    chars_of, contains_chars, contains_seq, opt_chars, decimal, decimal_string, ends_with, has_prefix, has_suffix, push_chars,
    push_str, starts_with, str_contains, str_equal,
};

verus! {

/// The fields of a parsed git URL that repository links are built from.
#[derive(Debug, Clone)]
pub struct GitUrlParts {
    pub host: Option<String>,
    pub name: String,
    pub owner: Option<String>,
    pub port: Option<u16>,
    /// The scheme as `git_url_parse` prints it, e.g. `https` or `ssh`.
    pub scheme: String,
    pub path: String,
}

/// Plain view of [`GitUrlParts`]: host, name, owner, port, scheme, path.
pub type GitUrlPartsView = (Option<Seq<char>>, Seq<char>, Option<Seq<char>>, Option<u16>, Seq<char>, Seq<char>);

impl View for GitUrlParts {
    type V = GitUrlPartsView;

    open spec fn view(&self) -> GitUrlPartsView {
        (opt_chars(self.host), self.name@, opt_chars(self.owner), self.port, self.scheme@, self.path@)
    }
}

/// Plain view of the outcome of parsing a git URL.
pub open spec fn parse_outcome_view(r: Result<GitUrlParts, String>) -> Result<GitUrlPartsView, Seq<char>> {
    match r {
        Ok(p) => Ok(p@),
        Err(e) => Err(e@),
    }
}

/// What `git_url_parse::GitUrl::parse` gives for a URL: its parts, or the message of its error.
pub uninterp spec fn git_url_parse_outcome(url: Seq<char>) -> Result<GitUrlPartsView, Seq<char>>;

/// Plain view of a URL as `git_url_parse::normalize_url` leaves it: its scheme, its host (if
/// any) and its path.
pub type NormalizedUrlView = (Seq<char>, Option<Seq<char>>, Seq<char>);

/// Plain view of the outcome of normalizing a URL.
pub open spec fn normalized_view(r: Result<(String, Option<String>, String), String>) -> Result<NormalizedUrlView, Seq<char>> {
    match r {
        Ok((scheme, host, path)) => Ok((scheme@, opt_chars(host), path@)),
        Err(e) => Err(e@),
    }
}

/// What `git_url_parse::normalize_url` gives for a text: the scheme, host and path of the URL
/// it makes of it, or the message of its error.
pub uninterp spec fn git_url_normalize_outcome(url: Seq<char>) -> Result<NormalizedUrlView, Seq<char>>;

/// Calls `git_url_parse::normalize_url`, the first step of `GitUrl::parse`, and takes the
/// scheme, host and path of the URL apart. Nothing is claimed of them beyond their being a
/// function of the text.
#[verifier::external_body]
fn normalize_git_url(url: &str) -> (r: Result<(String, Option<String>, String), String>)
    ensures
        normalized_view(r) == git_url_normalize_outcome(url@),
{
    match git_url_parse::normalize_url(url) {
        Ok(u) => Ok((u.scheme().to_string(), u.host_str().map(|h| h.to_string()), u.path().to_string())),
        Err(e) => Err(e.to_string()),
    }
}

/// The number of `c` in `s`.
pub open spec fn count_char(s: Seq<char>, c: char) -> nat
    decreases s.len(),
{
    if s.len() == 0 {
        0
    } else {
        count_char(s.drop_last(), c) + if s.last() == c { 1nat } else { 0nat }
    }
}

/// How many parts `str::rsplit_terminator('/')` gives for `s`: none for an empty text, else one
/// more than its slashes, less one when it ends with a slash.
pub open spec fn slash_parts(s: Seq<char>) -> int {
    if s.len() == 0 {
        0
    } else {
        count_char(s, '/') + 1 - if s.last() == '/' { 1int } else { 0int }
    }
}

/// The path `GitUrl::parse` reads names from: an `ssh` path without its first character.
pub open spec fn parsed_url_path(scheme: Seq<char>, path: Seq<char>) -> Seq<char> {
    if scheme == "ssh"@ { path.drop_first() } else { path }
}

/// The normalized URLs on which `GitUrl::parse` panics after normalizing: an `ssh` path that
/// starts with a non-ASCII character (it is cut after its first byte) or has nothing after its
/// first character (there is no part to read the name from), and, on the Azure DevOps hosts
/// `dev.azure.com` and `ssh.dev.azure.com`, an `ssh` path with fewer than 3 parts or an
/// `https` path with fewer than 4 (the parser reads those parts without checking). An empty
/// path is an error, not a panic.
pub open spec fn git_url_parse_panics(n: NormalizedUrlView) -> bool {
    let scheme = n.0;
    let host = n.1;
    let path = n.2;
    let urlpath = parsed_url_path(scheme, path);
    &&& path.len() > 0
    &&& {
        ||| scheme == "ssh"@ && (path[0] as u32) >= 0x80
        ||| scheme == "ssh"@ && urlpath.len() == 0
        ||| host matches Some(h) && (h == "dev.azure.com"@ || h == "ssh.dev.azure.com"@) && (
            (scheme == "ssh"@ && slash_parts(urlpath) < 3) || (scheme == "https"@ && slash_parts(urlpath) < 4))
    }
}

/// The URLs refused before parsing: those whose normalized form makes `GitUrl::parse` panic.
pub open spec fn git_url_refused(url: Seq<char>) -> bool {
    match git_url_normalize_outcome(url) {
        Ok(n) => git_url_parse_panics(n),
        Err(_) => false,
    }
}

/// The reason given for a URL refused before parsing.
pub open spec fn unsupported_url_reason() -> Seq<char> {
    "the URL's path is too short for its git host"@
}

/// How many parts `str::rsplit_terminator('/')` gives for `s`.
fn slash_parts_exec(s: &[char]) -> (r: u64)
    ensures
        r == slash_parts(s@),
{
    if s.len() == 0 {
        return 0;
    }
    let last = s.len() - 1;
    let mut n: u64 = 0;
    let mut k: usize = 0;
    while k < last
        invariant
            last == s@.len() - 1,
            k <= last,
            n == count_char(s@.take(k as int), '/'),
            n <= k,
        decreases last - k,
    {
        assert(s@.take(k + 1).drop_last() =~= s@.take(k as int));
        if s[k] == '/' {
            n = n + 1;
        }
        k += 1;
    }
    assert(s@.drop_last() =~= s@.take(k as int));
    n + 1
}

/// Whether `GitUrl::parse` panics on the normalized URL with these parts (see
/// [`git_url_parse_panics`]).
fn parse_panics(scheme: &str, host: &Option<String>, path: &str) -> (r: bool)
    ensures
        r == git_url_parse_panics((scheme@, opt_chars(*host), path@)),
{
    let p = chars_of(path);
    if p.len() == 0 {
        return false;
    }
    let is_ssh = str_equal(scheme, "ssh");
    if is_ssh && (p[0] as u32) >= 0x80 {
        return true;
    }
    let urlpath: Vec<char> = if is_ssh {
        let mut u: Vec<char> = Vec::new();
        let mut k: usize = 1;
        while k < p.len()
            invariant
                1 <= k <= p@.len(),
                u@ == p@.subrange(1, k as int),
            decreases p.len() - k,
        {
            u.push(p[k]);
            k += 1;
        }
        assert(u@ =~= p@.drop_first());
        u
    } else {
        p.clone()
    };
    assert(urlpath@ == parsed_url_path(scheme@, path@));
    if is_ssh && urlpath.len() == 0 {
        return true;
    }
    let azure = match host {
        Some(h) => str_equal(h.as_str(), "dev.azure.com") || str_equal(h.as_str(), "ssh.dev.azure.com"),
        None => false,
    };
    if !azure {
        return false;
    }
    let parts = slash_parts_exec(urlpath.as_slice());
    (is_ssh && parts < 3) || (str_equal(scheme, "https") && parts < 4)
}

/// Calls `git_url_parse::GitUrl::parse` on a URL on which it does not panic (see
/// [`git_url_refused`]).
/// Nothing is claimed of the parts beyond their being a function of the URL text: the result
/// is the named outcome for `url`.
#[verifier::external_body]
fn parse_git_url(url: &str) -> (r: Result<GitUrlParts, String>)
    requires
        !git_url_refused(url@),
    ensures
        parse_outcome_view(r) == git_url_parse_outcome(url@),
{
    match git_url_parse::GitUrl::parse(url) {
        Ok(u) => Ok(GitUrlParts {
            host: u.host,
            name: u.name,
            owner: u.owner,
            port: u.port,
            scheme: u.scheme.to_string(),
            path: u.path,
        }),
        Err(e) => Err(format!("{e}")),
    }
}

/// A repository on a git host.
#[derive(Debug, Clone)]
pub struct RepoUrl {
    pub scheme: String,
    pub host: String,
    port: Option<u16>,
    pub owner: String,
    pub name: String,
    pub path: String,
}

/// Plain view of a [`RepoUrl`].
pub struct RepoUrlView {
    pub scheme: Seq<char>,
    pub host: Seq<char>,
    pub port: Option<u16>,
    pub owner: Seq<char>,
    pub name: Seq<char>,
    pub path: Seq<char>,
}

impl View for RepoUrl {
    type V = RepoUrlView;

    closed spec fn view(&self) -> RepoUrlView {
        RepoUrlView {
            scheme: self.scheme@,
            host: self.host@,
            port: self.port_spec(),
            owner: self.owner@,
            name: self.name@,
            path: self.path@,
        }
    }
}

impl RepoUrl {
    /// The port of the URL, if it names one.
    pub closed spec fn port_spec(&self) -> Option<u16> {
        self.port
    }

    /// The port of the URL, if it names one.
    pub fn port(&self) -> (r: Option<u16>)
        ensures
            r == self@.port,
    {
        self.port
    }

    /// The scheme of the URL.
    pub fn scheme_str(&self) -> (r: &str)
        ensures
            r@ == self@.scheme,
    {
        self.scheme.as_str()
    }

    /// The owner and the name of the repository.
    pub fn into_owner_and_name(self) -> (r: (String, String))
        ensures
            r.0@ == self@.owner,
            r.1@ == self@.name,
    {
        (self.owner, self.name)
    }
}

/// Why a repository URL was refused.
#[derive(Debug, Clone)]
pub enum RepoUrlError {
    /// The URL is not a git URL; `reason` is the parser's message.
    Unparsable { url: String, reason: String },
    /// The URL names no owner.
    MissingOwner { url: String },
    /// The URL names no host.
    MissingHost { url: String },
}

/// Plain view of a [`RepoUrlError`].
pub enum RepoUrlErrorView {
    Unparsable { url: Seq<char>, reason: Seq<char> },
    MissingOwner { url: Seq<char> },
    MissingHost { url: Seq<char> },
}

impl View for RepoUrlError {
    type V = RepoUrlErrorView;

    open spec fn view(&self) -> RepoUrlErrorView {
        match self {
            RepoUrlError::Unparsable { url, reason } => RepoUrlErrorView::Unparsable { url: url@, reason: reason@ },
            RepoUrlError::MissingOwner { url } => RepoUrlErrorView::MissingOwner { url: url@ },
            RepoUrlError::MissingHost { url } => RepoUrlErrorView::MissingHost { url: url@ },
        }
    }
}

/// Message of a [`RepoUrlError`].
pub open spec fn repo_url_error_message(e: RepoUrlErrorView) -> Seq<char> {
    match e {
        RepoUrlErrorView::Unparsable { url, reason } => "cannot parse git url "@ + url + ": "@ + reason,
        RepoUrlErrorView::MissingOwner { url } => "cannot find owner in git url "@ + url,
        RepoUrlErrorView::MissingHost { url } => "cannot find host in git url "@ + url,
    }
}

impl RepoUrlError {
    /// The error message.
    pub fn to_string(&self) -> (s: String)
        ensures
            s@ == repo_url_error_message(self@),
    {
        let mut s = String::new();
        match self {
            RepoUrlError::Unparsable { url, reason } => {
                push_str(&mut s, "cannot parse git url ");
                push_str(&mut s, url.as_str());
                push_str(&mut s, ": ");
                push_str(&mut s, reason.as_str());
            },
            RepoUrlError::MissingOwner { url } => {
                push_str(&mut s, "cannot find owner in git url ");
                push_str(&mut s, url.as_str());
            },
            RepoUrlError::MissingHost { url } => {
                push_str(&mut s, "cannot find host in git url ");
                push_str(&mut s, url.as_str());
            },
        }
        s
    }
}

/// `path` without a trailing `.git`.
pub open spec fn strip_git_suffix(path: Seq<char>) -> Seq<char> {
    if has_suffix(path, ".git"@) {
        path.take(path.len() - ".git"@.len())
    } else {
        path
    }
}

/// The repository that a parsed git URL denotes, or why it denotes none.
pub open spec fn repo_url_from_parts_spec(
    url: Seq<char>,
    parsed: Result<GitUrlPartsView, Seq<char>>,
) -> Result<RepoUrlView, RepoUrlErrorView> {
    match parsed {
        Err(reason) => Err(RepoUrlErrorView::Unparsable { url, reason }),
        Ok((host, name, owner, port, scheme, path)) => match owner {
            None => Err(RepoUrlErrorView::MissingOwner { url }),
            Some(owner) => match host {
                None => Err(RepoUrlErrorView::MissingHost { url }),
                Some(host) => Ok(
                    RepoUrlView { scheme, host, port, owner, name, path: strip_git_suffix(path) },
                ),
            },
        },
    }
}

/// Plain view of the result of building a [`RepoUrl`].
pub open spec fn repo_url_result_view(r: Result<RepoUrl, RepoUrlError>) -> Result<RepoUrlView, RepoUrlErrorView> {
    match r {
        Ok(u) => Ok(u@),
        Err(e) => Err(e@),
    }
}

/// `https://{host}/{owner}/{name}`.
pub open spec fn full_host_spec(u: RepoUrlView) -> Seq<char> {
    "https://"@ + u.host + "/"@ + u.owner + "/"@ + u.name
}

/// `path` with every `/` written as `%2F`.
pub open spec fn escape_slashes(path: Seq<char>) -> Seq<char>
    decreases path.len(),
{
    if path.len() == 0 {
        Seq::empty()
    } else {
        escape_slashes(path.drop_last()) + if path.last() == '/' { "%2F"@ } else { seq![path.last()] }
    }
}

/// `path` without one leading `/`.
pub open spec fn strip_leading_slash(path: Seq<char>) -> Seq<char> {
    if path.len() > 0 && path[0] == '/' { path.drop_first() } else { path }
}

/// `scheme://host[:port]/` followed by `rest`.
pub open spec fn api_url_spec(scheme: Seq<char>, host: Seq<char>, port: Option<u16>, rest: Seq<char>) -> Seq<char> {
    match port {
        Some(p) => scheme + "://"@ + host + ":"@ + decimal(p as nat) + "/"@ + rest,
        None => scheme + "://"@ + host + "/"@ + rest,
    }
}

/// Escapes the slashes of `path`.
fn escape_slashes_exec(path: &[char]) -> (r: String)
    ensures
        r@ == escape_slashes(path@),
{
    let mut r = String::new();
    let escaped = chars_of("%2F");
    let mut i: usize = 0;
    while i < path.len()
        invariant
            i <= path.len(),
            escaped@ == "%2F"@,
            r@ == escape_slashes(path@.take(i as int)),
        decreases path.len() - i,
    {
        assert(path@.take(i + 1).drop_last() == path@.take(i as int));
        if path[i] == '/' {
            push_chars(&mut r, escaped.as_slice());
        } else {
            crate::text::string_push(&mut r, path[i]);
        }
        i += 1;
    }
    assert(path@.take(path@.len() as int) == path@);
    r
}

impl RepoUrl {
    /// Builds a repository URL from the outcome of parsing `git_host_url`.
    pub fn from_git_url_parts(git_host_url: &str, parsed: Result<GitUrlParts, String>) -> (r: Result<RepoUrl, RepoUrlError>)
        ensures
            repo_url_result_view(r) == repo_url_from_parts_spec(git_host_url@, parse_outcome_view(parsed)),
    {
        let url = git_host_url.to_owned();
        match parsed {
            Err(reason) => Err(RepoUrlError::Unparsable { url, reason }),
            Ok(parts) => match parts.owner {
                None => Err(RepoUrlError::MissingOwner { url }),
                Some(owner) => match parts.host {
                    None => Err(RepoUrlError::MissingHost { url }),
                    Some(host) => {
                        let path_chars = chars_of(parts.path.as_str());
                        let suffix = chars_of(".git");
                        let path = if ends_with(path_chars.as_slice(), suffix.as_slice()) {
                            let kept = path_chars.len() - suffix.len();
                            let mut p = String::new();
                            push_chars(&mut p, path_chars.as_slice().split_at(kept).0);
                            p
                        } else {
                            parts.path
                        };
                        Ok(RepoUrl { owner, name: parts.name, host, port: parts.port, scheme: parts.scheme, path })
                    },
                },
            },
        }
    }

    /// Parses a git host URL such as `https://github.com/owner/repo` or
    /// `git@host:owner/repo.git`.
    /// A URL on which the git URL parser would panic is refused as unparsable (see
    /// [`git_url_refused`]).
    pub fn new(git_host_url: &str) -> (r: Result<RepoUrl, RepoUrlError>)
        ensures
            !git_url_refused(git_host_url@) ==> repo_url_result_view(r) == repo_url_from_parts_spec(
                git_host_url@,
                git_url_parse_outcome(git_host_url@),
            ),
            git_url_refused(git_host_url@) ==> repo_url_result_view(r) == Err::<RepoUrlView, RepoUrlErrorView>(
                RepoUrlErrorView::Unparsable { url: git_host_url@, reason: unsupported_url_reason() },
            ),
    {
        match normalize_git_url(git_host_url) {
            Ok((scheme, host, path)) => {
                if parse_panics(scheme.as_str(), &host, path.as_str()) {
                    let mut reason = String::new();
                    push_str(&mut reason, "the URL's path is too short for its git host");
                    return Err(RepoUrlError::Unparsable { url: git_host_url.to_owned(), reason });
                }
            },
            Err(_) => {},
        }
        let parsed = parse_git_url(git_host_url);
        Self::from_git_url_parts(git_host_url, parsed)
    }

    /// Whether the repository is hosted on GitHub.
    pub fn is_on_github(&self) -> (r: bool)
        ensures
            r == contains_seq(self@.host, "github"@),
    {
        str_contains(self.host.as_str(), "github")
    }

    /// `https://{host}/{owner}/{name}`.
    pub fn full_host(&self) -> (r: String)
        ensures
            r@ == full_host_spec(self@),
    {
        let mut r = String::new();
        push_str(&mut r, "https://");
        push_str(&mut r, self.host.as_str());
        push_str(&mut r, "/");
        push_str(&mut r, self.owner.as_str());
        push_str(&mut r, "/");
        push_str(&mut r, self.name.as_str());
        r
    }

    /// Link to a GitHub/Gitea release: the release page of `new_tag` when there is no
    /// previous tag (`prev_tag == new_tag`), else the comparison between the two tags.
    pub fn git_release_link(&self, prev_tag: &str, new_tag: &str) -> (r: String)
        ensures
            r@ == if prev_tag@ == new_tag@ {
                full_host_spec(self@) + "/releases/tag/"@ + new_tag@
            } else {
                full_host_spec(self@) + "/compare/"@ + prev_tag@ + "..."@ + new_tag@
            },
    {
        let mut r = self.full_host();
        if str_equal(prev_tag, new_tag) {
            push_str(&mut r, "/releases/tag/");
            push_str(&mut r, new_tag);
        } else {
            push_str(&mut r, "/compare/");
            push_str(&mut r, prev_tag);
            push_str(&mut r, "...");
            push_str(&mut r, new_tag);
        }
        r
    }

    /// Base link of the pull requests: `/pull` on GitHub, `/pulls` elsewhere.
    pub fn git_pr_link(&self) -> (r: String)
        ensures
            r@ == full_host_spec(self@) + "/"@ + if contains_seq(self@.host, "github"@) { "pull"@ } else { "pulls"@ },
    {
        let mut r = self.full_host();
        push_str(&mut r, "/");
        if self.is_on_github() {
            push_str(&mut r, "pull");
        } else {
            push_str(&mut r, "pulls");
        }
        r
    }

    /// `{scheme}://{host}[:{port}]/` followed by `rest`.
    fn api_url(&self, scheme: &str, rest: &str) -> (r: String)
        ensures
            r@ == api_url_spec(scheme@, self@.host, self@.port, rest@),
    {
        let mut r = String::new();
        push_str(&mut r, scheme);
        push_str(&mut r, "://");
        push_str(&mut r, self.host.as_str());
        match self.port {
            Some(p) => {
                push_str(&mut r, ":");
                let digits = decimal_string(p as u64);
                push_str(&mut r, digits.as_str());
            },
            None => {},
        }
        push_str(&mut r, "/");
        push_str(&mut r, rest);
        r
    }

    /// The Gitea API base URL: `{scheme}://{host}[:{port}]/api/v1/`.
    pub fn gitea_api_url(&self) -> (r: String)
        ensures
            r@ == api_url_spec(self@.scheme, self@.host, self@.port, "api/v1/"@),
    {
        self.api_url(self.scheme.as_str(), "api/v1/")
    }

    /// The GitLab API URL of the project: `{scheme}://{host}[:{port}]/api/v4/projects/{path}`,
    /// where the path has no leading `/` and its slashes are written `%2F`, and `ssh` becomes
    /// `https`.
    pub fn gitlab_api_url(&self) -> (r: String)
        ensures
            r@ == api_url_spec(
                if self@.scheme == "ssh"@ { "https"@ } else { self@.scheme },
                self@.host,
                self@.port,
                "api/v4/projects"@ + "/"@ + escape_slashes(strip_leading_slash(self@.path)),
            ),
    {
        let path = chars_of(self.path.as_str());
        let stripped = if path.len() > 0 && path[0] == '/' {
            path.as_slice().split_at(1).1
        } else {
            path.as_slice()
        };
        let project = escape_slashes_exec(stripped);
        let mut rest = String::new();
        push_str(&mut rest, "api/v4/projects");
        push_str(&mut rest, "/");
        push_str(&mut rest, project.as_str());
        if str_equal(self.scheme.as_str(), "ssh") {
            self.api_url("https", rest.as_str())
        } else {
            self.api_url(self.scheme.as_str(), rest.as_str())
        }
    }
}

/// The lowercase hexadecimal digit for `d` (`d < 16`).
pub open spec fn hex_digit(d: nat) -> char {
    if d < 10 { ((d + 48) as u32) as char } else { ((d + 87) as u32) as char }
}

/// The lowercase hexadecimal text of `n` (`n < 256`), without leading zeros.
pub open spec fn small_hex(n: nat) -> Seq<char> {
    if n < 16 { seq![hex_digit(n)] } else { seq![hex_digit(n / 16), hex_digit(n % 16)] }
}

/// How `Debug` writes a character of a string: the escapes of `\0`, tab, carriage return,
/// newline, backslash and double quote, `\u{..}` for the other ASCII control characters, and
/// any other character as itself.
pub open spec fn debug_escape_char(c: char) -> Seq<char> {
    if c == '\0' {
        "\\0"@
    } else if c == '\t' {
        "\\t"@
    } else if c == '\r' {
        "\\r"@
    } else if c == '\n' {
        "\\n"@
    } else if c == '\\' {
        "\\\\"@
    } else if c == '"' {
        "\\\""@
    } else if (c as u32) < 0x20 || (c as u32) == 0x7f {
        "\\u{"@ + small_hex(c as u32 as nat) + "}"@
    } else {
        seq![c]
    }
}

/// The characters of `s`, each written as `Debug` writes it in a string.
pub open spec fn debug_escape(s: Seq<char>) -> Seq<char>
    decreases s.len(),
{
    if s.len() == 0 {
        Seq::empty()
    } else {
        debug_escape(s.drop_last()) + debug_escape_char(s.last())
    }
}

/// A string as `Debug` writes it: quoted and escaped.
pub open spec fn debug_str(s: Seq<char>) -> Seq<char> {
    "\""@ + debug_escape(s) + "\""@
}

/// A repository URL as its derived `Debug` writes it.
pub open spec fn repo_url_debug_spec(u: RepoUrlView) -> Seq<char> {
    "RepoUrl { scheme: "@ + debug_str(u.scheme) + ", host: "@ + debug_str(u.host) + ", port: "@ + match u.port {
        Some(p) => "Some("@ + decimal(p as nat) + ")"@,
        None => "None"@,
    } + ", owner: "@ + debug_str(u.owner) + ", name: "@ + debug_str(u.name) + ", path: "@ + debug_str(u.path)
        + " }"@
}

/// The hexadecimal digit character for `d`.
fn hex_digit_exec(d: u32) -> (c: char)
    requires
        d < 16,
    ensures
        c == hex_digit(d as nat),
{
    if d < 10 { ((d + 48) as u8) as char } else { ((d + 87) as u8) as char }
}

/// Appends `s` as `Debug` writes a string.
fn push_debug_str(out: &mut String, s: &str)
    ensures
        final(out)@ == old(out)@ + debug_str(s@),
{
    let cs = chars_of(s);
    push_str(out, "\"");
    let ghost start = out@;
    let mut i: usize = 0;
    while i < cs.len()
        invariant
            cs@ == s@,
            i <= cs@.len(),
            out@ == start + debug_escape(cs@.take(i as int)),
        decreases cs.len() - i,
    {
        let c = cs[i];
        let ghost before = out@;
        if c == '\0' {
            push_str(out, "\\0");
        } else if c == '\t' {
            push_str(out, "\\t");
        } else if c == '\r' {
            push_str(out, "\\r");
        } else if c == '\n' {
            push_str(out, "\\n");
        } else if c == '\\' {
            push_str(out, "\\\\");
        } else if c == '"' {
            push_str(out, "\\\"");
        } else if (c as u32) < 0x20 || (c as u32) == 0x7f {
            let n = c as u32;
            push_str(out, "\\u{");
            if n >= 16 {
                crate::text::string_push(out, hex_digit_exec(n / 16));
            }
            crate::text::string_push(out, hex_digit_exec(n % 16));
            push_str(out, "}");
            proof {
                if n >= 16 {
                    assert(small_hex(n as nat) == seq![hex_digit((n / 16) as nat), hex_digit((n % 16) as nat)]);
                } else {
                    assert(n % 16 == n);
                }
            }
        } else {
            crate::text::string_push(out, c);
        }
        proof {
            assert(out@ =~= before + debug_escape_char(c));
            assert(cs@.take(i + 1).drop_last() =~= cs@.take(i as int));
            assert(cs@.take(i + 1).last() == c);
        }
        i += 1;
    }
    assert(cs@.take(i as int) =~= cs@);
    push_str(out, "\"");
}

impl RepoUrl {
    /// The URL as its derived `Debug` writes it, such as
    /// `RepoUrl { scheme: "https", host: "h", port: None, owner: "o", name: "r", path: "o/r" }`.
    pub fn debug_string(&self) -> (r: String)
        ensures
            r@ == repo_url_debug_spec(self@),
    {
        let mut r = String::new();
        push_str(&mut r, "RepoUrl { scheme: ");
        push_debug_str(&mut r, self.scheme.as_str());
        push_str(&mut r, ", host: ");
        push_debug_str(&mut r, self.host.as_str());
        push_str(&mut r, ", port: ");
        match self.port {
            Some(p) => {
                push_str(&mut r, "Some(");
                let d = decimal_string(p as u64);
                push_str(&mut r, d.as_str());
                push_str(&mut r, ")");
            },
            None => {
                push_str(&mut r, "None");
            },
        }
        push_str(&mut r, ", owner: ");
        push_debug_str(&mut r, self.owner.as_str());
        push_str(&mut r, ", name: ");
        push_debug_str(&mut r, self.name.as_str());
        push_str(&mut r, ", path: ");
        push_debug_str(&mut r, self.path.as_str());
        push_str(&mut r, " }");
        r
    }
}

} // verus!
