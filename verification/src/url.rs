//! The URL model: a directory inside a GitHub repository, parsed from the URL
//! of its page, and the URLs and names derived from it.

use crate::message::{error_text, highlight_message, highlight_text, make_error_message};
use crate::segments::{
    all_segments, is_segment, join_path, join_segments, lemma_split_concat, lemma_split_join,
    lemma_split_segment, lemma_split_yields_segments, separator, split_path, split_segments, texts,
};
use crate::text::{after, same_text, strip_prefix};
use vstd::prelude::*;

verus! {

/// The prefix that every page URL of the hosting site begins with.
pub open spec fn site() -> Seq<char> {
    "https://github.com"@
}

/// The prefix of the URLs that serve the unrendered bytes of a file.
pub open spec fn raw_site() -> Seq<char> {
    "https://raw.githubusercontent.com"@
}

/// The third segment of the URL of a directory page.
pub open spec fn tree_token() -> Seq<char> {
    "tree"@
}

/// One separator, as a text.
pub open spec fn slash() -> Seq<char> {
    seq![separator()]
}

/// Why a text is not the URL of a directory, or why a path has no name or place.
#[derive(Debug, Clone, Copy, PartialEq, Eq, Structural)]
pub enum UrlError {
    /// The text does not begin with the site's prefix.
    NotAHostedUrl,
    /// The URL names a whole repository.
    TopLevelRepoUrl,
    /// The URL names no directory inside a repository.
    NotADirectoryUrl,
    /// The third segment of the URL is not `tree`.
    UnparsableUrl,
    /// A location with an empty path has no last segment.
    EmptyPathError,
    /// A path does not begin with the path of the requested directory.
    PrefixMismatch,
}

/// A directory of a repository as a mathematical value.
pub struct UrlView {
    pub username: Seq<char>,
    pub repo_name: Seq<char>,
    pub branch: Seq<char>,
    pub path: Seq<Seq<char>>,
}

/// A directory inside a repository: whose repository, which one, at which
/// branch, and the path to the directory from the repository's root.
#[derive(Debug)]
pub struct GitHubUrl {
    pub username: String,
    pub repo_name: String,
    pub branch: String,
    pub path: Vec<String>,
}

impl View for GitHubUrl {
    type V = UrlView;

    open spec fn view(&self) -> UrlView {
        UrlView {
            username: self.username@,
            repo_name: self.repo_name@,
            branch: self.branch@,
            path: texts(self.path@),
        }
    }
}

impl UrlView {
    /// Owner, repository, branch and every segment of the path are non-empty
    /// and hold no separator.
    pub open spec fn wf(self) -> bool {
        &&& is_segment(self.username)
        &&& is_segment(self.repo_name)
        &&& is_segment(self.branch)
        &&& all_segments(self.path)
    }

    /// The location lies below the root of its repository.
    pub open spec fn is_directory(self) -> bool {
        self.path.len() > 0
    }

    /// The segments that follow the site's prefix in the URL of the page.
    pub open spec fn segments(self) -> Seq<Seq<char>> {
        seq![self.username, self.repo_name, tree_token(), self.branch] + self.path
    }

    /// Owner, repository, `middle`, branch and path, each behind a separator.
    pub open spec fn tail(self, middle: Seq<char>) -> Seq<char> {
        slash() + self.username + slash() + self.repo_name + middle + slash() + self.branch
            + slash() + join_segments(self.path)
    }

    /// The URL of the directory's page.
    pub open spec fn listing_url(self) -> Seq<char> {
        site() + self.tail(slash() + tree_token())
    }

    /// The URL that serves the unrendered bytes at this location.
    pub open spec fn raw_url(self) -> Seq<char> {
        raw_site() + self.tail(Seq::empty())
    }

    /// The last segment of the path, if there is one.
    pub open spec fn basename(self) -> Option<Seq<char>> {
        if self.path.len() > 0 {
            Some(self.path.last())
        } else {
            None
        }
    }

    /// The location reached by following `part` from here.
    pub open spec fn join(self, part: Seq<char>) -> UrlView {
        UrlView { path: self.path + split_segments(part), ..self }
    }

    /// The location in several lines of text.
    pub open spec fn description(self) -> Seq<char> {
        "GitHubUrl {\n  username: "@ + self.username + ",\n  repo: "@ + self.repo_name
            + ",\n  branch: "@ + self.branch + ",\n  path: "@ + join_segments(self.path) + "\n}"@
    }
}

/// The segments of `url` behind the site's prefix.
pub open spec fn url_segments(url: Seq<char>) -> Seq<Seq<char>> {
    split_segments(after(url, site().len()))
}

/// What a text means as the URL of a directory page.
///
/// The text must begin with the site's prefix. What follows is split on `/`.
/// Two segments name a whole repository; fewer than four name no directory; the
/// third must be `tree`; and at least one segment must follow the branch.
pub open spec fn parse_url(url: Seq<char>) -> Result<UrlView, UrlError> {
    let parts = url_segments(url);
    if !site().is_prefix_of(url) {
        Err(UrlError::NotAHostedUrl)
    } else if parts.len() == 2 {
        Err(UrlError::TopLevelRepoUrl)
    } else if parts.len() < 4 {
        Err(UrlError::NotADirectoryUrl)
    } else if parts[2] != tree_token() {
        Err(UrlError::UnparsableUrl)
    } else if parts.len() == 4 {
        Err(UrlError::NotADirectoryUrl)
    } else {
        Ok(
            UrlView {
                username: parts[0],
                repo_name: parts[1],
                branch: parts[3],
                path: parts.skip(4),
            },
        )
    }
}

impl UrlError {
    /// The message for this error about `subject`, the URL or path at fault.
    pub open spec fn message_text(self, subject: Seq<char>) -> Seq<char> {
        match self {
            UrlError::NotAHostedUrl => error_text("'"@ + subject + "' is not a github url"@),
            UrlError::TopLevelRepoUrl => error_text(
                subject + "' is a top-level git repo.\nInstead, try:\n  "@ + highlight_text(
                    "git clone "@ + subject,
                ),
            ),
            UrlError::NotADirectoryUrl => error_text(
                "'"@ + subject + "' is not a url to a directory within a github repo"@,
            ),
            UrlError::UnparsableUrl => error_text("cannot parse url '"@ + subject + "'"@),
            UrlError::EmptyPathError => error_text("'"@ + subject + "' has an empty path"@),
            UrlError::PrefixMismatch => error_text(
                "'"@ + subject + "' is not below the requested directory"@,
            ),
        }
    }

    /// The message for this error about `subject`, the URL or path at fault.
    /// For a whole repository it suggests `git clone`.
    pub fn message(&self, subject: &str) -> (text: String)
        ensures
            text@ == self.message_text(subject@),
    {
        match self {
            UrlError::NotAHostedUrl => make_error_message(
                String::from_str("'").concat(subject).concat("' is not a github url"),
            ),
            UrlError::TopLevelRepoUrl => {
                let advice = highlight_message(String::from_str("git clone ").concat(subject));
                make_error_message(
                    String::from_str(subject).concat(
                        "' is a top-level git repo.\nInstead, try:\n  ",
                    ).concat(advice.as_str()),
                )
            },
            UrlError::NotADirectoryUrl => make_error_message(
                String::from_str("'").concat(subject).concat(
                    "' is not a url to a directory within a github repo",
                ),
            ),
            UrlError::UnparsableUrl => make_error_message(
                String::from_str("cannot parse url '").concat(subject).concat("'"),
            ),
            UrlError::EmptyPathError => make_error_message(
                String::from_str("'").concat(subject).concat("' has an empty path"),
            ),
            UrlError::PrefixMismatch => make_error_message(
                String::from_str("'").concat(subject).concat(
                    "' is not below the requested directory",
                ),
            ),
        }
    }
}

/// A copy of the strings of `v` from index `from` on.
fn copy_segments_from(v: &Vec<String>, from: usize) -> (copy: Vec<String>)
    requires
        from <= v.len(),
    ensures
        texts(copy@) == texts(v@).skip(from as int),
{
    let mut copy: Vec<String> = Vec::new();
    let mut i: usize = from;
    while i < v.len()
        invariant
            from <= i <= v.len(),
            copy.len() == i - from,
            forall|j: int| 0 <= j < i - from ==> copy@[j]@ == v@[j + from]@,
        decreases v.len() - i,
    {
        copy.push(v[i].clone());
        i = i + 1;
    }
    assert(texts(copy@) =~= texts(v@).skip(from as int));
    copy
}

/// A copy of the strings of `v`.
pub fn copy_segments(v: &Vec<String>) -> (copy: Vec<String>)
    ensures
        texts(copy@) == texts(v@),
{
    assert(texts(v@).skip(0) =~= texts(v@));
    copy_segments_from(v, 0)
}

impl Clone for GitHubUrl {
    fn clone(&self) -> (copy: Self)
        ensures
            copy@ == self@,
    {
        GitHubUrl {
            username: self.username.clone(),
            repo_name: self.repo_name.clone(),
            branch: self.branch.clone(),
            path: copy_segments(&self.path),
        }
    }
}

impl GitHubUrl {
    /// Reads the URL of a directory page. No network is touched.
    pub fn parse(url: &str) -> (res: Result<GitHubUrl, UrlError>)
        ensures
            match res {
                Ok(loc) => parse_url(url@) == Ok::<UrlView, UrlError>(loc@),
                Err(e) => parse_url(url@) == Err::<UrlView, UrlError>(e),
            },
            res matches Ok(loc) ==> loc@.wf() && loc@.is_directory(),
    {
        let rest = match strip_prefix(url, "https://github.com") {
            Some(rest) => rest,
            None => {
                return Err(UrlError::NotAHostedUrl);
            },
        };
        let mut parts = split_path(rest);
        let ghost all = texts(parts@);
        if parts.len() == 2 {
            return Err(UrlError::TopLevelRepoUrl);
        }
        if parts.len() < 4 {
            return Err(UrlError::NotADirectoryUrl);
        }
        assert(all[2] == parts@[2]@);
        if !same_text(parts[2].as_str(), "tree") {
            return Err(UrlError::UnparsableUrl);
        }
        if parts.len() == 4 {
            return Err(UrlError::NotADirectoryUrl);
        }
        let path = parts.split_off(4);
        let branch = parts.pop().unwrap();
        let _tree = parts.pop();
        let repo_name = parts.pop().unwrap();
        let username = parts.pop().unwrap();
        proof {
            assert(texts(path@) =~= all.skip(4));
            assert(branch@ == all[3]);
            assert(repo_name@ == all[1]);
            assert(username@ == all[0]);
            lemma_parse_gives_directory(url@);
        }
        Ok(GitHubUrl { username, repo_name, branch, path })
    }

    /// Creates the location that the URL of a directory page names, or says in
    /// a message for the terminal why the text is no such URL.
    pub fn new(url: &String) -> (res: Result<GitHubUrl, String>)
        ensures
            match res {
                Ok(loc) => parse_url(url@) == Ok::<UrlView, UrlError>(loc@),
                Err(msg) => parse_url(url@) matches Err(e) && msg@ == e.message_text(url@),
            },
            res matches Ok(loc) ==> loc@.wf() && loc@.is_directory(),
    {
        match GitHubUrl::parse(url.as_str()) {
            Ok(loc) => Ok(loc),
            Err(e) => Err(e.message(url.as_str())),
        }
    }

    /// Owner, repository, `middle`, branch and path behind `site`.
    fn assemble(&self, site: &str, middle: &str) -> (text: String)
        ensures
            text@ == site@ + self@.tail(middle@),
    {
        let mut text = String::from_str(site);
        text.append("/");
        text.append(self.username.as_str());
        text.append("/");
        text.append(self.repo_name.as_str());
        text.append(middle);
        text.append("/");
        text.append(self.branch.as_str());
        text.append("/");
        text.append(join_path(&self.path).as_str());
        proof {
            reveal_strlit("/");
            assert("/"@ =~= slash());
            assert(text@ =~= site@ + self@.tail(middle@));
        }
        text
    }

    /// Returns the URL of the directory's page.
    pub fn url(&self) -> (text: String)
        ensures
            text@ == self@.listing_url(),
    {
        proof {
            reveal_strlit("/");
            reveal_strlit("/tree");
            reveal_strlit("tree");
            assert("/tree"@ =~= slash() + tree_token());
        }
        self.assemble("https://github.com", "/tree")
    }

    /// Returns the URL that serves the unrendered bytes at this location, on
    /// the site's raw-content host.
    pub fn raw_url(&self) -> (text: String)
        ensures
            text@ == self@.raw_url(),
    {
        proof {
            reveal_strlit("");
            assert(""@ =~= Seq::<char>::empty());
        }
        self.assemble("https://raw.githubusercontent.com", "")
    }

    /// Returns the name of the directory: the last segment of its path.
    pub fn basename(&self) -> (name: Result<String, UrlError>)
        ensures
            match name {
                Ok(n) => self@.basename() == Some(n@),
                Err(e) => self@.basename() is None && e == UrlError::EmptyPathError,
            },
    {
        let n = self.path.len();
        if n == 0 {
            Err(UrlError::EmptyPathError)
        } else {
            Ok(self.path[n - 1].clone())
        }
    }

    /// Returns the location reached by following `part` from here: the same
    /// repository and branch, the path with the segments of `part` appended.
    pub fn join(&self, part: &str) -> (child: GitHubUrl)
        ensures
            child@ == self@.join(part@),
            self@.wf() ==> child@.wf(),
    {
        proof {
            if self@.wf() {
                lemma_join_keeps_wf(self@, part@);
            }
        }
        let mut path = copy_segments(&self.path);
        let mut more = split_path(part);
        let ghost before = texts(path@);
        let ghost added = texts(more@);
        path.append(&mut more);
        assert(texts(path@) =~= before + added);
        GitHubUrl {
            username: self.username.clone(),
            repo_name: self.repo_name.clone(),
            branch: self.branch.clone(),
            path,
        }
    }

    /// Returns the location in several lines of text.
    pub fn describe(&self) -> (text: String)
        ensures
            text@ == self@.description(),
    {
        let mut text = String::from_str("GitHubUrl {\n  username: ");
        text.append(self.username.as_str());
        text.append(",\n  repo: ");
        text.append(self.repo_name.as_str());
        text.append(",\n  branch: ");
        text.append(self.branch.as_str());
        text.append(",\n  path: ");
        text.append(join_path(&self.path).as_str());
        text.append("\n}");
        text
    }
}

/// How the path of a remote file is mapped to a place below the output
/// directory.
#[derive(Debug, Clone, Copy, PartialEq, Eq, Structural)]
pub enum PathPolicy {
    /// Keep the path from the root of the repository, without its first
    /// segment.
    RootRelative,
    /// Keep what follows the path of the requested directory.
    RequestRelative,
}

/// The place of a remote path below the output directory, in segments.
///
/// Relative to the root, the first segment of the path is dropped. Relative to
/// the request, the path must begin with the path of the requested directory,
/// and what follows it is kept.
pub open spec fn relative_path_of(
    full_path: Seq<Seq<char>>,
    policy: PathPolicy,
    requested: Seq<Seq<char>>,
) -> Result<Seq<Seq<char>>, UrlError> {
    match policy {
        PathPolicy::RootRelative => if full_path.len() > 0 {
            Ok(full_path.skip(1))
        } else {
            Ok(full_path)
        },
        PathPolicy::RequestRelative => if requested.is_prefix_of(full_path) {
            Ok(full_path.skip(requested.len() as int))
        } else {
            Err(UrlError::PrefixMismatch)
        },
    }
}

/// Maps the path of a remote file to its place below the output directory,
/// under `policy`, for a traversal that was asked for `requested`. Fails with
/// `PrefixMismatch` where the place is taken relative to the request and the
/// path does not begin with the path of `requested`.
pub fn relative_path(full_path: &Vec<String>, policy: PathPolicy, requested: &GitHubUrl) -> (rel:
    Result<Vec<String>, UrlError>)
    ensures
        match rel {
            Ok(r) => relative_path_of(texts(full_path@), policy, requested@.path) == Ok::<
                Seq<Seq<char>>,
                UrlError,
            >(texts(r@)),
            Err(e) => relative_path_of(texts(full_path@), policy, requested@.path) == Err::<
                Seq<Seq<char>>,
                UrlError,
            >(e),
        },
{
    match policy {
        PathPolicy::RootRelative => {
            if full_path.len() > 0 {
                Ok(copy_segments_from(full_path, 1))
            } else {
                let none: Vec<String> = Vec::new();
                assert(texts(none@) =~= texts(full_path@));
                Ok(none)
            }
        },
        PathPolicy::RequestRelative => {
            let ghost full = texts(full_path@);
            let ghost prefix = texts(requested.path@);
            let n = requested.path.len();
            if n > full_path.len() {
                return Err(UrlError::PrefixMismatch);
            }
            let mut i: usize = 0;
            while i < n
                invariant
                    0 <= i <= n,
                    n == requested.path.len(),
                    n <= full_path.len(),
                    policy == PathPolicy::RequestRelative,
                    full == texts(full_path@),
                    prefix == texts(requested.path@),
                    forall|j: int| 0 <= j < i ==> full[j] == prefix[j],
                decreases n - i,
            {
                if !same_text(full_path[i].as_str(), requested.path[i].as_str()) {
                    proof {
                        assert(full[i as int] != prefix[i as int]);
                        if prefix.is_prefix_of(full) {
                            assert(full.subrange(0, prefix.len() as int)[i as int] == prefix[i as int]);
                        }
                    }
                    return Err(UrlError::PrefixMismatch);
                }
                i = i + 1;
            }
            assert(prefix =~= full.subrange(0, prefix.len() as int));
            Ok(copy_segments_from(full_path, n))
        },
    }
}

/// What the two policies strip from a path: relative to the root the first
/// segment and nothing else; relative to the request the path of the requested
/// directory, which fails exactly where the path does not begin with it.
pub proof fn lemma_relative_path_strips(
    full_path: Seq<Seq<char>>,
    policy: PathPolicy,
    requested: Seq<Seq<char>>,
)
    ensures
        policy == PathPolicy::RootRelative ==> relative_path_of(full_path, policy, requested) is Ok,
        policy == PathPolicy::RootRelative && full_path.len() > 0 ==> seq![full_path[0]]
            + relative_path_of(full_path, policy, requested)->Ok_0 == full_path,
        policy == PathPolicy::RequestRelative ==> (relative_path_of(
            full_path,
            policy,
            requested,
        ) is Ok <==> requested.is_prefix_of(full_path)),
        policy == PathPolicy::RequestRelative && requested.is_prefix_of(full_path) ==> requested
            + relative_path_of(full_path, policy, requested)->Ok_0 == full_path,
        policy == PathPolicy::RequestRelative && !requested.is_prefix_of(full_path)
            ==> relative_path_of(full_path, policy, requested) == Err::<Seq<Seq<char>>, UrlError>(
            UrlError::PrefixMismatch,
        ),
{
    if policy == PathPolicy::RootRelative && full_path.len() > 0 {
        assert(seq![full_path[0]] + full_path.skip(1) =~= full_path);
    }
    if policy == PathPolicy::RequestRelative && requested.is_prefix_of(full_path) {
        assert(requested + full_path.skip(requested.len() as int) =~= full_path);
    }
}

/// The URL of a well-formed location begins with the site's prefix, and the
/// segments behind the prefix are owner, repository, `tree`, branch and path.
pub proof fn lemma_listing_url_segments(loc: UrlView)
    requires
        loc.wf(),
    ensures
        site().is_prefix_of(loc.listing_url()),
        url_segments(loc.listing_url()) == loc.segments(),
{
    reveal_strlit("tree");
    assert(is_segment(tree_token()));
    let empty = Seq::<char>::empty();
    let s1 = empty + slash() + loc.username;
    let s2 = s1 + slash() + loc.repo_name;
    let s3 = s2 + slash() + tree_token();
    let s4 = s3 + slash() + loc.branch;
    let s5 = s4 + slash() + join_segments(loc.path);
    lemma_split_concat(empty, loc.username);
    lemma_split_concat(s1, loc.repo_name);
    lemma_split_concat(s2, tree_token());
    lemma_split_concat(s3, loc.branch);
    lemma_split_concat(s4, join_segments(loc.path));
    lemma_split_segment(loc.username);
    lemma_split_segment(loc.repo_name);
    lemma_split_segment(tree_token());
    lemma_split_segment(loc.branch);
    lemma_split_join(loc.path);
    assert(split_segments(s5) =~= loc.segments());
    let tail = loc.tail(slash() + tree_token());
    assert(tail =~= s5);
    let url = loc.listing_url();
    assert(url.subrange(0, site().len() as int) =~= site());
    assert(after(url, site().len()) =~= tail);
}

/// Parsing the URL of a well-formed directory gives the directory back.
pub proof fn lemma_url_parses_back(loc: UrlView)
    requires
        loc.wf(),
        loc.is_directory(),
    ensures
        parse_url(loc.listing_url()) == Ok::<UrlView, UrlError>(loc),
{
    lemma_listing_url_segments(loc);
    let parts = url_segments(loc.listing_url());
    assert(parts.skip(4) =~= loc.path);
}

/// What parsing accepts is a well-formed directory, and its owner, repository,
/// `tree`, branch and path are the segments of the text behind the prefix.
pub proof fn lemma_parse_gives_directory(url: Seq<char>)
    requires
        parse_url(url) is Ok,
    ensures
        parse_url(url)->Ok_0.wf(),
        parse_url(url)->Ok_0.is_directory(),
        parse_url(url)->Ok_0.segments() == url_segments(url),
{
    let parts = url_segments(url);
    let loc = parse_url(url)->Ok_0;
    lemma_split_yields_segments(after(url, site().len()));
    assert(is_segment(parts[0]) && is_segment(parts[1]) && is_segment(parts[3]));
    assert forall|i: int| 0 <= i < loc.path.len() implies is_segment(#[trigger] loc.path[i]) by {
        assert(loc.path[i] == parts[i + 4]);
    }
    assert(loc.segments() =~= parts);
}

/// Round trip: the URL rebuilt from a parsed location has the segments of the
/// text that was parsed, and parses to the same location.
pub proof fn lemma_parse_round_trip(url: Seq<char>)
    requires
        parse_url(url) is Ok,
    ensures
        url_segments(parse_url(url)->Ok_0.listing_url()) == url_segments(url),
        parse_url(parse_url(url)->Ok_0.listing_url()) == parse_url(url),
{
    let loc = parse_url(url)->Ok_0;
    lemma_parse_gives_directory(url);
    lemma_listing_url_segments(loc);
    lemma_url_parses_back(loc);
}

/// Which texts parsing rejects, and with which error: one that lacks the
/// site's prefix; one with exactly two segments behind it; one with fewer than
/// four; one with at least four whose third segment is not `tree`.
pub proof fn lemma_parse_rejections(url: Seq<char>)
    ensures
        !site().is_prefix_of(url) ==> parse_url(url) == Err::<UrlView, UrlError>(
            UrlError::NotAHostedUrl,
        ),
        site().is_prefix_of(url) && url_segments(url).len() == 2 ==> parse_url(url) == Err::<
            UrlView,
            UrlError,
        >(UrlError::TopLevelRepoUrl),
        site().is_prefix_of(url) && url_segments(url).len() < 4 && url_segments(url).len() != 2
            ==> parse_url(url) == Err::<UrlView, UrlError>(UrlError::NotADirectoryUrl),
        site().is_prefix_of(url) && url_segments(url).len() >= 4 && url_segments(url)[2]
            != tree_token() ==> parse_url(url) == Err::<UrlView, UrlError>(
            UrlError::UnparsableUrl,
        ),
        site().is_prefix_of(url) && url_segments(url).len() == 4 && url_segments(url)[2]
            == tree_token() ==> parse_url(url) == Err::<UrlView, UrlError>(
            UrlError::NotADirectoryUrl,
        ),
        parse_url(url) is Ok <==> site().is_prefix_of(url) && url_segments(url).len() > 4
            && url_segments(url)[2] == tree_token(),
{
}

/// Joining one segment appends it to the path and makes it the name of the
/// result; owner, repository and branch stay.
pub proof fn lemma_join_appends(loc: UrlView, name: Seq<char>)
    requires
        is_segment(name),
    ensures
        loc.join(name).path == loc.path.push(name),
        loc.join(name).basename() == Some(name),
        loc.join(name).username == loc.username,
        loc.join(name).repo_name == loc.repo_name,
        loc.join(name).branch == loc.branch,
{
    lemma_split_segment(name);
    assert(loc.path + seq![name] =~= loc.path.push(name));
}

/// Joining keeps a location well-formed, whatever is joined, and a directory
/// stays one.
pub proof fn lemma_join_keeps_wf(loc: UrlView, part: Seq<char>)
    requires
        loc.wf(),
    ensures
        loc.join(part).wf(),
        loc.is_directory() ==> loc.join(part).is_directory(),
{
    lemma_split_yields_segments(part);
}

/// Joining is the same as parsing the URL of the page with a separator and the
/// part behind it.
pub proof fn lemma_join_is_reparse(loc: UrlView, part: Seq<char>)
    requires
        loc.wf(),
        loc.is_directory(),
    ensures
        parse_url(loc.listing_url() + slash() + part) == Ok::<UrlView, UrlError>(loc.join(part)),
{
    lemma_listing_url_segments(loc);
    let url = loc.listing_url();
    let longer = url + slash() + part;
    let tail = after(url, site().len());
    assert(longer.subrange(0, site().len() as int) =~= url.subrange(0, site().len() as int));
    assert(after(longer, site().len()) =~= tail + slash() + part);
    lemma_split_concat(tail, part);
    let parts = url_segments(longer);
    assert(parts =~= loc.segments() + split_segments(part));
    assert(parts.skip(4) =~= loc.path + split_segments(part));
}

} // verus!
