//! The community Gitee CLI `ge`: the command lines that it is given, and what
//! its output means.

use vstd::prelude::*;

use crate::git_host::detection::{opt_url, parse_url, url_outcome, UrlParts, UrlView};
use crate::git_host::redaction::{
    has_break, holds_no_token, is_token_char, law_no_token_is_shown, lemma_join_around_break,
    redact, redacted, TOKEN_CHARS,
};
use crate::git_host::types::{
    CommentView, CreatePrRequest, MergeStatus, OpenPrInfo, PrView, PullRequestInfo,
    UnifiedPrComment,
};
use crate::sorting::{
    is_order, is_sorted, law_sort_orders_the_same_items, lemma_sort_map, not_after, order_of, sort,
    stable_sort, Timestamp,
};
use crate::text::{
    begins_with, concat2, concat3, concat4, concat5, contains, cut_at_first, cut_at_last, decimal,
    digit_char, finishes_with, first_of, holds_text, int_error_text, integer_value, is_blank,
    is_digit, join, joined, law_cuts_leave_the_character_out, law_first_is_found,
    law_lower_case_changes_capitals_only, law_parts_of_a_text_are_found,
    law_repeated_ends_are_taken_off, law_split_text_then_join, law_written_numbers_are_read_back,
    lemma_split_one_more, lemma_split_one_piece, lemma_views_push, lines, lines_of, lowered,
    opt_pair, opt_view, parse_i64, parse_u64, rsplit_once, same, signed_decimal,
    signed_decimal_text, split, split_at_char, split_from, split_once, split_text, split_whitespace,
    starts_with, strip_prefix, to_ascii_lowercase, trim, trim_end, trim_end_matches, trim_end_text,
    trim_start, trim_start_matches, trimmed, trimmed_end, trimmed_start, views, without_leading,
    without_prefix, without_suffixes, without_trailing, words_of, IntError,
};

verus! {

/// Oldest version of `ge` that is supported.
pub const MINIMUM_GE_VERSION: &'static str = "5.21.0";

/// A repository on Gitee.
#[derive(Debug, PartialEq, Eq)]
pub struct GiteeRepoInfo {
    pub owner: String,
    pub repo_name: String,
}

/// Model of [`GiteeRepoInfo`].
pub struct RepoView {
    pub owner: Seq<char>,
    pub repo_name: Seq<char>,
}

impl View for GiteeRepoInfo {
    type V = RepoView;

    open spec fn view(&self) -> RepoView {
        RepoView { owner: self.owner@, repo_name: self.repo_name@ }
    }
}

/// Why `ge` could not be used, or what it did wrong. Texts are as they came:
/// what the failure is to users is told from them, and credentials are taken out
/// of what users get.
#[derive(Debug, PartialEq, Eq)]
pub enum GeCliError {
    NotAvailable,
    UnsupportedVersion { found: String, minimum: String },
    CommandFailed(String),
    AuthFailed(String),
    UnexpectedOutput(String),
}

/// Model of [`GeCliError`].
pub enum GeFailure {
    NotAvailable,
    UnsupportedVersion { found: Seq<char>, minimum: Seq<char> },
    CommandFailed(Seq<char>),
    AuthFailed(Seq<char>),
    UnexpectedOutput(Seq<char>),
}

impl View for GeCliError {
    type V = GeFailure;

    open spec fn view(&self) -> GeFailure {
        match self {
            GeCliError::NotAvailable => GeFailure::NotAvailable,
            GeCliError::UnsupportedVersion { found, minimum } => GeFailure::UnsupportedVersion {
                found: found@,
                minimum: minimum@,
            },
            GeCliError::CommandFailed(message) => GeFailure::CommandFailed(message@),
            GeCliError::AuthFailed(message) => GeFailure::AuthFailed(message@),
            GeCliError::UnexpectedOutput(message) => GeFailure::UnexpectedOutput(message@),
        }
    }
}

/// The message of a failure of `ge`, without credentials.
pub open spec fn ge_message(failure: GeFailure) -> Seq<char> {
    match failure {
        GeFailure::NotAvailable => "Gitee CLI (`ge`) executable not found or not runnable"@,
        GeFailure::UnsupportedVersion { found, minimum } => "Gitee CLI version "@ + found
            + " is unsupported; version "@ + minimum + " or newer is required"@,
        GeFailure::CommandFailed(message) => "Gitee CLI command failed: "@ + redacted(message),
        GeFailure::AuthFailed(message) => "Gitee CLI authentication failed: "@ + redacted(message),
        GeFailure::UnexpectedOutput(message) => "Gitee CLI returned unexpected output: "@
            + redacted(message),
    }
}

impl GeCliError {
    /// The message of this error, without credentials.
    pub fn message(&self) -> (text: String)
        ensures
            text@ == ge_message(self@),
    {
        match self {
            GeCliError::NotAvailable =>
                "Gitee CLI (`ge`) executable not found or not runnable".to_owned(),
            GeCliError::UnsupportedVersion { found, minimum } => concat5(
                "Gitee CLI version ",
                found,
                " is unsupported; version ",
                minimum,
                " or newer is required",
            ),
            GeCliError::CommandFailed(message) => concat2(
                "Gitee CLI command failed: ",
                &redact(message),
            ),
            GeCliError::AuthFailed(message) => concat2(
                "Gitee CLI authentication failed: ",
                &redact(message),
            ),
            GeCliError::UnexpectedOutput(message) => concat2(
                "Gitee CLI returned unexpected output: ",
                &redact(message),
            ),
        }
    }
}

/// Nothing that is long enough to be a token stands in a message, whatever
/// `ge` printed or a URL held.
pub proof fn law_messages_show_no_token(failure: GeFailure)
    requires
        !(failure is UnsupportedVersion),
    ensures
        holds_no_token(ge_message(failure)),
{
    reveal_strlit("Gitee CLI (`ge`) executable not found or not runnable");
    reveal_strlit("Gitee CLI command failed: ");
    reveal_strlit("Gitee CLI authentication failed: ");
    reveal_strlit("Gitee CLI returned unexpected output: ");
    match failure {
        GeFailure::NotAvailable => {
            let text = "Gitee CLI (`ge`) executable not found or not runnable"@;
            assert forall|at: int| 0 <= at <= text.len() - TOKEN_CHARS implies #[trigger] has_break(
                text,
                at,
            ) by {
                assert(!is_token_char(text[27]));
            }
        },
        GeFailure::CommandFailed(message) => {
            lemma_labelled("Gitee CLI command failed: "@, message);
        },
        GeFailure::AuthFailed(message) => {
            lemma_labelled("Gitee CLI authentication failed: "@, message);
        },
        GeFailure::UnexpectedOutput(message) => {
            lemma_labelled("Gitee CLI returned unexpected output: "@, message);
        },
        GeFailure::UnsupportedVersion { .. } => {},
    }
}

proof fn lemma_labelled(label: Seq<char>, message: Seq<char>)
    requires
        7 < label.len() <= 38,
        label[5] == ' ',
        label.last() == ' ',
    ensures
        holds_no_token(label + redacted(message)),
{
    let start = label.drop_last();
    assert forall|at: int| 0 <= at <= start.len() - TOKEN_CHARS implies #[trigger] has_break(
        start,
        at,
    ) by {
        assert(!is_token_char(start[5]));
    }
    law_no_token_is_shown(message);
    lemma_join_around_break(start, ' ', redacted(message));
    assert(start + seq![' '] + redacted(message) =~= label + redacted(message));
}

fn unexpected(label: &str, detail: &str) -> (error: GeCliError)
    ensures
        error@ == GeFailure::UnexpectedOutput(label@ + detail@),
{
    GeCliError::UnexpectedOutput(concat2(label, detail))
}

/// What a run of `ge` gave; the output is decoded.
#[derive(Debug, PartialEq, Eq)]
pub struct CliOutput {
    pub success: bool,
    pub stdout: String,
    pub stderr: String,
}

/// A command line of `ge`: its arguments, and the directory that it runs in
/// where that matters.
#[derive(Debug, PartialEq, Eq)]
pub struct GeCommand {
    pub args: Vec<String>,
    pub dir: Option<String>,
}

/// Gives `ge` its commands and reads its answers.
#[derive(Debug, Clone, Copy, PartialEq, Eq, Structural)]
pub struct GeCli;

// ---------------------------------------------------------------------------
// Versions
// ---------------------------------------------------------------------------

/// Whether a text is a number of 64 bits.
pub open spec fn is_number(part: Seq<char>) -> bool {
    integer_value(part, 0, u64::MAX as int) is Ok
}

/// Whether a word is a version: three numbers with dots between, after any
/// number of `v`.
pub open spec fn is_version(word: Seq<char>) -> bool {
    let parts = split_at_char(without_leading(word, 'v'), '.');
    parts.len() == 3 && forall|i: int| 0 <= i < parts.len() ==> is_number(#[trigger] parts[i])
}

/// The first version among words.
pub open spec fn first_version(words: Seq<Seq<char>>) -> Option<Seq<char>>
    decreases words.len(),
{
    if words.len() == 0 {
        None
    } else {
        match first_version(words.drop_last()) {
            Some(version) => Some(version),
            None => if is_version(words.last()) {
                Some(without_leading(words.last(), 'v'))
            } else {
                None
            },
        }
    }
}

/// The three numbers that a version begins with.
pub open spec fn version_numbers(version: Seq<char>) -> Option<(int, int, int)> {
    let parts = split_at_char(version, '.');
    if parts.len() >= 3 && is_number(parts[0]) && is_number(parts[1]) && is_number(parts[2]) {
        Some(
            (
                integer_value(parts[0], 0, u64::MAX as int)->Ok_0,
                integer_value(parts[1], 0, u64::MAX as int)->Ok_0,
                integer_value(parts[2], 0, u64::MAX as int)->Ok_0,
            ),
        )
    } else {
        None
    }
}

/// Whether a version is at least another, number by number.
pub open spec fn numbers_at_least(found: (int, int, int), minimum: (int, int, int)) -> bool {
    found.0 > minimum.0 || (found.0 == minimum.0 && (found.1 > minimum.1 || (found.1 == minimum.1
        && found.2 >= minimum.2)))
}

/// Whether a version is at least another; not where either is none.
pub open spec fn at_least(found: Seq<char>, minimum: Seq<char>) -> bool {
    match (version_numbers(found), version_numbers(minimum)) {
        (Some(found), Some(minimum)) => numbers_at_least(found, minimum),
        _ => false,
    }
}

/// What the answer of `ge version` means: nothing where it is supported.
pub open spec fn version_failure(output: CliOutput) -> Option<GeFailure> {
    if !output.success {
        Some(GeFailure::CommandFailed(trimmed(output.stderr@)))
    } else {
        match first_version(words_of(output.stdout@)) {
            None => Some(
                GeFailure::UnexpectedOutput(
                    "Could not parse `ge version` output: "@ + trimmed(output.stdout@),
                ),
            ),
            Some(found) => if at_least(found, MINIMUM_GE_VERSION@) {
                None
            } else {
                Some(GeFailure::UnsupportedVersion { found, minimum: MINIMUM_GE_VERSION@ })
            },
        }
    }
}

fn three_numbers(version: &str) -> (numbers: Option<(u64, u64, u64)>)
    ensures
        match numbers {
            Some(numbers) => version_numbers(version@) == Some(
                (numbers.0 as int, numbers.1 as int, numbers.2 as int),
            ),
            None => version_numbers(version@) is None,
        },
{
    let parts = split(version, '.');
    let ghost all = split_at_char(version@, '.');
    assert(all.len() == parts@.len());
    if parts.len() < 3 {
        return None;
    }
    assert(all[0] == parts@[0]@ && all[1] == parts@[1]@ && all[2] == parts@[2]@);
    match (parse_u64(&parts[0]), parse_u64(&parts[1]), parse_u64(&parts[2])) {
        (Ok(major), Ok(minor), Ok(patch)) => Some((major, minor, patch)),
        _ => None,
    }
}

fn word_is_version(word: &str) -> (version: Option<String>)
    ensures
        opt_view(version) == if is_version(word@) {
            Some(without_leading(word@, 'v'))
        } else {
            None
        },
{
    let candidate = trim_start_matches(word, 'v');
    let parts = split(&candidate, '.');
    let ghost all = split_at_char(candidate@, '.');
    assert(all.len() == parts@.len());
    if parts.len() != 3 {
        return None;
    }
    let mut i: usize = 0;
    while i < parts.len()
        invariant
            i <= parts@.len(),
            parts@.len() == 3,
            all == views(parts@),
            all == split_at_char(candidate@, '.'),
            candidate@ == without_leading(word@, 'v'),
            forall|k: int| 0 <= k < i ==> is_number(#[trigger] all[k]),
        decreases parts@.len() - i,
    {
        assert(all[i as int] == parts@[i as int]@);
        if parse_u64(&parts[i]).is_err() {
            assert(!is_number(all[i as int]));
            return None;
        }
        i = i + 1;
    }
    Some(candidate)
}

impl GeCli {
    /// The CLI.
    pub fn new() -> (cli: Self)
        ensures
            cli == GeCli,
    {
        GeCli
    }

    /// The version that `ge version` reports.
    pub fn parse_version(raw: &str) -> (version: Option<String>)
        ensures
            opt_view(version) == first_version(words_of(raw@)),
    {
        let words = split_whitespace(raw);
        let mut found: Option<String> = None;
        let mut i: usize = 0;
        while i < words.len()
            invariant
                i <= words@.len(),
                opt_view(found) == first_version(views(words@).take(i as int)),
            decreases words@.len() - i,
        {
            proof {
                let seen = views(words@).take(i + 1);
                assert(seen.drop_last() =~= views(words@).take(i as int));
                assert(seen.last() == words@[i as int]@);
            }
            if found.is_none() {
                found = word_is_version(&words[i]);
            }
            i = i + 1;
        }
        assert(views(words@).take(words@.len() as int) =~= views(words@));
        found
    }

    /// Whether a version is at least another.
    pub fn version_at_least(found: &str, minimum: &str) -> (enough: bool)
        ensures
            enough == at_least(found@, minimum@),
    {
        match (three_numbers(found), three_numbers(minimum)) {
            (Some(found), Some(minimum)) => found.0 > minimum.0 || (found.0 == minimum.0 && (
            found.1 > minimum.1 || (found.1 == minimum.1 && found.2 >= minimum.2))),
            _ => false,
        }
    }

    /// Accepts the answer of `ge version` where the version is supported.
    pub fn ensure_supported_version(output: &CliOutput) -> (supported: Result<(), GeCliError>)
        ensures
            match version_failure(*output) {
                None => supported is Ok,
                Some(failure) => supported matches Err(error) && error@ == failure,
            },
    {
        if !output.success {
            return Err(GeCliError::CommandFailed(trim(&output.stderr)));
        }
        let found = match Self::parse_version(&output.stdout) {
            Some(found) => found,
            None => {
                let shown = trim(&output.stdout);
                return Err(unexpected("Could not parse `ge version` output: ", &shown));
            },
        };
        if Self::version_at_least(&found, MINIMUM_GE_VERSION) {
            Ok(())
        } else {
            Err(
                GeCliError::UnsupportedVersion { found, minimum: MINIMUM_GE_VERSION.to_owned() },
            )
        }
    }
}

// ---------------------------------------------------------------------------
// Results of commands
// ---------------------------------------------------------------------------

/// Whether an error output says that the user is not authenticated.
pub open spec fn is_auth_failure(stderr: Seq<char>) -> bool {
    let lower = lowered(stderr);
    ||| holds_text(lower, "ge auth login"@)
    ||| holds_text(lower, "not logged in"@)
    ||| holds_text(lower, "unauthorized"@)
    ||| holds_text(lower, "authentication"@)
    ||| holds_text(stderr, "请先登录"@)
    ||| holds_text(stderr, "认证无效"@)
}

/// What a run of a command means: its output, or why there is none.
pub open spec fn run_outcome(output: CliOutput) -> Result<Seq<char>, GeFailure> {
    let stderr = trimmed(output.stderr@);
    if output.success {
        Ok(output.stdout@)
    } else if is_auth_failure(stderr) {
        Err(GeFailure::AuthFailed(stderr))
    } else {
        Err(GeFailure::CommandFailed(stderr))
    }
}

impl GeCli {
    /// What a run of a command means.
    pub fn run_result(output: CliOutput) -> (result: Result<String, GeCliError>)
        ensures
            match run_outcome(output) {
                Ok(stdout) => result matches Ok(text) && text@ == stdout,
                Err(failure) => result matches Err(error) && error@ == failure,
            },
    {
        if output.success {
            return Ok(output.stdout);
        }
        let stderr = trim(&output.stderr);
        let lower = to_ascii_lowercase(&stderr);
        if contains(&lower, "ge auth login") || contains(&lower, "not logged in") || contains(
            &lower,
            "unauthorized",
        ) || contains(&lower, "authentication") || contains(&stderr, "请先登录") || contains(
            &stderr,
            "认证无效",
        ) {
            Err(GeCliError::AuthFailed(stderr))
        } else {
            Err(GeCliError::CommandFailed(stderr))
        }
    }
}

// ---------------------------------------------------------------------------
// URLs
// ---------------------------------------------------------------------------

/// The host and the path that a remote names: those of the URL, else those on
/// both sides of its first colon.
pub open spec fn remote_parts(remote: Seq<char>, url: Option<UrlView>) -> Option<
    (Seq<char>, Seq<char>),
> {
    match url {
        Some(url) => Some(
            (
                match url.host {
                    Some(host) => lowered(host),
                    None => Seq::empty(),
                },
                without_leading(url.path, '/'),
            ),
        ),
        None => match cut_at_first(remote, ':', ':') {
            Some((authority, path)) => Some(
                (
                    lowered(
                        match cut_at_last(authority, '@') {
                            Some((_, host)) => host,
                            None => authority,
                        },
                    ),
                    path,
                ),
            ),
            None => None,
        },
    }
}

/// The repository that a remote names, given what parsing it as a URL gave.
pub open spec fn repo_of(remote: Seq<char>, url: Option<UrlView>) -> Result<RepoView, GeFailure> {
    match remote_parts(remote, url) {
        None => Err(GeFailure::UnexpectedOutput("Invalid Gitee remote URL: "@ + remote)),
        Some((host, path)) => if host != "gitee.com"@ {
            Err(GeFailure::UnexpectedOutput("Expected a gitee.com URL, got: "@ + remote))
        } else {
            let segments = split_at_char(without_trailing(path, '/'), '/');
            if segments.len() >= 2 && segments[0].len() > 0 && segments[1].len() > 0 {
                Ok(
                    RepoView {
                        owner: segments[0],
                        repo_name: without_suffixes(segments[1], ".git"@),
                    },
                )
            } else {
                Err(
                    GeFailure::UnexpectedOutput(
                        "Could not extract owner/repository from Gitee URL: "@ + remote,
                    ),
                )
            }
        },
    }
}

/// The segments of a URL path.
pub open spec fn path_segments(path: Seq<char>) -> Seq<Seq<char>> {
    match without_prefix(path, "/"@) {
        Some(rest) => split_at_char(rest, '/'),
        None => Seq::empty(),
    }
}

/// The pull request that a URL names, given what parsing it gave.
pub open spec fn pr_of(pr_url: Seq<char>, url: Option<UrlView>) -> Result<
    (RepoView, int),
    GeFailure,
> {
    match url {
        None => Err(GeFailure::UnexpectedOutput("Invalid Gitee PR URL: "@ + pr_url)),
        Some(url) => if url.host != Some("gitee.com"@) {
            Err(GeFailure::UnexpectedOutput("Expected a gitee.com PR URL, got: "@ + pr_url))
        } else {
            let segments = path_segments(url.path);
            if segments.len() != 4 || segments[2] != "pulls"@ {
                Err(GeFailure::UnexpectedOutput("Unexpected Gitee PR URL format: "@ + pr_url))
            } else {
                match integer_value(segments[3], i64::MIN as int, i64::MAX as int) {
                    Ok(number) => Ok(
                        (RepoView { owner: segments[0], repo_name: segments[1] }, number),
                    ),
                    Err(error) => Err(
                        GeFailure::UnexpectedOutput(
                            "Invalid pull request number in '"@ + pr_url + "': "@
                                + int_error_text(error),
                        ),
                    ),
                }
            }
        },
    }
}

/// The model of a repository that was read or could not be.
pub open spec fn repo_outcome(repo: Result<GiteeRepoInfo, GeCliError>) -> Result<
    RepoView,
    GeFailure,
> {
    match repo {
        Ok(repo) => Ok(repo@),
        Err(error) => Err(error@),
    }
}

/// The model of a pull request that was read or could not be.
pub open spec fn pr_outcome(pr: Result<(GiteeRepoInfo, i64), GeCliError>) -> Result<
    (RepoView, int),
    GeFailure,
> {
    match pr {
        Ok((repo, number)) => Ok((repo@, number as int)),
        Err(error) => Err(error@),
    }
}

fn remote_host_and_path(remote: &str, url: &Option<UrlParts>) -> (parts: Option<(String, String)>)
    ensures
        opt_pair(parts) == remote_parts(remote@, opt_url(*url)),
{
    match url {
        Some(parts) => {
            let host = match &parts.host {
                Some(host) => to_ascii_lowercase(host),
                None => String::new(),
            };
            Some((host, trim_start_matches(&parts.path, '/')))
        },
        None => match split_once(remote, ':') {
            Some((authority, path)) => {
                let host = match rsplit_once(&authority, '@') {
                    Some((_, host)) => host,
                    None => authority,
                };
                Some((to_ascii_lowercase(&host), path))
            },
            None => None,
        },
    }
}

impl GeCli {
    /// The repository that a remote names, given what parsing it gave.
    pub fn repo_from_url(remote_url: &str, url: &Option<UrlParts>) -> (repo: Result<
        GiteeRepoInfo,
        GeCliError,
    >)
        ensures
            repo_outcome(repo) == repo_of(remote_url@, opt_url(*url)),
    {
        let (host, path) = match remote_host_and_path(remote_url, url) {
            Some(parts) => parts,
            None => {
                return Err(unexpected("Invalid Gitee remote URL: ", remote_url));
            },
        };
        if !same(&host, "gitee.com") {
            return Err(unexpected("Expected a gitee.com URL, got: ", remote_url));
        }
        let shortened = trim_end_matches(&path, '/');
        let segments = split(&shortened, '/');
        let ghost all = split_at_char(shortened@, '/');
        assert(all.len() == segments@.len());
        if segments.len() >= 2 {
            assert(all[0] == segments@[0]@ && all[1] == segments@[1]@);
            if !segments[0].as_str().is_empty() && !segments[1].as_str().is_empty() {
                proof {
                    reveal_strlit(".git");
                }
                return Ok(
                    GiteeRepoInfo {
                        owner: segments[0].clone(),
                        repo_name: trim_end_text(&segments[1], ".git"),
                    },
                );
            }
        }
        Err(unexpected("Could not extract owner/repository from Gitee URL: ", remote_url))
    }

    /// The repository that a remote names.
    pub fn parse_repo_url(remote_url: &str) -> (repo: Result<GiteeRepoInfo, GeCliError>)
        ensures
            repo_outcome(repo) == repo_of(remote_url@, url_outcome(remote_url@)),
    {
        Self::repo_from_url(remote_url, &parse_url(remote_url))
    }

    /// The pull request that a URL names, given what parsing it gave.
    pub fn pr_from_url(pr_url: &str, url: &Option<UrlParts>) -> (pr: Result<
        (GiteeRepoInfo, i64),
        GeCliError,
    >)
        ensures
            pr_outcome(pr) == pr_of(pr_url@, opt_url(*url)),
    {
        let parts = match url {
            Some(parts) => parts,
            None => {
                return Err(unexpected("Invalid Gitee PR URL: ", pr_url));
            },
        };
        let on_gitee = match &parts.host {
            Some(host) => same(host, "gitee.com"),
            None => false,
        };
        if !on_gitee {
            return Err(unexpected("Expected a gitee.com PR URL, got: ", pr_url));
        }
        let segments: Vec<String> = match strip_prefix(&parts.path, "/") {
            Some(rest) => split(&rest, '/'),
            None => {
                let none: Vec<String> = Vec::new();
                assert(views(none@) =~= Seq::empty());
                none
            },
        };
        let ghost all = path_segments(parts.path@);
        assert(views(segments@) == all);
        assert(all.len() == segments@.len());
        if segments.len() != 4 {
            return Err(unexpected("Unexpected Gitee PR URL format: ", pr_url));
        }
        assert(all[0] == segments@[0]@ && all[1] == segments@[1]@);
        assert(all[2] == segments@[2]@ && all[3] == segments@[3]@);
        if !same(&segments[2], "pulls") {
            return Err(unexpected("Unexpected Gitee PR URL format: ", pr_url));
        }
        match parse_i64(&segments[3]) {
            Ok(number) => Ok(
                (
                    GiteeRepoInfo {
                        owner: segments[0].clone(),
                        repo_name: segments[1].clone(),
                    },
                    number,
                ),
            ),
            Err(error) => Err(
                GeCliError::UnexpectedOutput(
                    concat4("Invalid pull request number in '", pr_url, "': ", error.text()),
                ),
            ),
        }
    }

    /// The pull request that a URL names.
    pub fn parse_pr_url(pr_url: &str) -> (pr: Result<(GiteeRepoInfo, i64), GeCliError>)
        ensures
            pr_outcome(pr) == pr_of(pr_url@, url_outcome(pr_url@)),
    {
        Self::pr_from_url(pr_url, &parse_url(pr_url))
    }
}

/// A repository is only read from `gitee.com` itself.
pub proof fn law_repo_is_on_gitee(remote: Seq<char>, url: Option<UrlView>)
    ensures
        repo_of(remote, url) is Ok ==> (remote_parts(remote, url) matches Some((host, _)) && host
            == "gitee.com"@),
{
}

// ---------------------------------------------------------------------------
// Command lines
// ---------------------------------------------------------------------------

/// How `ge` is told the repository.
pub open spec fn slug(repo: RepoView) -> Seq<char> {
    repo.owner + "/"@ + repo.repo_name
}

fn repo_slug(repo: &GiteeRepoInfo) -> (text: String)
    ensures
        text@ == slug(repo@),
{
    concat3(&repo.owner, "/", &repo.repo_name)
}

fn push_arg(args: &mut Vec<String>, arg: &str)
    ensures
        views(final(args)@) == views(old(args)@).push(arg@),
{
    let arg = arg.to_owned();
    proof {
        lemma_views_push(args@, arg);
    }
    args.push(arg);
}

/// The arguments that create a pull request whose body is in a file.
pub open spec fn create_args(request: CreatePrRequest, repo: RepoView, body_file: Seq<char>) -> Seq<
    Seq<char>,
> {
    let args = seq![
        "pr"@,
        "create"@,
        "--repo"@,
        slug(repo),
        "--head"@,
        request.head_branch@,
        "--base"@,
        request.base_branch@,
        "--title"@,
        request.title@,
        "--body-file"@,
        body_file,
    ];
    if request.draft == Some(true) {
        args.push("--draft"@)
    } else {
        args
    }
}

/// The body of a pull request is handed over in a file, never on the command
/// line: whatever it is, the arguments are the same.
pub proof fn law_body_is_no_argument(
    request: CreatePrRequest,
    body: Option<String>,
    repo: RepoView,
    body_file: Seq<char>,
)
    ensures
        create_args(CreatePrRequest { body, ..request }, repo, body_file) == create_args(
            request,
            repo,
            body_file,
        ),
{
}

/// The arguments that show a pull request.
pub open spec fn view_args(repo: RepoView, number: int) -> Seq<Seq<char>> {
    seq![
        "pr"@,
        "view"@,
        signed_decimal(number),
        "--repo"@,
        slug(repo),
        "--json"@,
        "number,html_url,state,merged_at"@,
    ]
}

/// The arguments that list the pull requests of a branch.
pub open spec fn branch_args(repo: RepoView, branch: Seq<char>) -> Seq<Seq<char>> {
    seq![
        "pr"@,
        "list"@,
        "--repo"@,
        slug(repo),
        "--state"@,
        "all"@,
        "--head"@,
        branch,
        "--json"@,
        "number,html_url,state,merged_at"@,
    ]
}

/// The arguments that list the open pull requests.
pub open spec fn open_args(repo: RepoView) -> Seq<Seq<char>> {
    seq![
        "pr"@,
        "list"@,
        "--repo"@,
        slug(repo),
        "--state"@,
        "open"@,
        "--json"@,
        "number,html_url,title,head,base"@,
    ]
}

/// The arguments that check a pull request out.
pub open spec fn checkout_args(repo: RepoView, number: int) -> Seq<Seq<char>> {
    seq!["pr"@, "checkout"@, signed_decimal(number), "--repo"@, slug(repo), "--force"@]
}

/// The arguments that list the comments on a pull request.
pub open spec fn comment_args(repo: RepoView, number: int) -> Seq<Seq<char>> {
    seq![
        "pr"@,
        "comment"@,
        "list"@,
        signed_decimal(number),
        "--repo"@,
        slug(repo),
        "--limit"@,
        "100"@,
    ]
}

impl GeCli {
    /// Creates a pull request; its body is in the file `body_file`.
    pub fn create_pr(
        &self,
        request: &CreatePrRequest,
        repo: &GiteeRepoInfo,
        body_file: &str,
        repo_path: &str,
    ) -> (command: GeCommand)
        ensures
            views(command.args@) == create_args(*request, repo@, body_file@),
            opt_view(command.dir) == Some(repo_path@),
    {
        let target = repo_slug(repo);
        let mut args: Vec<String> = Vec::new();
        push_arg(&mut args, "pr");
        push_arg(&mut args, "create");
        push_arg(&mut args, "--repo");
        push_arg(&mut args, &target);
        push_arg(&mut args, "--head");
        push_arg(&mut args, &request.head_branch);
        push_arg(&mut args, "--base");
        push_arg(&mut args, &request.base_branch);
        push_arg(&mut args, "--title");
        push_arg(&mut args, &request.title);
        push_arg(&mut args, "--body-file");
        push_arg(&mut args, body_file);
        let draft = match request.draft {
            Some(true) => true,
            _ => false,
        };
        if draft {
            push_arg(&mut args, "--draft");
        }
        assert(views(args@) =~= create_args(*request, repo@, body_file@));
        GeCommand { args, dir: Some(repo_path.to_owned()) }
    }

    /// Shows the pull request that a URL names.
    pub fn view_pr(&self, pr_url: &str) -> (command: Result<GeCommand, GeCliError>)
        ensures
            match pr_of(pr_url@, url_outcome(pr_url@)) {
                Ok((repo, number)) => command matches Ok(command) && views(command.args@)
                    == view_args(repo, number) && command.dir is None,
                Err(failure) => command matches Err(error) && error@ == failure,
            },
    {
        match Self::parse_pr_url(pr_url) {
            Ok((repo, number)) => Ok(self.view_number(&repo, number)),
            Err(error) => Err(error),
        }
    }

    /// Shows a pull request.
    pub fn view_number(&self, repo: &GiteeRepoInfo, number: i64) -> (command: GeCommand)
        ensures
            views(command.args@) == view_args(repo@, number as int),
            command.dir is None,
    {
        let target = repo_slug(repo);
        let number_text = signed_decimal_text(number);
        let mut args: Vec<String> = Vec::new();
        push_arg(&mut args, "pr");
        push_arg(&mut args, "view");
        push_arg(&mut args, &number_text);
        push_arg(&mut args, "--repo");
        push_arg(&mut args, &target);
        push_arg(&mut args, "--json");
        push_arg(&mut args, "number,html_url,state,merged_at");
        assert(views(args@) =~= view_args(repo@, number as int));
        GeCommand { args, dir: None }
    }

    /// Lists the pull requests of a branch.
    pub fn list_prs_for_branch(&self, repo: &GiteeRepoInfo, branch: &str) -> (command: GeCommand)
        ensures
            views(command.args@) == branch_args(repo@, branch@),
            command.dir is None,
    {
        let target = repo_slug(repo);
        let mut args: Vec<String> = Vec::new();
        push_arg(&mut args, "pr");
        push_arg(&mut args, "list");
        push_arg(&mut args, "--repo");
        push_arg(&mut args, &target);
        push_arg(&mut args, "--state");
        push_arg(&mut args, "all");
        push_arg(&mut args, "--head");
        push_arg(&mut args, branch);
        push_arg(&mut args, "--json");
        push_arg(&mut args, "number,html_url,state,merged_at");
        assert(views(args@) =~= branch_args(repo@, branch@));
        GeCommand { args, dir: None }
    }

    /// Lists the open pull requests.
    pub fn list_open_prs(&self, repo: &GiteeRepoInfo) -> (command: GeCommand)
        ensures
            views(command.args@) == open_args(repo@),
            command.dir is None,
    {
        let target = repo_slug(repo);
        let mut args: Vec<String> = Vec::new();
        push_arg(&mut args, "pr");
        push_arg(&mut args, "list");
        push_arg(&mut args, "--repo");
        push_arg(&mut args, &target);
        push_arg(&mut args, "--state");
        push_arg(&mut args, "open");
        push_arg(&mut args, "--json");
        push_arg(&mut args, "number,html_url,title,head,base");
        assert(views(args@) =~= open_args(repo@));
        GeCommand { args, dir: None }
    }

    /// Checks a pull request out.
    pub fn checkout_pr(&self, repo_path: &str, repo: &GiteeRepoInfo, pr_number: i64) -> (command:
        GeCommand)
        ensures
            views(command.args@) == checkout_args(repo@, pr_number as int),
            opt_view(command.dir) == Some(repo_path@),
    {
        let target = repo_slug(repo);
        let number_text = signed_decimal_text(pr_number);
        let mut args: Vec<String> = Vec::new();
        push_arg(&mut args, "pr");
        push_arg(&mut args, "checkout");
        push_arg(&mut args, &number_text);
        push_arg(&mut args, "--repo");
        push_arg(&mut args, &target);
        push_arg(&mut args, "--force");
        assert(views(args@) =~= checkout_args(repo@, pr_number as int));
        GeCommand { args, dir: Some(repo_path.to_owned()) }
    }

    /// Lists the comments on a pull request.
    pub fn get_pr_comments(&self, repo: &GiteeRepoInfo, pr_number: i64) -> (command: GeCommand)
        ensures
            views(command.args@) == comment_args(repo@, pr_number as int),
            command.dir is None,
    {
        let target = repo_slug(repo);
        let number_text = signed_decimal_text(pr_number);
        let mut args: Vec<String> = Vec::new();
        push_arg(&mut args, "pr");
        push_arg(&mut args, "comment");
        push_arg(&mut args, "list");
        push_arg(&mut args, &number_text);
        push_arg(&mut args, "--repo");
        push_arg(&mut args, &target);
        push_arg(&mut args, "--limit");
        push_arg(&mut args, "100");
        assert(views(args@) =~= comment_args(repo@, pr_number as int));
        GeCommand { args, dir: None }
    }
}

// ---------------------------------------------------------------------------
// Answers
// ---------------------------------------------------------------------------

/// What `chrono::DateTime::parse_from_rfc3339` makes of a text: the moment, or
/// nothing where the text is none.
pub uninterp spec fn rfc3339_outcome(text: Seq<char>) -> Option<Timestamp>;

/// Parses a moment with `chrono::DateTime::parse_from_rfc3339`, and takes its
/// seconds since the Unix epoch and the nanoseconds after them. The outcome
/// depends on the text alone.
#[verifier::external_body]
pub(crate) fn parse_rfc3339(text: &str) -> (moment: Option<Timestamp>)
    ensures
        moment == rfc3339_outcome(text@),
{
    chrono::DateTime::parse_from_rfc3339(text).ok().map(|moment| Timestamp {
        seconds: moment.timestamp(),
        nanos: moment.timestamp_subsec_nanos(),
    })
}

/// A pull request, as `ge` reports it. The branches are the names in `head`
/// and `base`, where those are reported.
#[derive(Debug, PartialEq, Eq)]
pub struct GePrResponse {
    pub number: i64,
    pub html_url: String,
    pub state: String,
    pub merged_at: Option<String>,
    pub head: Option<String>,
    pub base: Option<String>,
    pub title: String,
}

/// The merge date to be read: Gitee reports an unset one as year 1 instead of
/// leaving it out.
pub open spec fn merge_date(pr: GePrResponse) -> Option<Seq<char>> {
    match pr.merged_at {
        Some(value) => if begins_with(value@, "0001-01-01"@) {
            None
        } else {
            Some(value@)
        },
        None => None,
    }
}

/// The status that a state names.
pub open spec fn status_of(state: Seq<char>) -> MergeStatus {
    let lower = lowered(state);
    if lower == "open"@ {
        MergeStatus::Open
    } else if lower == "merged"@ {
        MergeStatus::Merged
    } else if lower == "closed"@ {
        MergeStatus::Closed
    } else {
        MergeStatus::Unknown
    }
}

/// The pull request that a report is, given the moment of its merge.
pub open spec fn pr_info(pr: GePrResponse, merged_at: Option<Timestamp>) -> PrView {
    PrView {
        number: pr.number,
        url: pr.html_url@,
        status: if merged_at is Some {
            MergeStatus::Merged
        } else {
            status_of(pr.state@)
        },
        merged_at,
        merge_commit_sha: None,
    }
}

/// The moment of the merge that a report gives.
pub open spec fn merge_moment(pr: GePrResponse) -> Option<Timestamp> {
    match merge_date(pr) {
        Some(date) => rfc3339_outcome(date),
        None => None,
    }
}

/// The branch that a report names, or nothing.
pub open spec fn branch_name(branch: Option<String>) -> Seq<char> {
    match branch {
        Some(branch) => branch@,
        None => Seq::empty(),
    }
}

/// Model of [`OpenPrInfo`].
pub struct OpenPrView {
    pub number: i64,
    pub url: Seq<char>,
    pub title: Seq<char>,
    pub head_branch: Seq<char>,
    pub base_branch: Seq<char>,
}

impl View for OpenPrInfo {
    type V = OpenPrView;

    open spec fn view(&self) -> OpenPrView {
        OpenPrView {
            number: self.number,
            url: self.url@,
            title: self.title@,
            head_branch: self.head_branch@,
            base_branch: self.base_branch@,
        }
    }
}

/// The open pull request that a report is.
pub open spec fn open_pr_info(pr: GePrResponse) -> OpenPrView {
    OpenPrView {
        number: pr.number,
        url: pr.html_url@,
        title: pr.title@,
        head_branch: branch_name(pr.head),
        base_branch: branch_name(pr.base),
    }
}

/// The models of pull requests.
pub open spec fn pr_views(prs: Seq<PullRequestInfo>) -> Seq<PrView> {
    prs.map_values(|pr: PullRequestInfo| pr@)
}

/// The models of open pull requests.
pub open spec fn open_pr_views(prs: Seq<OpenPrInfo>) -> Seq<OpenPrView> {
    prs.map_values(|pr: OpenPrInfo| pr@)
}

/// The failure for an answer that is not the JSON it should be.
pub open spec fn bad_json(label: Seq<char>, message: Seq<char>, raw: Seq<char>) -> GeFailure {
    GeFailure::UnexpectedOutput(label + message + "; raw: "@ + raw)
}

fn bad_json_error(label: &str, message: &str, raw: &str) -> (error: GeCliError)
    ensures
        error@ == bad_json(label@, message@, raw@),
{
    GeCliError::UnexpectedOutput(concat4(label, message, "; raw: ", raw))
}

/// Whether a word is the URL of a pull request.
pub open spec fn is_pr_word(word: Seq<char>) -> bool {
    begins_with(word, "https://gitee.com/"@) && holds_text(word, "/pulls/"@)
}

/// The first URL of a pull request among words.
pub open spec fn first_pr_word(words: Seq<Seq<char>>) -> Option<Seq<char>>
    decreases words.len(),
{
    if words.len() == 0 {
        None
    } else {
        match first_pr_word(words.drop_last()) {
            Some(word) => Some(word),
            None => if is_pr_word(words.last()) {
                Some(words.last())
            } else {
                None
            },
        }
    }
}

/// `s` without the full stops, commas and semicolons at its end.
pub open spec fn without_punctuation(s: Seq<char>) -> Seq<char>
    decreases s.len(),
{
    if s.len() > 0 && (s.last() == '.' || s.last() == ',' || s.last() == ';') {
        without_punctuation(s.drop_last())
    } else {
        s
    }
}

/// The URL that `ge pr create` reports.
pub open spec fn created_url(raw: Seq<char>) -> Option<Seq<char>> {
    match first_pr_word(words_of(raw)) {
        Some(word) => Some(without_punctuation(word)),
        None => None,
    }
}

/// The pull request that was created, given what its URL names.
pub open spec fn created_pr(url: Seq<char>, named: Result<(RepoView, int), GeFailure>) -> Result<
    PrView,
    GeFailure,
> {
    match named {
        Ok((_, number)) => Ok(
            PrView {
                number: number as i64,
                url,
                status: MergeStatus::Open,
                merged_at: None,
                merge_commit_sha: None,
            },
        ),
        Err(failure) => Err(failure),
    }
}

fn strip_punctuation(word: &str) -> (stripped: String)
    ensures
        stripped@ == without_punctuation(word@),
{
    let chars = crate::text::chars_of(word);
    let mut to: usize = chars.len();
    assert(chars@.take(to as int) =~= chars@);
    while to > 0 && (chars[to - 1] == '.' || chars[to - 1] == ',' || chars[to - 1] == ';')
        invariant
            to <= chars@.len(),
            without_punctuation(chars@) == without_punctuation(chars@.take(to as int)),
        decreases to,
    {
        assert(chars@.take(to as int).drop_last() =~= chars@.take(to - 1));
        to = to - 1;
    }
    assert(chars@.take(to as int) =~= chars@.subrange(0, to as int));
    crate::text::string_between(&chars, 0, to)
}

impl GeCli {
    /// The URL that `ge pr create` reports.
    pub fn find_created_url(raw: &str) -> (url: Option<String>)
        ensures
            opt_view(url) == created_url(raw@),
    {
        let words = split_whitespace(raw);
        let mut found: Option<String> = None;
        let mut i: usize = 0;
        while i < words.len()
            invariant
                i <= words@.len(),
                opt_view(found) == first_pr_word(views(words@).take(i as int)),
            decreases words@.len() - i,
        {
            proof {
                let seen = views(words@).take(i + 1);
                assert(seen.drop_last() =~= views(words@).take(i as int));
                assert(seen.last() == words@[i as int]@);
            }
            if found.is_none() && starts_with(&words[i], "https://gitee.com/") && contains(
                &words[i],
                "/pulls/",
            ) {
                found = Some(words[i].clone());
            }
            i = i + 1;
        }
        assert(views(words@).take(words@.len() as int) =~= views(words@));
        match found {
            Some(word) => Some(strip_punctuation(&word)),
            None => None,
        }
    }

    /// The pull request that `ge pr create` reports.
    pub fn parse_create_output(raw: &str) -> (pr: Result<PullRequestInfo, GeCliError>)
        ensures
            ({
                let expected = match created_url(raw@) {
                    Some(url) => created_pr(url, pr_of(url, url_outcome(url))),
                    None => Err(
                        GeFailure::UnexpectedOutput(
                            "`ge pr create` did not return a pull request URL; raw: "@ + raw@,
                        ),
                    ),
                };
                match pr {
                    Ok(pr) => expected == Ok::<PrView, GeFailure>(pr@),
                    Err(error) => expected == Err::<PrView, GeFailure>(error@),
                }
            }),
    {
        let url = match Self::find_created_url(raw) {
            Some(url) => url,
            None => {
                return Err(
                    unexpected("`ge pr create` did not return a pull request URL; raw: ", raw),
                );
            },
        };
        match Self::parse_pr_url(&url) {
            Ok((_, number)) => Ok(
                PullRequestInfo {
                    number,
                    url,
                    status: MergeStatus::Open,
                    merged_at: None,
                    merge_commit_sha: None,
                },
            ),
            Err(error) => Err(error),
        }
    }

    /// The pull request that a report is, given the moment of its merge.
    pub fn pr_info_from(pr: GePrResponse, merged_at: Option<Timestamp>) -> (info: PullRequestInfo)
        ensures
            info@ == pr_info(pr, merged_at),
    {
        let status = if merged_at.is_some() {
            MergeStatus::Merged
        } else {
            let state = to_ascii_lowercase(&pr.state);
            if same(&state, "open") {
                MergeStatus::Open
            } else if same(&state, "merged") {
                MergeStatus::Merged
            } else if same(&state, "closed") {
                MergeStatus::Closed
            } else {
                MergeStatus::Unknown
            }
        };
        PullRequestInfo {
            number: pr.number,
            url: pr.html_url,
            status,
            merged_at,
            merge_commit_sha: None,
        }
    }

    /// The merge date to be read in a report.
    pub fn merge_date_of(pr: &GePrResponse) -> (date: Option<String>)
        ensures
            opt_view(date) == merge_date(*pr),
    {
        match &pr.merged_at {
            Some(value) => if starts_with(value, "0001-01-01") {
                None
            } else {
                Some(value.clone())
            },
            None => None,
        }
    }

    /// The pull request that a report is.
    pub fn to_pr_info(pr: GePrResponse) -> (info: PullRequestInfo)
        ensures
            info@ == pr_info(pr, merge_moment(pr)),
    {
        let merged_at = match Self::merge_date_of(&pr) {
            Some(date) => parse_rfc3339(&date),
            None => None,
        };
        Self::pr_info_from(pr, merged_at)
    }

    /// The pull request in an answer, given what decoding it gave.
    pub fn parse_pr_view(raw: &str, decoded: Result<GePrResponse, String>) -> (pr: Result<
        PullRequestInfo,
        GeCliError,
    >)
        ensures
            match decoded {
                Ok(response) => pr matches Ok(pr) && pr@ == pr_info(
                    response,
                    merge_moment(response),
                ),
                Err(message) => pr matches Err(error) && error@ == bad_json(
                    "Failed to parse PR JSON: "@,
                    message@,
                    raw@,
                ),
            },
    {
        match decoded {
            Ok(response) => Ok(Self::to_pr_info(response)),
            Err(message) => Err(bad_json_error("Failed to parse PR JSON: ", &message, raw)),
        }
    }

    /// The pull requests in an answer, given what decoding it gave. An empty
    /// answer lists none.
    pub fn parse_pr_list(raw: &str, decoded: Result<Vec<GePrResponse>, String>) -> (prs: Result<
        Vec<PullRequestInfo>,
        GeCliError,
    >)
        ensures
            if trimmed(raw@).len() == 0 {
                prs matches Ok(prs) && prs@.len() == 0
            } else {
                match decoded {
                    Ok(responses) => prs matches Ok(prs) && pr_views(prs@) == responses@.map_values(
                        |response: GePrResponse| pr_info(response, merge_moment(response)),
                    ),
                    Err(message) => prs matches Err(error) && error@ == bad_json(
                        "Failed to parse PR list JSON: "@,
                        message@,
                        raw@,
                    ),
                }
            },
    {
        if is_blank(raw) {
            return Ok(Vec::new());
        }
        match decoded {
            Ok(responses) => {
                let mut prs: Vec<PullRequestInfo> = Vec::new();
                for response in it: responses
                    invariant
                        it.seq() == responses@,
                        prs@.len() == it.index(),
                        forall|k: int|
                            0 <= k < it.index() ==> (#[trigger] prs@[k])@ == pr_info(
                                responses@[k],
                                merge_moment(responses@[k]),
                            ),
                {
                    prs.push(Self::to_pr_info(response));
                }
                assert(pr_views(prs@) =~= responses@.map_values(
                    |response: GePrResponse| pr_info(response, merge_moment(response)),
                ));
                Ok(prs)
            },
            Err(message) => Err(bad_json_error("Failed to parse PR list JSON: ", &message, raw)),
        }
    }

    /// The open pull requests in an answer, given what decoding it gave. An
    /// empty answer lists none.
    pub fn parse_open_pr_list(raw: &str, decoded: Result<Vec<GePrResponse>, String>) -> (prs:
        Result<Vec<OpenPrInfo>, GeCliError>)
        ensures
            if trimmed(raw@).len() == 0 {
                prs matches Ok(prs) && prs@.len() == 0
            } else {
                match decoded {
                    Ok(responses) => prs matches Ok(prs) && open_pr_views(prs@)
                        == responses@.map_values(
                        |response: GePrResponse| open_pr_info(response),
                    ),
                    Err(message) => prs matches Err(error) && error@ == bad_json(
                        "Failed to parse open PR JSON: "@,
                        message@,
                        raw@,
                    ),
                }
            },
    {
        if is_blank(raw) {
            return Ok(Vec::new());
        }
        match decoded {
            Ok(responses) => {
                let mut prs: Vec<OpenPrInfo> = Vec::new();
                for response in it: responses
                    invariant
                        it.seq() == responses@,
                        prs@.len() == it.index(),
                        forall|k: int|
                            0 <= k < it.index() ==> (#[trigger] prs@[k])@ == open_pr_info(
                                responses@[k],
                            ),
                {
                    let head_branch = match response.head {
                        Some(branch) => branch,
                        None => String::new(),
                    };
                    let base_branch = match response.base {
                        Some(branch) => branch,
                        None => String::new(),
                    };
                    prs.push(
                        OpenPrInfo {
                            number: response.number,
                            url: response.html_url,
                            title: response.title,
                            head_branch,
                            base_branch,
                        },
                    );
                }
                assert(open_pr_views(prs@) =~= responses@.map_values(
                    |response: GePrResponse| open_pr_info(response),
                ));
                Ok(prs)
            },
            Err(message) => Err(bad_json_error("Failed to parse open PR JSON: ", &message, raw)),
        }
    }
}

/// A pull request that Gitee reports with the zero date has not been merged on
/// that account: its status is the one that its state names.
pub proof fn law_zero_date_is_no_merge(pr: GePrResponse)
    requires
        pr.merged_at matches Some(value) && begins_with(value@, "0001-01-01"@),
    ensures
        pr_info(pr, merge_moment(pr)).merged_at is None,
        pr_info(pr, merge_moment(pr)).status == status_of(pr.state@),
{
}

// ---------------------------------------------------------------------------
// Comments
// ---------------------------------------------------------------------------

/// The text of the moment at which a comment was made.
pub open spec fn created_text(block: Seq<char>) -> Option<Seq<char>> {
    let block_lines = lines_of(block);
    if block_lines.len() > 2 {
        without_prefix(trimmed(block_lines[2]), "Created: "@)
    } else {
        None
    }
}

/// The comment that a block is, given the moment at which it was made.
pub open spec fn comment_of(block: Seq<char>, created_at: Option<Timestamp>) -> Result<
    CommentView,
    Seq<char>,
> {
    let block_lines = lines_of(block);
    let id = if block_lines.len() > 0 {
        integer_value(trimmed(block_lines[0]), i64::MIN as int, i64::MAX as int)
    } else {
        Err(IntError::Empty)
    };
    let author = if block_lines.len() > 1 {
        without_prefix(trimmed(block_lines[1]), "Author: "@)
    } else {
        None
    };
    let body = if block_lines.len() > 3 {
        without_prefix(trimmed_start(block_lines[3]), "Body: "@)
    } else {
        None
    };
    match (id, author, created_at, body) {
        (Err(_), _, _, _) => Err("Invalid comment block: "@ + block),
        (Ok(_), None, _, _) => Err("Missing comment author: "@ + block),
        (Ok(_), Some(_), None, _) => Err("Invalid comment timestamp: "@ + block),
        (Ok(_), Some(_), Some(_), None) => Err("Missing comment body: "@ + block),
        (Ok(id), Some(author), Some(created_at), Some(first)) => Ok(
            CommentView {
                id: signed_decimal(id),
                author,
                author_association: None,
                body: trimmed_end(joined(seq![first] + block_lines.skip(4), "\n"@)),
                created_at,
                url: None,
            },
        ),
    }
}

/// The moment at which a comment was made.
pub open spec fn created_moment(block: Seq<char>) -> Option<Timestamp> {
    match created_text(block) {
        Some(text) => rfc3339_outcome(text),
        None => None,
    }
}

/// The comments that blocks are; the first bad block decides.
pub open spec fn comments_of(blocks: Seq<Seq<char>>) -> Result<Seq<CommentView>, Seq<char>>
    decreases blocks.len(),
{
    if blocks.len() == 0 {
        Ok(Seq::empty())
    } else {
        match comments_of(blocks.drop_last()) {
            Err(message) => Err(message),
            Ok(comments) => match comment_of(blocks.last(), created_moment(blocks.last())) {
                Ok(comment) => Ok(comments.push(comment)),
                Err(message) => Err(message),
            },
        }
    }
}

/// The order of comments, by when they were made.
pub open spec fn by_moment() -> spec_fn(CommentView, CommentView) -> bool {
    |a: CommentView, b: CommentView| not_after(a.created_at, b.created_at)
}

/// The blocks of an answer: what follows each comment mark.
pub open spec fn comment_blocks(raw: Seq<char>) -> Seq<Seq<char>> {
    split_from(raw, "  Comment #"@, 0).skip(1)
}

/// The comments in an answer, oldest first.
pub open spec fn comment_list(raw: Seq<char>) -> Result<Seq<CommentView>, Seq<char>> {
    if trimmed(raw).len() == 0 || holds_text(raw, "No comments found"@) {
        Ok(Seq::empty())
    } else {
        match comments_of(comment_blocks(raw)) {
            Err(message) => Err(message),
            Ok(comments) => if comments.len() == 0 {
                Err("Failed to parse `ge pr comment list` output: "@ + raw)
            } else {
                Ok(stable_sort(comments, by_moment()))
            },
        }
    }
}

/// The models of comments.
pub open spec fn comment_views(comments: Seq<UnifiedPrComment>) -> Seq<CommentView> {
    comments.map_values(|comment: UnifiedPrComment| comment@)
}

fn created_line(block: &str) -> (text: Option<String>)
    ensures
        opt_view(text) == created_text(block@),
{
    let block_lines = lines(block);
    let ghost all = lines_of(block@);
    assert(all.len() == block_lines@.len());
    if block_lines.len() > 2 {
        assert(all[2] == block_lines@[2]@);
        let line = trim(&block_lines[2]);
        strip_prefix(&line, "Created: ")
    } else {
        None
    }
}

fn body_text(first: String, block_lines: &Vec<String>) -> (body: String)
    requires
        block_lines@.len() > 3,
    ensures
        body@ == trimmed_end(joined(seq![first@] + views(block_lines@).skip(4), "\n"@)),
{
    let ghost rest = views(block_lines@).skip(4);
    let ghost opening = first@;
    let mut parts: Vec<String> = Vec::new();
    parts.push(first);
    let mut i: usize = 4;
    assert(views(parts@) =~= seq![opening] + rest.take(0));
    while i < block_lines.len()
        invariant
            4 <= i <= block_lines@.len(),
            rest == views(block_lines@).skip(4),
            views(parts@) == seq![opening] + rest.take(i - 4),
        decreases block_lines@.len() - i,
    {
        let line = block_lines[i].clone();
        proof {
            lemma_views_push(parts@, line);
            assert(rest[i - 4] == line@);
            assert(rest.take(i - 4 + 1) =~= rest.take(i - 4).push(line@));
            assert((seq![opening] + rest.take(i - 4)).push(line@) =~= seq![opening] + rest.take(
                i - 4,
            ).push(line@));
        }
        parts.push(line);
        i = i + 1;
    }
    assert(rest.take(block_lines@.len() - 4) =~= rest);
    let text = join(&parts, "\n");
    trim_end(&text)
}

impl GeCli {
    /// The comment that a block is, given the moment at which it was made.
    pub fn comment_from_block(block: &str, created_at: Option<Timestamp>) -> (comment: Result<
        UnifiedPrComment,
        String,
    >)
        ensures
            match comment {
                Ok(comment) => comment_of(block@, created_at) == Ok::<CommentView, Seq<char>>(
                    comment@,
                ),
                Err(message) => comment_of(block@, created_at) == Err::<CommentView, Seq<char>>(
                    message@,
                ),
            },
    {
        let block_lines = lines(block);
        let ghost all = lines_of(block@);
        assert(all.len() == block_lines@.len());
        let id: i64 = if block_lines.len() > 0 {
            assert(all[0] == block_lines@[0]@);
            let line = trim(&block_lines[0]);
            match parse_i64(&line) {
                Ok(id) => id,
                Err(_) => {
                    return Err(concat2("Invalid comment block: ", block));
                },
            }
        } else {
            return Err(concat2("Invalid comment block: ", block));
        };
        let author = if block_lines.len() > 1 {
            assert(all[1] == block_lines@[1]@);
            let line = trim(&block_lines[1]);
            strip_prefix(&line, "Author: ")
        } else {
            None
        };
        let author = match author {
            Some(author) => author,
            None => {
                return Err(concat2("Missing comment author: ", block));
            },
        };
        let created_at = match created_at {
            Some(created_at) => created_at,
            None => {
                return Err(concat2("Invalid comment timestamp: ", block));
            },
        };
        let first = if block_lines.len() > 3 {
            assert(all[3] == block_lines@[3]@);
            let line = trim_start(&block_lines[3]);
            strip_prefix(&line, "Body: ")
        } else {
            None
        };
        let first = match first {
            Some(first) => first,
            None => {
                return Err(concat2("Missing comment body: ", block));
            },
        };
        Ok(
            UnifiedPrComment::General {
                id: signed_decimal_text(id),
                author,
                author_association: None,
                body: body_text(first, &block_lines),
                created_at,
                url: None,
            },
        )
    }

    /// The comments that `ge pr comment list` reports, oldest first.
    pub fn parse_comments(raw: &str) -> (comments: Result<Vec<UnifiedPrComment>, GeCliError>)
        ensures
            match comments {
                Ok(comments) => comment_list(raw@) == Ok::<Seq<CommentView>, Seq<char>>(
                    comment_views(comments@),
                ),
                Err(error) => comment_list(raw@) matches Err(message) && error@
                    == GeFailure::UnexpectedOutput(message),
            },
    {
        if is_blank(raw) || contains(raw, "No comments found") {
            let none: Vec<UnifiedPrComment> = Vec::new();
            assert(comment_views(none@) =~= Seq::empty());
            return Ok(none);
        }
        proof {
            reveal_strlit("  Comment #");
        }
        let blocks = split_text(raw, "  Comment #");
        let ghost all = comment_blocks(raw@);
        proof {
            lemma_split_from_nonempty(raw@, "  Comment #"@);
            assert(all =~= views(blocks@).skip(1));
        }
        let mut comments: Vec<UnifiedPrComment> = Vec::new();
        let mut i: usize = 1;
        assert(comment_views(comments@) =~= Seq::empty());
        assert(all.take(0) =~= Seq::empty());
        while i < blocks.len()
            invariant
                1 <= i <= blocks@.len(),
                all == views(blocks@).skip(1),
                comments_of(all.take(i - 1)) == Ok::<Seq<CommentView>, Seq<char>>(
                    comment_views(comments@),
                ),
                all == comment_blocks(raw@),
                !(trimmed(raw@).len() == 0 || holds_text(raw@, "No comments found"@)),
            decreases blocks@.len() - i,
        {
            let block = &blocks[i];
            proof {
                let seen = all.take(i - 1 + 1);
                assert(seen.drop_last() =~= all.take(i - 1));
                assert(seen.last() == block@);
                if comments_of(seen) is Err {
                    lemma_comments_error_stays(all, i - 1 + 1);
                }
            }
            let created_at = match created_line(block) {
                Some(text) => parse_rfc3339(&text),
                None => None,
            };
            match Self::comment_from_block(block, created_at) {
                Ok(comment) => {
                    let ghost before = comments@;
                    comments.push(comment);
                    assert(comment_views(comments@) =~= comment_views(before).push(comment@));
                },
                Err(message) => {
                    return Err(GeCliError::UnexpectedOutput(message));
                },
            }
            i = i + 1;
        }
        assert(all.take(all.len() as int) =~= all);
        if comments.len() == 0 {
            return Err(unexpected("Failed to parse `ge pr comment list` output: ", raw));
        }
        proof {
            lemma_sort_map(
                comments@,
                |comment: UnifiedPrComment| comment@,
                order_of::<UnifiedPrComment>(),
                by_moment(),
            );
        }
        Ok(sort(comments))
    }
}

proof fn lemma_split_from_nonempty(s: Seq<char>, separator: Seq<char>)
    requires
        separator.len() > 0,
    ensures
        split_from(s, separator, 0).len() >= 1,
{
}

proof fn lemma_comments_error_stays(blocks: Seq<Seq<char>>, seen: int)
    requires
        0 <= seen <= blocks.len(),
        comments_of(blocks.take(seen)) is Err,
    ensures
        comments_of(blocks) == comments_of(blocks.take(seen)),
    decreases blocks.len(),
{
    if seen == blocks.len() {
        assert(blocks.take(seen) =~= blocks);
    } else {
        assert(blocks.drop_last().take(seen) =~= blocks.take(seen));
        lemma_comments_error_stays(blocks.drop_last(), seen);
    }
}

/// Comments are listed oldest first, and each of them once.
pub proof fn law_comments_are_in_order(comments: Seq<CommentView>)
    ensures
        is_sorted(stable_sort(comments, by_moment()), by_moment()),
        stable_sort(comments, by_moment()).to_multiset() == comments.to_multiset(),
{
    let le = by_moment();
    assert(is_order(le));
    law_sort_orders_the_same_items(comments, le);
}

// ---------------------------------------------------------------------------
// Laws of commands and answers
// ---------------------------------------------------------------------------

/// Each failure of `ge` has a message that says what it is, with the versions or
/// the text that it is about.
pub proof fn law_ge_failures_have_messages(text: Seq<char>, found: Seq<char>, minimum: Seq<char>)
    ensures
        ge_message(GeFailure::NotAvailable)
            == "Gitee CLI (`ge`) executable not found or not runnable"@,
        ge_message((GeFailure::UnsupportedVersion { found, minimum })) == "Gitee CLI version "@
            + found + " is unsupported; version "@ + minimum + " or newer is required"@,
        ge_message(GeFailure::CommandFailed(text)) == "Gitee CLI command failed: "@ + redacted(
            text,
        ),
        ge_message(GeFailure::AuthFailed(text)) == "Gitee CLI authentication failed: "@ + redacted(
            text,
        ),
        ge_message(GeFailure::UnexpectedOutput(text)) == "Gitee CLI returned unexpected output: "@
            + redacted(text),
{
}

/// The text of a version of three numbers.
pub open spec fn version_text(major: nat, minor: nat, patch: nat) -> Seq<char> {
    decimal(major).push('.') + decimal(minor).push('.') + decimal(patch)
}

/// Versions are ordered by their numbers, the first one that differs, and not by
/// their texts: 5.21.0 is newer than 5.9.9.
pub proof fn law_versions_are_ordered_by_number(
    major: nat,
    minor: nat,
    patch: nat,
    other_major: nat,
    other_minor: nat,
    other_patch: nat,
)
    requires
        major <= u64::MAX,
        minor <= u64::MAX,
        patch <= u64::MAX,
        other_major <= u64::MAX,
        other_minor <= u64::MAX,
        other_patch <= u64::MAX,
    ensures
        major > other_major ==> at_least(
            version_text(major, minor, patch),
            version_text(other_major, other_minor, other_patch),
        ),
        major < other_major ==> !at_least(
            version_text(major, minor, patch),
            version_text(other_major, other_minor, other_patch),
        ),
        major == other_major && minor > other_minor ==> at_least(
            version_text(major, minor, patch),
            version_text(other_major, other_minor, other_patch),
        ),
        major == other_major && minor < other_minor ==> !at_least(
            version_text(major, minor, patch),
            version_text(other_major, other_minor, other_patch),
        ),
        major == other_major && minor == other_minor ==> (at_least(
            version_text(major, minor, patch),
            version_text(other_major, other_minor, other_patch),
        ) <==> patch >= other_patch),
{
    lemma_version_is_read(major, minor, patch);
    lemma_version_is_read(other_major, other_minor, other_patch);
}

proof fn lemma_decimal_has_no(n: nat, c: char)
    requires
        !is_digit(c),
    ensures
        !decimal(n).contains(c),
        decimal(n).len() > 0,
    decreases n,
{
    if n < 10 {
        assert(digit_char(n) as u32 == 48 + n);
    } else {
        lemma_decimal_has_no(n / 10, c);
        assert(digit_char(n % 10) as u32 == 48 + n % 10);
        if decimal(n).contains(c) {
            let k = choose|k: int| 0 <= k < decimal(n).len() && decimal(n)[k] == c;
            if k < decimal(n / 10).len() {
                assert(decimal(n / 10)[k] == c);
            }
        }
    }
}

proof fn lemma_version_is_read(major: nat, minor: nat, patch: nat)
    requires
        major <= u64::MAX,
        minor <= u64::MAX,
        patch <= u64::MAX,
    ensures
        version_numbers(version_text(major, minor, patch)) == Some(
            (major as int, minor as int, patch as int),
        ),
        split_at_char(version_text(major, minor, patch), '.') == seq![
            decimal(major),
            decimal(minor),
            decimal(patch),
        ],
{
    lemma_decimal_has_no(major, '.');
    lemma_decimal_has_no(minor, '.');
    lemma_decimal_has_no(patch, '.');
    lemma_split_one_piece(decimal(major), '.');
    lemma_split_one_more(decimal(major), '.', decimal(minor));
    let two = decimal(major).push('.') + decimal(minor);
    lemma_split_one_more(two, '.', decimal(patch));
    assert(two.push('.') + decimal(patch) =~= version_text(major, minor, patch));
    assert(seq![decimal(major)].push(decimal(minor)).push(decimal(patch)) =~= seq![
        decimal(major),
        decimal(minor),
        decimal(patch),
    ]);
    law_written_numbers_are_read_back(major as int, 0, u64::MAX as int);
    law_written_numbers_are_read_back(minor as int, 0, u64::MAX as int);
    law_written_numbers_are_read_back(patch as int, 0, u64::MAX as int);
}

/// The version of `ge` is the first of the words it prints that is three numbers
/// with dots between, after any number of `v`.
pub proof fn law_first_version_is_read(
    words: Seq<Seq<char>>,
    at: int,
    major: nat,
    minor: nat,
    patch: nat,
)
    requires
        0 <= at < words.len(),
        major <= u64::MAX,
        minor <= u64::MAX,
        patch <= u64::MAX,
        words[at] == version_text(major, minor, patch) || words[at] == seq!['v'] + version_text(
            major,
            minor,
            patch,
        ),
        forall|k: int| 0 <= k < at ==> !is_version(#[trigger] words[k]),
    ensures
        first_version(words) == Some(version_text(major, minor, patch)),
{
    let text = version_text(major, minor, patch);
    lemma_version_is_read(major, minor, patch);
    lemma_decimal_has_no(major, 'v');
    assert(text[0] == decimal(major)[0]);
    assert(decimal(major).contains(decimal(major)[0]));
    assert((seq!['v'] + text).skip(1) =~= text);
    law_repeated_ends_are_taken_off(text, 'v');
    assert(text.insert(0, 'v') =~= seq!['v'] + text);
    law_written_numbers_are_read_back(major as int, 0, u64::MAX as int);
    law_written_numbers_are_read_back(minor as int, 0, u64::MAX as int);
    law_written_numbers_are_read_back(patch as int, 0, u64::MAX as int);
    lemma_first_version(words, at);
}

proof fn lemma_first_version(words: Seq<Seq<char>>, at: int)
    requires
        0 <= at < words.len(),
        is_version(words[at]),
        forall|k: int| 0 <= k < at ==> !is_version(#[trigger] words[k]),
    ensures
        first_version(words) == Some(without_leading(words[at], 'v')),
    decreases words.len(),
{
    let rest = words.drop_last();
    assert(forall|k: int| 0 <= k < rest.len() ==> #[trigger] rest[k] == words[k]);
    if at < rest.len() {
        lemma_first_version(rest, at);
    } else {
        lemma_no_version(rest);
    }
}

proof fn lemma_no_version(words: Seq<Seq<char>>)
    requires
        forall|k: int| 0 <= k < words.len() ==> !is_version(#[trigger] words[k]),
    ensures
        first_version(words) is None,
    decreases words.len(),
{
    if words.len() > 0 {
        let rest = words.drop_last();
        assert(forall|k: int| 0 <= k < rest.len() ==> #[trigger] rest[k] == words[k]);
        lemma_no_version(rest);
    }
}

/// A version is three numbers with dots between, after any number of `v`, and
/// nothing else is one.
pub proof fn law_versions_are_three_numbers(word: Seq<char>)
    ensures
        is_version(word) ==> split_at_char(without_leading(word, 'v'), '.').len() == 3,
        is_version(word) ==> forall|i: int|
            0 <= i < 3 ==> (integer_value(
                #[trigger] split_at_char(without_leading(word, 'v'), '.')[i],
                0,
                u64::MAX as int,
            ) is Ok),
{
}

/// Whether `ge` can be used is told by the answer of `ge version`: the version it
/// prints has to be at least the oldest that is supported.
pub proof fn law_old_versions_are_refused(output: CliOutput)
    ensures
        !output.success ==> version_failure(output) == Some(
            GeFailure::CommandFailed(trimmed(output.stderr@)),
        ),
        output.success ==> match first_version(words_of(output.stdout@)) {
            None => version_failure(output) == Some(
                GeFailure::UnexpectedOutput(
                    "Could not parse `ge version` output: "@ + trimmed(output.stdout@),
                ),
            ),
            Some(found) => {
                &&& at_least(found, "5.21.0"@) ==> version_failure(output) is None
                &&& !at_least(found, "5.21.0"@) ==> version_failure(output) == Some(
                    GeFailure::UnsupportedVersion { found, minimum: "5.21.0"@ },
                )
            },
        },
{
}

/// A command that succeeds gives what it printed, as it is. One that fails is a
/// matter of the login where its error output says so, in English or Chinese, and
/// else a failed command; either way the error output is what it is about.
pub proof fn law_failed_commands_are_told_apart(output: CliOutput)
    ensures
        output.success ==> run_outcome(output) == Ok::<Seq<char>, GeFailure>(output.stdout@),
        !output.success ==> {
            let stderr = trimmed(output.stderr@);
            let lower = lowered(stderr);
            let login = holds_text(lower, "ge auth login"@) || holds_text(lower, "not logged in"@)
                || holds_text(lower, "unauthorized"@) || holds_text(lower, "authentication"@)
                || holds_text(stderr, "请先登录"@) || holds_text(stderr, "认证无效"@);
            &&& login ==> run_outcome(output) == Err::<Seq<char>, GeFailure>(
                GeFailure::AuthFailed(stderr),
            )
            &&& !login ==> run_outcome(output) == Err::<Seq<char>, GeFailure>(
                GeFailure::CommandFailed(stderr),
            )
        },
{
}

/// A repository on Gitee is named by its owner and its name, by a URL such as
/// `https://gitee.com/owner/name.git` and by a remote such as
/// `git@gitee.com:owner/name.git`, with or without the ending.
pub proof fn law_remotes_name_owner_and_repository(
    remote: Seq<char>,
    user: Seq<char>,
    owner: Seq<char>,
    name: Seq<char>,
)
    requires
        owner.len() > 0,
        name.len() > 0,
        !owner.contains('/'),
        !name.contains('/'),
        !finishes_with(name, ".git"@),
        !user.contains(':'),
    ensures
        repo_of(
            remote,
            Some(
                UrlView { host: Some("gitee.com"@), path: seq!['/'] + owner + seq!['/'] + name },
            ),
        ) == Ok::<RepoView, GeFailure>(RepoView { owner, repo_name: name }),
        repo_of(
            remote,
            Some(
                UrlView {
                    host: Some("gitee.com"@),
                    path: seq!['/'] + owner + seq!['/'] + (name + ".git"@),
                },
            ),
        ) == Ok::<RepoView, GeFailure>(RepoView { owner, repo_name: name }),
        repo_of(
            user + seq!['@'] + "gitee.com"@ + seq![':'] + (owner + seq!['/'] + name),
            None,
        ) == Ok::<RepoView, GeFailure>(RepoView { owner, repo_name: name }),
        repo_of(
            user + seq!['@'] + "gitee.com"@ + seq![':'] + (owner + seq!['/'] + (name + ".git"@)),
            None,
        ) == Ok::<RepoView, GeFailure>(RepoView { owner, repo_name: name }),
{
    let named = name + ".git"@;
    let path = owner + seq!['/'] + name;
    let ended = owner + seq!['/'] + named;
    lemma_git_ending(name);
    lemma_owner_and_name(owner, name);
    lemma_owner_and_name(owner, named);
    lemma_lower_host();
    assert(seq!['/'] + owner + seq!['/'] + name =~= seq!['/'] + path);
    assert(seq!['/'] + owner + seq!['/'] + named =~= seq!['/'] + ended);
    lemma_gitee_remote(user, path);
    lemma_gitee_remote(user, ended);
}

proof fn lemma_git_ending(name: Seq<char>)
    requires
        name.len() > 0,
        !name.contains('/'),
        !finishes_with(name, ".git"@),
    ensures
        !(name + ".git"@).contains('/'),
        without_suffixes(name, ".git"@) == name,
        without_suffixes(name + ".git"@, ".git"@) == name,
{
    reveal_strlit(".git");
    let named = name + ".git"@;
    assert(!named.contains('/')) by {
        if named.contains('/') {
            let k = choose|k: int| 0 <= k < named.len() && named[k] == '/';
            if k < name.len() {
                assert(name[k] == '/');
            }
        }
    }
    law_parts_of_a_text_are_found(name, ".git"@, Seq::empty());
    assert(named.take(named.len() - ".git"@.len()) =~= name);
    assert(finishes_with(named, ".git"@));
    reveal_with_fuel(without_suffixes, 2);
}

proof fn lemma_gitee_remote(user: Seq<char>, path: Seq<char>)
    requires
        !user.contains(':'),
    ensures
        remote_parts(user + seq!['@'] + "gitee.com"@ + seq![':'] + path, None) == Some(
            ("gitee.com"@, path),
        ),
{
    reveal_strlit("gitee.com");
    let host = "gitee.com"@;
    let authority = user + seq!['@'] + host;
    lemma_lower_host();
    assert(!host.contains('@'));
    assert(!authority.contains(':')) by {
        if authority.contains(':') {
            let k = choose|k: int| 0 <= k < authority.len() && authority[k] == ':';
            if k < user.len() {
                assert(user[k] == ':');
            } else if k > user.len() {
                assert(host[k - user.len() - 1] == ':');
            }
        }
    }
    law_cuts_leave_the_character_out(authority, ':', path);
    law_cuts_leave_the_character_out(user, '@', host);
}

proof fn lemma_lower_host()
    ensures
        lowered("gitee.com"@) == "gitee.com"@,
{
    reveal_strlit("gitee.com");
    let host = "gitee.com"@;
    assert forall|k: int| 0 <= k < host.len() implies lowered(host)[k] == host[k] by {
        law_lower_case_changes_capitals_only(host, k);
    }
    assert(lowered(host) =~= host);
}

proof fn lemma_owner_and_name(owner: Seq<char>, name: Seq<char>)
    requires
        owner.len() > 0,
        name.len() > 0,
        !owner.contains('/'),
        !name.contains('/'),
    ensures
        split_at_char(owner + seq!['/'] + name, '/') == seq![owner, name],
        without_trailing(owner + seq!['/'] + name, '/') == owner + seq!['/'] + name,
        without_leading(seq!['/'] + (owner + seq!['/'] + name), '/') == owner + seq!['/'] + name,
{
    let path = owner + seq!['/'] + name;
    lemma_split_one_piece(owner, '/');
    lemma_split_one_more(owner, '/', name);
    assert(owner.push('/') + name =~= path);
    assert(seq![owner].push(name) =~= seq![owner, name]);
    assert(path.last() == name[name.len() - 1]);
    assert(name.contains(name[name.len() - 1]));
    assert(path[0] == owner[0]);
    assert(owner.contains(owner[0]));
    law_repeated_ends_are_taken_off(path, '/');
    assert(seq!['/'] + path =~= path.insert(0, '/'));
}

/// What names no repository on Gitee is refused, and the message repeats it: what
/// is neither a URL nor a remote, and what is on another host.
pub proof fn law_other_remotes_are_refused(remote: Seq<char>, host: Seq<char>, path: Seq<char>)
    ensures
        !remote.contains(':') ==> repo_of(remote, None) == Err::<RepoView, GeFailure>(
            GeFailure::UnexpectedOutput("Invalid Gitee remote URL: "@ + remote),
        ),
        lowered(host) != "gitee.com"@ ==> repo_of(
            remote,
            Some(UrlView { host: Some(host), path }),
        ) == Err::<RepoView, GeFailure>(
            GeFailure::UnexpectedOutput("Expected a gitee.com URL, got: "@ + remote),
        ),
        !path.contains('/') ==> repo_of(
            remote,
            Some(UrlView { host: Some("gitee.com"@), path }),
        ) == Err::<RepoView, GeFailure>(
            GeFailure::UnexpectedOutput(
                "Could not extract owner/repository from Gitee URL: "@ + remote,
            ),
        ),
{
    lemma_lower_host();
    law_first_is_found(remote, ':', ':');
    if let Some(at) = first_of(remote, ':', ':') {
        assert(remote.contains(remote[at]));
    }
    if !path.contains('/') {
        law_repeated_ends_are_taken_off(path, '/');
        if path.len() > 0 {
            assert(path.contains(path[0]));
            assert(path.contains(path[path.len() - 1]));
        }
        lemma_split_one_piece(path, '/');
    }
}

/// A pull request on Gitee is named by a URL such as
/// `https://gitee.com/owner/name/pulls/7`: by its repository and its number.
pub proof fn law_pr_urls_name_repository_and_number(
    pr_url: Seq<char>,
    owner: Seq<char>,
    name: Seq<char>,
    number: i64,
)
    requires
        !owner.contains('/'),
        !name.contains('/'),
    ensures
        pr_of(
            pr_url,
            Some(
                UrlView {
                    host: Some("gitee.com"@),
                    path: "/"@ + ((owner.push('/') + name).push('/') + "pulls"@).push('/')
                        + signed_decimal(number as int),
                },
            ),
        ) == Ok::<(RepoView, int), GeFailure>(
            (RepoView { owner, repo_name: name }, number as int),
        ),
{
    reveal_strlit("pulls");
    reveal_strlit("/");
    reveal_strlit("-");
    let text = signed_decimal(number as int);
    let magnitude: nat = if number < 0 {
        (-number) as nat
    } else {
        number as nat
    };
    lemma_decimal_has_no(magnitude, '/');
    assert(!text.contains('/')) by {
        if text.contains('/') {
            let k = choose|k: int| 0 <= k < text.len() && text[k] == '/';
            if number < 0 && k > 0 {
                assert(decimal(magnitude)[k - 1] == '/');
            }
        }
    }
    assert(!"pulls"@.contains('/'));
    let two = owner.push('/') + name;
    let three = two.push('/') + "pulls"@;
    let path = three.push('/') + text;
    lemma_split_one_piece(owner, '/');
    lemma_split_one_more(owner, '/', name);
    lemma_split_one_more(two, '/', "pulls"@);
    lemma_split_one_more(three, '/', text);
    assert(seq![owner].push(name).push("pulls"@).push(text) =~= seq![owner, name, "pulls"@, text]);
    assert("/"@ + three.push('/') + text =~= "/"@ + path);
    law_parts_of_a_text_are_found(Seq::empty(), "/"@, path);
    law_written_numbers_are_read_back(number as int, i64::MIN as int, i64::MAX as int);
}

/// What names no pull request on Gitee is refused, and the message repeats it.
pub proof fn law_other_pr_urls_are_refused(pr_url: Seq<char>, url: UrlView)
    ensures
        pr_of(pr_url, None) == Err::<(RepoView, int), GeFailure>(
            GeFailure::UnexpectedOutput("Invalid Gitee PR URL: "@ + pr_url),
        ),
        url.host != Some("gitee.com"@) ==> pr_of(pr_url, Some(url)) == Err::<
            (RepoView, int),
            GeFailure,
        >(GeFailure::UnexpectedOutput("Expected a gitee.com PR URL, got: "@ + pr_url)),
        url.host == Some("gitee.com"@) && !begins_with(url.path, "/"@) ==> pr_of(pr_url, Some(url))
            == Err::<(RepoView, int), GeFailure>(
            GeFailure::UnexpectedOutput("Unexpected Gitee PR URL format: "@ + pr_url),
        ),
        url.host == Some("gitee.com"@) && (without_prefix(url.path, "/"@) matches Some(rest) && (
        split_at_char(rest, '/').len() != 4 || split_at_char(rest, '/')[2] != "pulls"@)) ==> pr_of(
            pr_url,
            Some(url),
        ) == Err::<(RepoView, int), GeFailure>(
            GeFailure::UnexpectedOutput("Unexpected Gitee PR URL format: "@ + pr_url),
        ),
{
}

/// Whether a command line gives an option a value.
pub open spec fn gives(args: Seq<Seq<char>>, option: Seq<char>, value: Seq<char>) -> bool {
    exists|i: int| 0 <= i < args.len() - 1 && #[trigger] args[i] == option && args[i + 1] == value
}

/// A pull request is created in the repository that is named, from its head
/// branch to its base branch, under its title and with the body in the file. It is
/// a draft exactly where that is asked for.
pub proof fn law_pr_is_created_with_its_parts(
    request: CreatePrRequest,
    repo: RepoView,
    body_file: Seq<char>,
)
    ensures
        ({
            let args = create_args(request, repo, body_file);
            &&& args.take(2) == seq!["pr"@, "create"@]
            &&& gives(args, "--repo"@, repo.owner + "/"@ + repo.repo_name)
            &&& gives(args, "--head"@, request.head_branch@)
            &&& gives(args, "--base"@, request.base_branch@)
            &&& gives(args, "--title"@, request.title@)
            &&& gives(args, "--body-file"@, body_file)
            &&& request.draft == Some(true) ==> args.len() == 13 && args[12] == "--draft"@
            &&& request.draft != Some(true) ==> args.len() == 12
        }),
{
    let args = create_args(request, repo, body_file);
    assert(args.take(2) =~= seq!["pr"@, "create"@]);
    assert(args[2] == "--repo"@ && args[3] == repo.owner + "/"@ + repo.repo_name);
    assert(args[4] == "--head"@ && args[5] == request.head_branch@);
    assert(args[6] == "--base"@ && args[7] == request.base_branch@);
    assert(args[8] == "--title"@ && args[9] == request.title@);
    assert(args[10] == "--body-file"@ && args[11] == body_file);
}

/// A pull request is shown, checked out, and its comments are listed by its
/// number in the repository that is named. Pull requests are listed for a branch
/// in every state, and for a repository where they are open. What is read of a
/// pull request is asked for, and nothing else is.
pub proof fn law_prs_are_asked_for_by_number_and_branch(
    repo: RepoView,
    number: int,
    branch: Seq<char>,
)
    ensures
        ({
            let named = repo.owner + "/"@ + repo.repo_name;
            let view = view_args(repo, number);
            let checkout = checkout_args(repo, number);
            let comments = comment_args(repo, number);
            let listed = branch_args(repo, branch);
            let open = open_args(repo);
            &&& view.take(3) == seq!["pr"@, "view"@, signed_decimal(number)]
            &&& view.len() == 7
            &&& gives(view, "--repo"@, named)
            &&& gives(view, "--json"@, "number,html_url,state,merged_at"@)
            &&& checkout.take(3) == seq!["pr"@, "checkout"@, signed_decimal(number)]
            &&& checkout.len() == 6
            &&& gives(checkout, "--repo"@, named)
            &&& checkout[5] == "--force"@
            &&& comments.take(4) == seq!["pr"@, "comment"@, "list"@, signed_decimal(number)]
            &&& comments.len() == 8
            &&& gives(comments, "--repo"@, named)
            &&& gives(comments, "--limit"@, "100"@)
            &&& listed.take(2) == seq!["pr"@, "list"@]
            &&& listed.len() == 10
            &&& gives(listed, "--repo"@, named)
            &&& gives(listed, "--state"@, "all"@)
            &&& gives(listed, "--head"@, branch)
            &&& gives(listed, "--json"@, "number,html_url,state,merged_at"@)
            &&& open.take(2) == seq!["pr"@, "list"@]
            &&& open.len() == 8
            &&& gives(open, "--repo"@, named)
            &&& gives(open, "--state"@, "open"@)
            &&& gives(open, "--json"@, "number,html_url,title,head,base"@)
        }),
{
    let named = repo.owner + "/"@ + repo.repo_name;
    let view = view_args(repo, number);
    let checkout = checkout_args(repo, number);
    let comments = comment_args(repo, number);
    let listed = branch_args(repo, branch);
    let open = open_args(repo);
    assert(view.take(3) =~= seq!["pr"@, "view"@, signed_decimal(number)]);
    assert(view[3] == "--repo"@ && view[4] == named && view[5] == "--json"@);
    assert(checkout.take(3) =~= seq!["pr"@, "checkout"@, signed_decimal(number)]);
    assert(checkout[3] == "--repo"@ && checkout[4] == named);
    assert(comments.take(4) =~= seq!["pr"@, "comment"@, "list"@, signed_decimal(number)]);
    assert(comments[4] == "--repo"@ && comments[5] == named && comments[6] == "--limit"@);
    assert(listed.take(2) =~= seq!["pr"@, "list"@]);
    assert(listed[2] == "--repo"@ && listed[3] == named && listed[4] == "--state"@);
    assert(listed[6] == "--head"@ && listed[8] == "--json"@);
    assert(open.take(2) =~= seq!["pr"@, "list"@]);
    assert(open[2] == "--repo"@ && open[3] == named && open[4] == "--state"@);
    assert(open[6] == "--json"@);
}

/// A pull request has the number and the URL that Gitee reports. One with a merge
/// date is merged; any other is what its state says, in whatever case, and what is
/// none of the known states is unknown.
pub proof fn law_reported_prs_keep_their_state(pr: GePrResponse, merged_at: Option<Timestamp>)
    ensures
        ({
            let info = pr_info(pr, merged_at);
            let state = lowered(pr.state@);
            &&& info.number == pr.number
            &&& info.url == pr.html_url@
            &&& info.merged_at == merged_at
            &&& info.merge_commit_sha is None
            &&& merged_at is Some ==> info.status == MergeStatus::Merged
            &&& merged_at is None ==> {
                &&& state == "open"@ ==> info.status == MergeStatus::Open
                &&& state == "merged"@ ==> info.status == MergeStatus::Merged
                &&& state == "closed"@ ==> info.status == MergeStatus::Closed
                &&& state != "open"@ && state != "merged"@ && state != "closed"@ ==> info.status
                    == MergeStatus::Unknown
            }
        }),
        pr.merged_at is None ==> merge_moment(pr) is None,
        pr.merged_at matches Some(date) ==> (!begins_with(date@, "0001-01-01"@) ==> merge_moment(pr)
            == rfc3339_outcome(date@)),
{
    reveal_strlit("open");
    reveal_strlit("merged");
    reveal_strlit("closed");
    assert("open"@.len() == 4 && "merged"@[0] == 'm' && "closed"@[0] == 'c');
}

/// An open pull request has the number, the URL, the title and the branches that
/// Gitee reports; a branch that is not reported is empty.
pub proof fn law_open_prs_keep_their_branches(pr: GePrResponse)
    ensures
        ({
            let info = open_pr_info(pr);
            &&& info.number == pr.number
            &&& info.url == pr.html_url@
            &&& info.title == pr.title@
            &&& pr.head matches Some(head) ==> info.head_branch == head@
            &&& pr.head is None ==> info.head_branch.len() == 0
            &&& pr.base matches Some(base) ==> info.base_branch == base@
            &&& pr.base is None ==> info.base_branch.len() == 0
        }),
{
}

/// The pull request that was created is the one whose URL is the first that
/// `ge` prints, without the punctuation after it. It is open, and has the number
/// that its URL names.
pub proof fn law_created_pr_is_read_from_its_url(
    raw: Seq<char>,
    at: int,
    repo: RepoView,
    number: i64,
    failure: GeFailure,
)
    requires
        0 <= at < words_of(raw).len(),
        begins_with(words_of(raw)[at], "https://gitee.com/"@),
        holds_text(words_of(raw)[at], "/pulls/"@),
        forall|k: int|
            0 <= k < at ==> !begins_with(#[trigger] words_of(raw)[k], "https://gitee.com/"@)
                || !holds_text(words_of(raw)[k], "/pulls/"@),
    ensures
        created_url(raw) == Some(without_punctuation(words_of(raw)[at])),
        created_pr(words_of(raw)[at], Ok((repo, number as int))) == Ok::<PrView, GeFailure>(
            PrView {
                number,
                url: words_of(raw)[at],
                status: MergeStatus::Open,
                merged_at: None,
                merge_commit_sha: None,
            },
        ),
        created_pr(words_of(raw)[at], Err(failure)) == Err::<PrView, GeFailure>(failure),
{
    let words = words_of(raw);
    assert forall|k: int| 0 <= k < at implies !is_pr_word(#[trigger] words[k]) by {
        assert(words[k] == words_of(raw)[k]);
    }
    lemma_first_pr_word(words, at);
}

proof fn lemma_first_pr_word(words: Seq<Seq<char>>, at: int)
    requires
        0 <= at < words.len(),
        is_pr_word(words[at]),
        forall|k: int| 0 <= k < at ==> !is_pr_word(#[trigger] words[k]),
    ensures
        first_pr_word(words) == Some(words[at]),
    decreases words.len(),
{
    let rest = words.drop_last();
    assert(forall|k: int| 0 <= k < rest.len() ==> #[trigger] rest[k] == words[k]);
    if at < rest.len() {
        lemma_first_pr_word(rest, at);
    } else {
        lemma_no_pr_word(rest);
    }
}

proof fn lemma_no_pr_word(words: Seq<Seq<char>>)
    requires
        forall|k: int| 0 <= k < words.len() ==> !is_pr_word(#[trigger] words[k]),
    ensures
        first_pr_word(words) is None,
    decreases words.len(),
{
    if words.len() > 0 {
        let rest = words.drop_last();
        assert(forall|k: int| 0 <= k < rest.len() ==> #[trigger] rest[k] == words[k]);
        lemma_no_pr_word(rest);
    }
}

/// Full stops, commas and semicolons after a URL are no part of it, and nothing
/// else is taken away.
pub proof fn law_punctuation_is_taken_off(word: Seq<char>)
    ensures
        without_punctuation(word.push('.')) == without_punctuation(word),
        without_punctuation(word.push(',')) == without_punctuation(word),
        without_punctuation(word.push(';')) == without_punctuation(word),
        word.len() == 0 || (word.last() != '.' && word.last() != ',' && word.last() != ';')
            ==> without_punctuation(word) == word,
{
    assert(word.push('.').drop_last() =~= word);
    assert(word.push(',').drop_last() =~= word);
    assert(word.push(';').drop_last() =~= word);
}

/// Where no URL of a pull request is printed, there is none.
pub proof fn law_no_url_no_created_pr(raw: Seq<char>)
    requires
        forall|k: int|
            0 <= k < words_of(raw).len() ==> !begins_with(
                #[trigger] words_of(raw)[k],
                "https://gitee.com/"@,
            ) || !holds_text(words_of(raw)[k], "/pulls/"@),
    ensures
        created_url(raw) is None,
{
    let words = words_of(raw);
    assert forall|k: int| 0 <= k < words.len() implies !is_pr_word(#[trigger] words[k]) by {
        assert(words[k] == words_of(raw)[k]);
    }
    lemma_no_pr_word(words);
}

/// A block whose lines give an id, an author, a moment and a body is the comment
/// of that author, made at that moment. Its body goes on to the end of the block,
/// without the white space there.
pub proof fn law_blocks_are_comments(
    block: Seq<char>,
    id: i64,
    author: Seq<char>,
    created: Seq<char>,
    first: Seq<char>,
    moment: Timestamp,
)
    requires
        lines_of(block).len() > 3,
        trimmed(lines_of(block)[0]) == signed_decimal(id as int),
        trimmed(lines_of(block)[1]) == "Author: "@ + author,
        trimmed(lines_of(block)[2]) == "Created: "@ + created,
        trimmed_start(lines_of(block)[3]) == "Body: "@ + first,
    ensures
        created_moment(block) == rfc3339_outcome(created),
        comment_of(block, Some(moment)) == Ok::<CommentView, Seq<char>>(
            CommentView {
                id: signed_decimal(id as int),
                author,
                author_association: None,
                body: trimmed_end(joined(seq![first] + lines_of(block).skip(4), "\n"@)),
                created_at: moment,
                url: None,
            },
        ),
        comment_of(block, None) == Err::<CommentView, Seq<char>>(
            "Invalid comment timestamp: "@ + block,
        ),
{
    law_written_numbers_are_read_back(id as int, i64::MIN as int, i64::MAX as int);
    law_parts_of_a_text_are_found(Seq::empty(), "Author: "@, author);
    law_parts_of_a_text_are_found(Seq::empty(), "Created: "@, created);
    law_parts_of_a_text_are_found(Seq::empty(), "Body: "@, first);
}

/// A block that lacks its id, its author or its body is refused by what it
/// lacks, and the message repeats it.
pub proof fn law_bad_blocks_are_refused(block: Seq<char>, id: i64, moment: Timestamp)
    ensures
        lines_of(block).len() == 0 || integer_value(
            trimmed(lines_of(block)[0]),
            i64::MIN as int,
            i64::MAX as int,
        ) is Err ==> comment_of(block, Some(moment)) == Err::<CommentView, Seq<char>>(
            "Invalid comment block: "@ + block,
        ),
        lines_of(block).len() > 0 && trimmed(lines_of(block)[0]) == signed_decimal(id as int) ==> {
            let authored = lines_of(block).len() > 1 && begins_with(
                trimmed(lines_of(block)[1]),
                "Author: "@,
            );
            let told = lines_of(block).len() > 3 && begins_with(
                trimmed_start(lines_of(block)[3]),
                "Body: "@,
            );
            &&& !authored ==> comment_of(block, Some(moment)) == Err::<CommentView, Seq<char>>(
                "Missing comment author: "@ + block,
            )
            &&& authored && !told ==> comment_of(block, Some(moment)) == Err::<
                CommentView,
                Seq<char>,
            >("Missing comment body: "@ + block)
        },
{
    law_written_numbers_are_read_back(id as int, i64::MIN as int, i64::MAX as int);
}

/// The comments of an answer are those of its blocks, one for each, where every
/// block is one; the first block that is none decides otherwise.
pub proof fn law_each_block_is_a_comment(blocks: Seq<Seq<char>>)
    ensures
        match comments_of(blocks) {
            Ok(comments) => comments.len() == blocks.len() && forall|i: int|
                0 <= i < blocks.len() ==> comment_of(
                    #[trigger] blocks[i],
                    created_moment(blocks[i]),
                ) == Ok::<CommentView, Seq<char>>(comments[i]),
            Err(message) => exists|i: int|
                0 <= i < blocks.len() && comment_of(#[trigger] blocks[i], created_moment(blocks[i]))
                    == Err::<CommentView, Seq<char>>(message) && forall|k: int|
                    0 <= k < i ==> comment_of(#[trigger] blocks[k], created_moment(blocks[k]))
                        is Ok,
        },
    decreases blocks.len(),
{
    if blocks.len() > 0 {
        let rest = blocks.drop_last();
        law_each_block_is_a_comment(rest);
        assert(forall|i: int| 0 <= i < rest.len() ==> #[trigger] blocks[i] == rest[i]);
        match comments_of(rest) {
            Err(message) => {
                let i = choose|i: int|
                    0 <= i < rest.len() && comment_of(#[trigger] rest[i], created_moment(rest[i]))
                        == Err::<CommentView, Seq<char>>(message) && forall|k: int|
                        0 <= k < i ==> comment_of(#[trigger] rest[k], created_moment(rest[k]))
                            is Ok;
                assert(blocks[i] == rest[i]);
            },
            Ok(comments) => {
                assert(blocks[blocks.len() - 1] == blocks.last());
            },
        }
    }
}

/// An answer lists its comments, oldest first and each once. It lists none where
/// it is blank or says so; where it says neither and holds no comment, it is not
/// understood.
pub proof fn law_comments_are_listed_oldest_first(raw: Seq<char>)
    ensures
        trimmed(raw).len() == 0 || holds_text(raw, "No comments found"@) ==> comment_list(raw)
            == Ok::<Seq<CommentView>, Seq<char>>(Seq::empty()),
        trimmed(raw).len() > 0 && !holds_text(raw, "No comments found"@) ==> match comments_of(
            comment_blocks(raw),
        ) {
            Err(message) => comment_list(raw) == Err::<Seq<CommentView>, Seq<char>>(message),
            Ok(comments) => if comments.len() == 0 {
                comment_list(raw) == Err::<Seq<CommentView>, Seq<char>>(
                    "Failed to parse `ge pr comment list` output: "@ + raw,
                )
            } else {
                comment_list(raw) matches Ok(listed) && listed.to_multiset()
                    == comments.to_multiset() && forall|i: int, j: int|
                    0 <= i < j < listed.len() ==> not_after(
                        (#[trigger] listed[i]).created_at,
                        (#[trigger] listed[j]).created_at,
                    )
            },
        },
{
    if let Ok(comments) = comments_of(comment_blocks(raw)) {
        law_comments_are_in_order(comments);
    }
}

/// The blocks of an answer are what stands after each comment mark: with the
/// marks between, and what stands before the first, they are the answer.
pub proof fn law_blocks_follow_the_marks(raw: Seq<char>)
    ensures
        exists|before: Seq<char>|
            raw == #[trigger] joined(seq![before] + comment_blocks(raw), "  Comment #"@),
{
    reveal_strlit("  Comment #");
    let pieces = split_from(raw, "  Comment #"@, 0);
    law_split_text_then_join(raw, "  Comment #"@, 0);
    assert(seq![pieces[0]] + pieces.skip(1) =~= pieces);
    assert(raw.skip(0) =~= raw);
    assert(raw == joined(seq![pieces[0]] + comment_blocks(raw), "  Comment #"@));
}

/// A URL whose last segment is no number names no pull request, and the message
/// says what is wrong with it. An answer that is not the JSON it should be is
/// refused with the message of the decoder and the answer itself.
pub proof fn law_bad_numbers_and_answers_are_refused(
    pr_url: Seq<char>,
    path: Seq<char>,
    error: IntError,
    label: Seq<char>,
    message: Seq<char>,
    raw: Seq<char>,
)
    ensures
        (without_prefix(path, "/"@) matches Some(rest) && split_at_char(rest, '/').len() == 4
            && split_at_char(rest, '/')[2] == "pulls"@ && integer_value(
            split_at_char(rest, '/')[3],
            i64::MIN as int,
            i64::MAX as int,
        ) == Err::<int, IntError>(error)) ==> pr_of(
            pr_url,
            Some(UrlView { host: Some("gitee.com"@), path }),
        ) == Err::<(RepoView, int), GeFailure>(
            GeFailure::UnexpectedOutput(
                "Invalid pull request number in '"@ + pr_url + "': "@ + int_error_text(error),
            ),
        ),
        bad_json(label, message, raw) == GeFailure::UnexpectedOutput(
            label + message + "; raw: "@ + raw,
        ),
{
}

/// The model of [`GiteeRepoInfo`] holds what the value does, part by part.
pub proof fn law_model_of_gitee_repo_info(value: GiteeRepoInfo)
    ensures
        value@.owner == value.owner@,
        value@.repo_name == value.repo_name@,
{
}

/// The model of [`GeCliError`] holds what the value does, part by part.
pub proof fn law_model_of_ge_cli_error(value: GeCliError)
    ensures
        match value {
            GeCliError::NotAvailable => value@ == GeFailure::NotAvailable,
            GeCliError::UnsupportedVersion { found, minimum } =>
                value@ == (GeFailure::UnsupportedVersion {
                    found: found@,
                    minimum: minimum@,
                }),
            GeCliError::CommandFailed(message) => value@ == GeFailure::CommandFailed(message@),
            GeCliError::AuthFailed(message) => value@ == GeFailure::AuthFailed(message@),
            GeCliError::UnexpectedOutput(message) =>
                value@ == GeFailure::UnexpectedOutput(message@),
        },
{
}

/// The model of [`OpenPrInfo`] holds what the value does, part by part.
pub proof fn law_model_of_open_pr_info(value: OpenPrInfo)
    ensures
        value@.number == value.number,
        value@.url == value.url@,
        value@.title == value.title@,
        value@.head_branch == value.head_branch@,
        value@.base_branch == value.base_branch@,
{
}

} // verus!
