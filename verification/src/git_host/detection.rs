//! Detects the git hosting provider from repository and pull request URLs.

use vstd::prelude::*;

use crate::git_host::types::ProviderKind;
use crate::text::{
    begins_with, contains, cut_at_first, cut_at_last, ends_with, finishes_with, first_of,
    holds_text, last_of, law_cuts_leave_the_character_out, law_first_is_found, law_last_is_found,
    law_parts_of_a_text_are_found, lowered, opt_view, rsplit_once, same, split_once, starts_with,
    to_ascii_lowercase,
};

verus! {

/// The parts of a URL that matter here: its host, where it has one, and its
/// path.
#[derive(Debug, PartialEq, Eq)]
pub struct UrlParts {
    pub host: Option<String>,
    pub path: String,
}

/// Model of [`UrlParts`].
pub struct UrlView {
    pub host: Option<Seq<char>>,
    pub path: Seq<char>,
}

impl View for UrlParts {
    type V = UrlView;

    open spec fn view(&self) -> UrlView {
        UrlView { host: opt_view(self.host), path: self.path@ }
    }
}

/// The model of optional URL parts.
pub open spec fn opt_url(parts: Option<UrlParts>) -> Option<UrlView> {
    match parts {
        Some(parts) => Some(parts@),
        None => None,
    }
}

/// What `url::Url::parse` makes of a text: its host and its path, or nothing
/// where the text is no absolute URL.
pub uninterp spec fn url_outcome(text: Seq<char>) -> Option<UrlView>;

/// Parses a URL with `url::Url::parse`, and takes `host_str` and `path` of it.
/// The outcome depends on the text alone.
#[verifier::external_body]
pub(crate) fn parse_url(text: &str) -> (parts: Option<UrlParts>)
    ensures
        opt_url(parts) == url_outcome(text@),
{
    url::Url::parse(text).ok().map(|url| UrlParts {
        host: url.host_str().map(str::to_owned),
        path: url.path().to_owned(),
    })
}

/// The host of a remote such as `git@example.com:owner/repo.git`.
pub open spec fn scp_host(value: Seq<char>) -> Option<Seq<char>> {
    match cut_at_first(value, ':', ':') {
        Some((authority, _)) => {
            let host = match cut_at_last(authority, '@') {
                Some((_, host)) => host,
                None => authority,
            };
            if host.len() == 0 || holds_text(host, "/"@) || holds_text(host, "\\"@) {
                None
            } else {
                Some(lowered(host))
            }
        },
        None => None,
    }
}

/// The host of a remote or URL, in lower case: that of the URL where it is one
/// with a host, else that of the remote.
pub open spec fn host_of(value: Seq<char>, url: Option<UrlView>) -> Option<Seq<char>> {
    match url {
        Some(UrlView { host: Some(host), .. }) => Some(lowered(host)),
        _ => scp_host(value),
    }
}

/// The path of a remote or URL, in lower case.
pub open spec fn path_of(value: Seq<char>, url: Option<UrlView>) -> Seq<char> {
    match url {
        Some(url) => lowered(url.path),
        None => match cut_at_first(value, ':', ':') {
            Some((_, path)) => lowered(path),
            None => Seq::empty(),
        },
    }
}

/// The provider that a host and a path belong to.
pub open spec fn provider_of(host: Seq<char>, path: Seq<char>) -> ProviderKind {
    if host == "gitee.com"@ {
        ProviderKind::Gitee
    } else if host == "dev.azure.com"@ || host == "ssh.dev.azure.com"@ || finishes_with(
        host,
        ".visualstudio.com"@,
    ) || holds_text(path, "/_git/"@) {
        ProviderKind::AzureDevOps
    } else if host == "github.com"@ || begins_with(host, "github."@) {
        ProviderKind::GitHub
    } else {
        ProviderKind::Unknown
    }
}

/// The provider that a remote or URL belongs to, given what parsing it gave.
pub open spec fn detected(value: Seq<char>, url: Option<UrlView>) -> ProviderKind {
    match host_of(value, url) {
        Some(host) => provider_of(host, path_of(value, url)),
        None => ProviderKind::Unknown,
    }
}

fn scp_like_host(value: &str) -> (host: Option<String>)
    ensures
        opt_view(host) == scp_host(value@),
{
    let authority = match split_once(value, ':') {
        Some((authority, _)) => authority,
        None => {
            return None;
        },
    };
    let host = match rsplit_once(&authority, '@') {
        Some((_, host)) => host,
        None => authority,
    };
    if host.as_str().is_empty() || contains(&host, "/") || contains(&host, "\\") {
        return None;
    }
    Some(to_ascii_lowercase(&host))
}

/// The host of a remote or URL, given what parsing it gave.
pub fn extract_host(value: &str, url: &Option<UrlParts>) -> (host: Option<String>)
    ensures
        opt_view(host) == host_of(value@, opt_url(*url)),
{
    match url {
        Some(UrlParts { host: Some(host), .. }) => Some(to_ascii_lowercase(host)),
        _ => scp_like_host(value),
    }
}

/// The path of a remote or URL, given what parsing it gave.
pub fn extract_path(value: &str, url: &Option<UrlParts>) -> (path: String)
    ensures
        path@ == path_of(value@, opt_url(*url)),
{
    match url {
        Some(parts) => to_ascii_lowercase(&parts.path),
        None => match split_once(value, ':') {
            Some((_, path)) => to_ascii_lowercase(&path),
            None => String::new(),
        },
    }
}

/// The provider that a host and a path belong to.
pub fn classify_host(host: &str, path: &str) -> (provider: ProviderKind)
    ensures
        provider == provider_of(host@, path@),
{
    if same(host, "gitee.com") {
        ProviderKind::Gitee
    } else if same(host, "dev.azure.com") || same(host, "ssh.dev.azure.com") || ends_with(
        host,
        ".visualstudio.com",
    ) || contains(path, "/_git/") {
        ProviderKind::AzureDevOps
    } else if same(host, "github.com") || starts_with(host, "github.") {
        ProviderKind::GitHub
    } else {
        ProviderKind::Unknown
    }
}

/// The provider that a remote or URL belongs to, given what parsing it gave.
pub fn detect_provider(value: &str, url: &Option<UrlParts>) -> (provider: ProviderKind)
    ensures
        provider == detected(value@, opt_url(*url)),
{
    match extract_host(value, url) {
        Some(host) => {
            let path = extract_path(value, url);
            classify_host(&host, &path)
        },
        None => ProviderKind::Unknown,
    }
}

/// Detects the git hosting provider from a repository remote or pull request
/// URL.
pub fn detect_provider_from_url(url: &str) -> (provider: ProviderKind)
    ensures
        provider == detected(url@, url_outcome(url@)),
{
    detect_provider(url, &parse_url(url))
}

/// Only the host `gitee.com` itself is Gitee: not a host that contains it, nor
/// a path that does.
pub proof fn law_gitee_host_matches_exactly(value: Seq<char>, url: Option<UrlView>)
    ensures
        detected(value, url) == ProviderKind::Gitee <==> host_of(value, url) == Some(
            "gitee.com"@,
        ),
{
}

/// The host decides on the provider, whatever the path: `gitee.com` is Gitee. Of
/// the others, the hosts of Azure DevOps, and those whose path leads through
/// `/_git/`, are Azure DevOps; then `github.com` and the hosts that begin with
/// `github.` are GitHub. No other host is known.
pub proof fn law_hosts_have_their_providers(host: Seq<char>, path: Seq<char>)
    ensures
        provider_of("gitee.com"@, path) == ProviderKind::Gitee,
        provider_of("dev.azure.com"@, path) == ProviderKind::AzureDevOps,
        provider_of("ssh.dev.azure.com"@, path) == ProviderKind::AzureDevOps,
        provider_of(host + ".visualstudio.com"@, path) == ProviderKind::AzureDevOps,
        host != "gitee.com"@ && holds_text(path, "/_git/"@) ==> provider_of(host, path)
            == ProviderKind::AzureDevOps,
        !holds_text(path, "/_git/"@) ==> provider_of("github.com"@, path) == ProviderKind::GitHub,
        begins_with(host, "github."@) && !finishes_with(host, ".visualstudio.com"@) && !holds_text(
            path,
            "/_git/"@,
        ) ==> provider_of(host, path) == ProviderKind::GitHub,
        provider_of(host, path) == ProviderKind::GitHub ==> begins_with(host, "github."@),
        provider_of(host, path) == ProviderKind::AzureDevOps ==> host == "dev.azure.com"@ || host
            == "ssh.dev.azure.com"@ || finishes_with(host, ".visualstudio.com"@) || holds_text(
            path,
            "/_git/"@,
        ),
        provider_of(host, path) == ProviderKind::Gitee ==> host == "gitee.com"@,
{
    reveal_strlit("gitee.com");
    reveal_strlit("dev.azure.com");
    reveal_strlit("ssh.dev.azure.com");
    reveal_strlit(".visualstudio.com");
    reveal_strlit("github.com");
    reveal_strlit("github.");
    let visual = host + ".visualstudio.com"@;
    law_parts_of_a_text_are_found(host, ".visualstudio.com"@, Seq::empty());
    assert(visual != "gitee.com"@) by {
        assert(visual.len() >= 17);
    }
    assert("github.com"@.subrange(0, 7) =~= "github."@);
    if begins_with(host, "github."@) {
        assert(host[3] == host.subrange(0, 7)[3] && host[0] == host.subrange(0, 7)[0]);
        assert(host[3] == 'h' && "gitee.com"@[3] == 'e');
        assert(host[0] == 'g' && "dev.azure.com"@[0] == 'd' && "ssh.dev.azure.com"@[0] == 's');
    }
    assert("github.com"@.len() == 10 && "gitee.com"@.len() == 9);
    assert(!finishes_with("github.com"@, ".visualstudio.com"@));
}

/// A remote such as `git@example.com:owner/repo.git` has the host before its
/// first colon, without the user, and the path after it, both in lower case.
pub proof fn law_remotes_name_a_host_and_a_path(
    user: Seq<char>,
    host: Seq<char>,
    path: Seq<char>,
)
    requires
        host.len() > 0,
        !user.contains(':'),
        !host.contains(':'),
        !host.contains('@'),
        !holds_text(host, "/"@),
        !holds_text(host, "\\"@),
    ensures
        host_of(user + seq!['@'] + host + seq![':'] + path, None) == Some(lowered(host)),
        host_of(host + seq![':'] + path, None) == Some(lowered(host)),
        path_of(user + seq!['@'] + host + seq![':'] + path, None) == lowered(path),
        path_of(host + seq![':'] + path, None) == lowered(path),
{
    let authority = user + seq!['@'] + host;
    assert(!authority.contains(':')) by {
        if authority.contains(':') {
            let k = choose|k: int| 0 <= k < authority.len() && authority[k] == ':';
            if k < user.len() {
                assert(user[k] == ':');
            } else if k > user.len() {
                assert(host[k - user.len() - 1] == ':');
            }
        }
    }
    law_cuts_leave_the_character_out(authority, ':', path);
    law_cuts_leave_the_character_out(user, '@', host);
    law_cuts_leave_the_character_out(host, ':', path);
    law_last_is_found(host, '@');
    if let Some(at) = last_of(host, '@') {
        assert(host.contains(host[at]));
    }
}

/// A URL has its own host and path, in lower case, whatever else stands in the
/// text. What has no host has no known provider.
pub proof fn law_urls_have_their_own_host(value: Seq<char>, host: Seq<char>, path: Seq<char>)
    ensures
        host_of(value, Some(UrlView { host: Some(host), path })) == Some(lowered(host)),
        path_of(value, Some(UrlView { host: Some(host), path })) == lowered(path),
        detected(value, Some(UrlView { host: Some(host), path })) == provider_of(
            lowered(host),
            lowered(path),
        ),
        !value.contains(':') ==> detected(value, None) == ProviderKind::Unknown,
{
    law_first_is_found(value, ':', ':');
    if let Some(at) = first_of(value, ':', ':') {
        assert(value.contains(value[at]));
    }
}

/// The model of [`UrlParts`] holds what the value does, part by part.
pub proof fn law_model_of_url_parts(value: UrlParts)
    ensures
        value@.host == opt_view(value.host),
        value@.path == value.path@,
{
}

/// What stands before the first colon of a remote is no host where it is empty or
/// leads through directories: such a remote has no known provider.
pub proof fn law_local_paths_have_no_host(host: Seq<char>, path: Seq<char>)
    requires
        !host.contains(':'),
        !host.contains('@'),
        host.len() == 0 || holds_text(host, "/"@) || holds_text(host, "\\"@),
    ensures
        host_of(host + seq![':'] + path, None) is None,
        detected(host + seq![':'] + path, None) == ProviderKind::Unknown,
{
    law_cuts_leave_the_character_out(host, ':', path);
    law_last_is_found(host, '@');
    if let Some(at) = last_of(host, '@') {
        assert(host.contains(host[at]));
    }
}

} // verus!
