//! The names of repositories, refs and files.
use vstd::prelude::*;
use crate::encoding::{lemma_first_is_kept, lemma_path_is_decoded};
use crate::error::{invalid, text_outcome, unit_outcome, Error, ErrorView};
use crate::format::{cat2, cat3};
use crate::split::{split, split_on};
use crate::text::{
    contains, contains_text, copy, ends_with, first_index, is_space, lemma_first_found,
    lemma_last_index, lemma_not_split, occurs_at, rsplit_once, same, split_first, split_last,
    split_once, starts_with, trim, trim_end_matches, trim_end_of, trim_start_matches, trim_start_of,
    trimmed, views,
};
use crate::web::{
    decoded_text, encode_query_value, encoded_path, form_encoded, parse_url, parsed_url,
    percent_decode, UrlParts, UrlView,
};

verus! {

/// Whether a host belongs to Launchpad.
pub open spec fn is_launchpad_host(host: Seq<char>) -> bool {
    host == "launchpad.net"@ || ".launchpad.net"@.is_suffix_of(host)
}

/// A path without the slashes around it.
pub open spec fn without_slashes(path: Seq<char>) -> Seq<char> {
    trim_end_of(trim_start_of(path, '/'), '/')
}

/// A repository path without the slashes around it, which must not be all there is.
pub open spec fn bare_repository(path: Seq<char>) -> Result<Seq<char>, ErrorView> {
    if without_slashes(path).len() == 0 {
        Err(invalid("repository must not be empty"@))
    } else {
        Ok(without_slashes(path))
    }
}

/// The encoded repository path in a URL. In the URLs of the web service it stands behind the
/// version of the service.
pub open spec fn url_repository_path(url: UrlView) -> Result<Seq<char>, ErrorView> {
    let rest = trim_start_of(url.path, '/');
    if url.scheme == "lp"@ {
        Ok(crate::target::url_target_path(url))
    } else {
        match url.host {
            Some(host) => if !is_launchpad_host(host) {
                Err(invalid("repository URL is not a Launchpad URL"@))
            } else if "api."@.is_prefix_of(host) {
                match split_first(rest, "/"@) {
                    Some((version, path)) => Ok(path),
                    None => Ok(Seq::empty()),
                }
            } else {
                Ok(rest)
            },
            None => Err(invalid("repository URL is not a Launchpad URL"@)),
        }
    }
}

/// The repository that a URL names.
pub open spec fn url_repository(url: UrlView) -> Result<Seq<char>, ErrorView> {
    match url_repository_path(url) {
        Err(error) => Err(error),
        Ok(path) => match decoded_text(path) {
            Ok(path) => bare_repository(path),
            Err(reason) => Err(ErrorView::UrlEncoding { reason }),
        },
    }
}

/// The host that a text in front of a colon names: all of it, or what follows a user.
pub open spec fn host_of(front: Seq<char>) -> Seq<char> {
    match split_last(front, "@"@) {
        Some((user, host)) => host,
        None => front,
    }
}

/// The repository that a text without a URL names: behind `lp:`, behind a Launchpad host with or
/// without a user, or alone.
pub open spec fn named_repository(text: Seq<char>) -> Result<Seq<char>, ErrorView> {
    match split_first(text, ":"@) {
        Some((front, rest)) => if front == "lp"@ || is_launchpad_host(host_of(front)) {
            bare_repository(rest)
        } else {
            Err(invalid("repository URL is not a Launchpad URL"@))
        },
        None => bare_repository(text),
    }
}

/// The path of the repository that a text names.
pub open spec fn normalised_repository(raw: Seq<char>) -> Result<Seq<char>, ErrorView> {
    let text = trimmed(raw);
    if contains_text(text, "://"@) {
        match parsed_url(text) {
            Ok(url) => url_repository(url),
            Err(source) => Err(ErrorView::Url { url: text, source }),
        }
    } else {
        named_repository(text)
    }
}

fn launchpad_host(host: &str) -> (r: bool)
    ensures
        r == is_launchpad_host(host@),
{
    same(host, "launchpad.net") || ends_with(host, ".launchpad.net")
}

/// A path without the slashes around it.
pub fn trim_slashes(path: &str) -> (r: String)
    ensures
        r@ == without_slashes(path@),
{
    trim_end_matches(trim_start_matches(path, '/').as_str(), '/')
}

fn bare(path: &str) -> (r: Result<String, Error>)
    ensures
        text_outcome(r) == bare_repository(path@),
{
    let path = trim_slashes(path);
    if path.as_str().is_empty() {
        Err(Error::invalid("repository must not be empty"))
    } else {
        Ok(path)
    }
}

fn repository_path_of_url(url: &UrlParts) -> (r: Result<String, Error>)
    ensures
        text_outcome(r) == url_repository_path(url@),
{
    let rest = trim_start_matches(url.path.as_str(), '/');
    if same(url.scheme.as_str(), "lp") {
        return Ok(crate::target::target_path_of_url(url));
    }
    match &url.host {
        Some(host) => if !launchpad_host(host.as_str()) {
            Err(Error::invalid("repository URL is not a Launchpad URL"))
        } else if starts_with(host.as_str(), "api.") {
            match split_once(rest.as_str(), "/") {
                Some((_version, path)) => Ok(path),
                None => {
                    let empty = String::new();
                    assert(empty@ =~= Seq::empty());
                    Ok(empty)
                },
            }
        } else {
            Ok(rest)
        },
        None => Err(Error::invalid("repository URL is not a Launchpad URL")),
    }
}

/// The repository that a URL names.
pub fn repository_of_url(url: &UrlParts) -> (r: Result<String, Error>)
    ensures
        text_outcome(r) == url_repository(url@),
{
    match repository_path_of_url(url) {
        Err(error) => Err(error),
        Ok(path) => match percent_decode(path.as_str()) {
            Ok(path) => bare(path.as_str()),
            Err(reason) => Err(Error::UrlEncoding { reason }),
        },
    }
}

fn repository_of_name(text: &str) -> (r: Result<String, Error>)
    ensures
        text_outcome(r) == named_repository(text@),
{
    match split_once(text, ":") {
        Some((front, rest)) => {
            let known = match rsplit_once(front.as_str(), "@") {
                Some((_user, host)) => launchpad_host(host.as_str()),
                None => launchpad_host(front.as_str()),
            };
            if known || same(front.as_str(), "lp") {
                bare(rest.as_str())
            } else {
                Err(Error::invalid("repository URL is not a Launchpad URL"))
            }
        },
        None => bare(text),
    }
}

/// The path of the repository that a text names: a short name, a canonical path, an `lp:` or
/// `lp://` identifier, a Launchpad web or API URL, or a clone URL for HTTPS, SSH or `git@`. Any
/// other host in front of a colon is refused.
pub fn normalise_repository(raw: &str) -> (r: Result<String, Error>)
    ensures
        text_outcome(r) == normalised_repository(raw@),
{
    let text = trim(raw);
    if contains(text.as_str(), "://") {
        match parse_url(text.as_str()) {
            Ok(url) => repository_of_url(&url),
            Err(source) => Err(Error::Url { url: text, source }),
        }
    } else {
        repository_of_name(text.as_str())
    }
}

/// Whether the URL of a Git remote names a repository on Launchpad.
pub open spec fn is_launchpad_remote(url: Seq<char>) -> bool {
    contains_text(trimmed(url), ":"@) && normalised_repository(url) is Ok
}

/// Whether the URL of a Git remote names a repository on Launchpad.
pub fn launchpad_remote(url: &str) -> (r: bool)
    ensures
        r == is_launchpad_remote(url@),
{
    contains(trim(url).as_str(), ":") && normalise_repository(url).is_ok()
}

/// A remote on Launchpad names a host of Launchpad, or the scheme `lp` in place of one: in its
/// URL, or in front of its first colon.
pub proof fn lemma_launchpad_remote(url: Seq<char>)
    requires
        is_launchpad_remote(url),
    ensures
        ({
            let text = trimmed(url);
            if contains_text(text, "://"@) {
                &&& parsed_url(text) is Ok
                &&& parsed_url(text)->Ok_0.scheme == "lp"@ || (parsed_url(text)->Ok_0.host matches Some(
                    host,
                ) && is_launchpad_host(host))
            } else {
                split_first(text, ":"@) matches Some((front, rest)) && (front == "lp"@
                    || is_launchpad_host(host_of(front)))
            }
        }),
{
    let text = trimmed(url);
    if !contains_text(text, "://"@) && split_first(text, ":"@) is None {
        reveal_strlit(":");
        let at = choose|at: int| occurs_at(text, ":"@, at);
        lemma_occurrence_found(text, ":"@, at, 0);
    }
}

proof fn lemma_occurrence_found(text: Seq<char>, pattern: Seq<char>, at: int, from: int)
    requires
        occurs_at(text, pattern, at),
        from <= at,
    ensures
        first_index(text, pattern, from) is Some,
    decreases at - from,
{
    if !occurs_at(text, pattern, from) {
        lemma_occurrence_found(text, pattern, at, from + 1);
    }
}

/// Whether a file path stays within its repository.
pub open spec fn is_repository_relative(path: Seq<char>) -> bool {
    !"/"@.is_prefix_of(path) && !split_on(path, '/').contains(".."@)
}

/// What a file path is refused with.
pub open spec fn path_checked(path: Seq<char>) -> Result<(), ErrorView> {
    if is_repository_relative(path) {
        Ok(())
    } else {
        Err(invalid("path must be repository-relative and cannot contain '..'"@))
    }
}

/// Refuses a file path that is absolute or has a parent segment.
pub fn validate_repository_path(path: &str) -> (r: Result<(), Error>)
    ensures
        unit_outcome(r) == path_checked(path@),
{
    let segments = split(path, '/');
    let mut parent = false;
    for i in 0..segments.len()
        invariant
            parent == views(segments@).take(i as int).contains(".."@),
    {
        let ghost front = views(segments@).take(i as int);
        assert(views(segments@).take(i + 1) =~= front.push(segments@[i as int]@));
        if same(segments[i].as_str(), "..") {
            parent = true;
            assert(views(segments@).take(i + 1)[i as int] == ".."@);
        } else if parent {
            let ghost at = choose|at: int| 0 <= at < front.len() && front[at] == ".."@;
            assert(views(segments@).take(i + 1)[at] == ".."@);
        }
    }
    assert(views(segments@).take(segments@.len() as int) =~= views(segments@));
    if starts_with(path, "/") || parent {
        Err(Error::invalid("path must be repository-relative and cannot contain '..'"))
    } else {
        Ok(())
    }
}

/// The full path of a ref.
pub open spec fn normalised_ref(path: Seq<char>) -> Seq<char> {
    if "refs/"@.is_prefix_of(path) {
        path
    } else {
        "refs/heads/"@ + path
    }
}

/// The full path of a ref: one that does not begin with `refs/` is the name of a branch.
pub fn normalise_ref(path: &str) -> (r: String)
    ensures
        r@ == normalised_ref(path@),
{
    if starts_with(path, "refs/") {
        copy(path)
    } else {
        cat2("refs/heads/", path)
    }
}

/// The URL of a path of the web service.
pub open spec fn service_url(base: Seq<char>, path: Seq<char>) -> Seq<char> {
    trim_end_of(base, '/') + "/"@ + trim_start_of(path, '/')
}

/// The URL of a path of the web service at a base URL.
pub fn api_url(base: &str, path: &str) -> (r: String)
    ensures
        r@ == service_url(base@, path@),
{
    cat3(trim_end_matches(base, '/').as_str(), "/", trim_start_matches(path, '/').as_str())
}

/// The URL that looks up a repository by its path.
pub open spec fn repository_lookup_url(base: Seq<char>, path: Seq<char>) -> Result<
    Seq<char>,
    ErrorView,
> {
    match normalised_repository(path) {
        Ok(path) => Ok(
            service_url(
                base,
                "/+git?ws.op=getByPath&path="@ + form_encoded(vstd::utf8::encode_utf8(path)),
            ),
        ),
        Err(error) => Err(error),
    }
}

/// The URL that looks up a repository by its path.
pub fn repository_url(base: &str, path: &str) -> (r: Result<String, Error>)
    ensures
        text_outcome(r) == repository_lookup_url(base@, path@),
{
    match normalise_repository(path) {
        Ok(path) => Ok(
            api_url(
                base,
                cat2(
                    "/+git?ws.op=getByPath&path=",
                    encode_query_value(path.as_str()).as_str(),
                ).as_str(),
            ),
        ),
        Err(error) => Err(error),
    }
}

/// A full ref path stays as it is.
pub proof fn lemma_normalised_ref_is_stable(path: Seq<char>)
    ensures
        normalised_ref(normalised_ref(path)) == normalised_ref(path),
{
    reveal_strlit("refs/");
    reveal_strlit("refs/heads/");
    if !"refs/"@.is_prefix_of(path) {
        assert("refs/"@ =~= ("refs/heads/"@ + path).take("refs/"@.len() as int));
        assert("refs/"@.is_prefix_of("refs/heads/"@ + path));
    }
}

proof fn lemma_trimmed_start(text: Seq<char>, c: char)
    ensures
        trim_start_of(text, c).len() > 0 ==> trim_start_of(text, c)[0] != c,
    decreases text.len(),
{
    if text.len() > 0 && text[0] == c {
        lemma_trimmed_start(text.skip(1), c);
    }
}

proof fn lemma_trimmed_end(text: Seq<char>, c: char)
    ensures
        trim_end_of(text, c).len() > 0 ==> trim_end_of(text, c).last() != c && trim_end_of(text, c)[0]
            == text[0],
    decreases text.len(),
{
    if text.len() > 0 && text.last() == c {
        lemma_trimmed_end(text.drop_last(), c);
    }
}

proof fn lemma_first_index_occurs(text: Seq<char>, pattern: Seq<char>, from: int)
    ensures
        first_index(text, pattern, from) matches Some(at) ==> occurs_at(text, pattern, at),
    decreases text.len() - from + 1,
{
    if from + pattern.len() <= text.len() && !occurs_at(text, pattern, from) {
        lemma_first_index_occurs(text, pattern, from + 1);
    }
}

proof fn lemma_bare_again(source: Seq<char>, path: Seq<char>)
    requires
        bare_repository(source) == Ok::<Seq<char>, ErrorView>(path),
    ensures
        bare_repository(path) == Ok::<Seq<char>, ErrorView>(path),
{
    lemma_trimmed_start(source, '/');
    lemma_trimmed_end(trim_start_of(source, '/'), '/');
}

/// Normalising a repository path again changes nothing, provided that it holds no colon and no
/// blanks at its ends.
pub proof fn lemma_normalise_repository_again(raw: Seq<char>, path: Seq<char>)
    requires
        normalised_repository(raw) == Ok::<Seq<char>, ErrorView>(path),
        !path.contains(':'),
        trimmed(path) == path,
    ensures
        normalised_repository(path) == Ok::<Seq<char>, ErrorView>(path),
{
    reveal_strlit(":");
    reveal_strlit("://");
    lemma_first_index_occurs(path, ":"@, 0);
    if let Some(at) = first_index(path, ":"@, 0) {
        assert(path.subrange(at, at + 1)[0] == path[at]);
    }
    assert forall|at: int| !occurs_at(path, "://"@, at) by {
        if occurs_at(path, "://"@, at) {
            assert(path.subrange(at, at + 3)[0] == path[at]);
        }
    }
    assert forall|source: Seq<char>| #[trigger]
        bare_repository(source) == Ok::<Seq<char>, ErrorView>(path) implies bare_repository(path) == Ok::<
        Seq<char>,
        ErrorView,
    >(path) by {
        lemma_bare_again(source, path);
    }
}

/// Whether a text is the path of a repository as it stands: without blanks or slashes at its
/// ends, and without the signs that set a host or a scheme apart.
pub open spec fn is_bare(path: Seq<char>) -> bool {
    &&& path.len() > 0
    &&& !is_space(path[0]) && !is_space(path.last())
    &&& path[0] != '/' && path.last() != '/'
    &&& !path.contains(':') && !path.contains('@')
}

proof fn lemma_bare_is_kept(path: Seq<char>)
    requires
        is_bare(path),
    ensures
        bare_repository(path) == Ok::<Seq<char>, ErrorView>(path),
        trimmed(path) == path,
{
}

proof fn lemma_behind_colon(front: Seq<char>, path: Seq<char>)
    requires
        is_bare(path),
        front.len() > 0,
        !is_space(front[0]),
        !front.contains(':'),
    ensures
        trimmed(front + ":"@ + path) == front + ":"@ + path,
        !contains_text(front + ":"@ + path, "://"@),
        split_first(front + ":"@ + path, ":"@) == Some((front, path)),
{
    reveal_strlit(":");
    reveal_strlit("://");
    let text = front + ":"@ + path;
    let colon = front.len() as int;
    assert(text[0] == front[0]);
    assert(text.last() == path.last());
    assert forall|at: int| !occurs_at(text, "://"@, at) by {
        if occurs_at(text, "://"@, at) {
            let found = text.subrange(at, at + 3);
            assert(found[0] == text[at] && found[1] == text[at + 1]);
            if at < colon {
                assert(text[at] == front[at]);
            } else if at > colon {
                assert(text[at] == path[at - colon - 1]);
            } else {
                assert(text[at + 1] == path[0]);
            }
        }
    }
    assert forall|at: int| 0 <= at < colon implies !occurs_at(text, ":"@, at) by {
        if occurs_at(text, ":"@, at) {
            assert(text.subrange(at, at + 1)[0] == text[at]);
            assert(text[at] == front[at]);
        }
    }
    assert(text.subrange(colon, colon + 1) =~= ":"@);
    lemma_first_found(text, ":"@, colon, 0);
    assert(text.take(colon) =~= front);
    assert(text.skip(colon + 1) =~= path);
}

/// The path of a repository names it alone, behind `lp:`, and behind the host of a clone URL with
/// or without a user.
pub proof fn lemma_repository_spellings(path: Seq<char>)
    requires
        is_bare(path),
    ensures
        normalised_repository(path) == Ok::<Seq<char>, ErrorView>(path),
        normalised_repository("lp"@ + ":"@ + path) == Ok::<Seq<char>, ErrorView>(path),
        normalised_repository("git@git.launchpad.net"@ + ":"@ + path) == Ok::<Seq<char>, ErrorView>(
            path,
        ),
        normalised_repository("git.launchpad.net"@ + ":"@ + path) == Ok::<Seq<char>, ErrorView>(
            path,
        ),
{
    lemma_bare_is_kept(path);
    lemma_normalise_repository_alone(path);
    reveal_strlit("lp");
    reveal_strlit("@");
    lemma_behind_colon("lp"@, path);
    assert forall|at: int| !occurs_at("lp"@, "@"@, at) by {
        if occurs_at("lp"@, "@"@, at) {
            assert("lp"@.subrange(at, at + 1)[0] == "lp"@[at]);
        }
    }
    lemma_not_split("lp"@, "@"@, 1);
    lemma_git_host();
    lemma_behind_colon("git@git.launchpad.net"@, path);
    let host = "git.launchpad.net"@;
    reveal_strlit("git.launchpad.net");
    reveal_strlit(".launchpad.net");
    assert forall|at: int| !occurs_at(host, "@"@, at) by {
        if occurs_at(host, "@"@, at) {
            assert(host.subrange(at, at + 1)[0] == host[at]);
        }
    }
    lemma_not_split(host, "@"@, host.len() - 1);
    assert(host.skip(3) =~= ".launchpad.net"@);
    assert(".launchpad.net"@.is_suffix_of(host));
    lemma_behind_colon(host, path);
}

proof fn lemma_normalise_repository_alone(path: Seq<char>)
    requires
        is_bare(path),
    ensures
        normalised_repository(path) == Ok::<Seq<char>, ErrorView>(path),
{
    reveal_strlit(":");
    reveal_strlit("://");
    lemma_bare_is_kept(path);
    lemma_first_index_occurs(path, ":"@, 0);
    if let Some(at) = first_index(path, ":"@, 0) {
        assert(path.subrange(at, at + 1)[0] == path[at]);
    }
    assert forall|at: int| !occurs_at(path, "://"@, at) by {
        if occurs_at(path, "://"@, at) {
            assert(path.subrange(at, at + 3)[0] == path[at]);
        }
    }
}

proof fn lemma_git_host()
    ensures
        split_last("git@git.launchpad.net"@, "@"@) matches Some((_, host)) && is_launchpad_host(host),
        !"git@git.launchpad.net"@.contains(':'),
        "git@git.launchpad.net"@.len() > 0,
        !is_space("git@git.launchpad.net"@[0]),
{
    let text = "git@git.launchpad.net"@;
    reveal_strlit("git@git.launchpad.net");
    reveal_strlit("@");
    reveal_strlit(".launchpad.net");
    assert(text.subrange(3, 4) =~= "@"@);
    assert forall|at: int| 3 < at implies !occurs_at(text, "@"@, at) by {
        if occurs_at(text, "@"@, at) {
            assert(text.subrange(at, at + 1)[0] == text[at]);
        }
    }
    lemma_last_index(text, "@"@, 3, text.len() - 1);
    let host = text.skip(4);
    assert(host.skip(3) =~= ".launchpad.net"@);
    assert(".launchpad.net"@.is_suffix_of(host));
}

/// The path of a repository names it in the URL of a page or a clone, and behind a version in the
/// URL of the web service.
pub proof fn lemma_repository_urls(url: UrlView, host: Seq<char>, version: Seq<char>, path: Seq<char>)
    requires
        is_bare(path),
        is_launchpad_host(host),
        !version.contains('/'),
        version.len() > 0,
        url.scheme != "lp"@,
        url.host == Some(host),
        url.path == (if "api."@.is_prefix_of(host) {
            "/"@ + version + "/"@ + encoded_path(path)
        } else {
            "/"@ + encoded_path(path)
        }),
    ensures
        url_repository(url) == Ok::<Seq<char>, ErrorView>(path),
{
    reveal_strlit("/");
    let encoded = encoded_path(path);
    lemma_first_is_kept(path);
    lemma_path_is_decoded(path);
    lemma_bare_is_kept(path);
    if "api."@.is_prefix_of(host) {
        let rest = version + "/"@ + encoded;
        let at = version.len() as int;
        assert(version[0] != '/') by {
            assert(version.contains(version[0]));
        }
        assert(url.path.skip(1) =~= rest);
        assert(rest[0] == version[0]);
        assert(trim_start_of(rest, '/') == rest);
        assert(trim_start_of(url.path, '/') == rest);
        assert(rest.subrange(at, at + 1) =~= "/"@);
        assert forall|earlier: int| 0 <= earlier < at implies !occurs_at(rest, "/"@, earlier) by {
            if occurs_at(rest, "/"@, earlier) {
                assert(rest.subrange(earlier, earlier + 1)[0] == rest[earlier]);
                assert(rest[earlier] == version[earlier]);
            }
        }
        lemma_first_found(rest, "/"@, at, 0);
        assert(rest.skip(at + 1) =~= encoded);
    } else {
        assert(url.path.skip(1) =~= encoded);
        assert(trim_start_of(encoded, '/') == encoded);
        assert(trim_start_of(url.path, '/') == encoded);
    }
}

} // verus!
