//! The endpoints of Launchpad: the web service, its credentials, and the download of diffs.
use vstd::prelude::*;
use crate::error::{
    invalid, text_outcome, unit_outcome, Error, ErrorView, FaultKind, LaunchpadFault,
};
use crate::format::{cat2, cat4};
use crate::size::size_of_text;
use crate::text::{
    characters, contains, contains_text, copy, opt_str_view, opt_view, same, starts_with,
    strip_prefix, strip_suffix, trim_end_matches, trim_end_of, without_prefix, without_suffix,
};
use crate::web::{fits_moved, move_url, moved_url, parse_url, parsed_url, UrlParts, UrlView};

verus! {

/// The host of the web service of a Launchpad instance.
pub open spec fn instance_host(instance: Seq<char>) -> Result<Seq<char>, ErrorView> {
    if instance == "production"@ {
        Ok("api.launchpad.net"@)
    } else if instance == "staging"@ {
        Ok("api.staging.launchpad.net"@)
    } else if instance == "qastaging"@ {
        Ok("api.qastaging.launchpad.net"@)
    } else if contains_text(instance, "."@) {
        Ok(instance)
    } else {
        Err(invalid("unknown Launchpad instance: "@ + instance))
    }
}

/// The base URL of the web service: the one that is set, or that of an instance and a version.
pub open spec fn base_url(
    base: Option<Seq<char>>,
    instance: Option<Seq<char>>,
    version: Option<Seq<char>>,
) -> Result<Seq<char>, ErrorView> {
    match base {
        Some(base) => Ok(trim_end_of(base, '/')),
        None => match instance_host(crate::fields::value_or(instance, "production"@)) {
            Err(error) => Err(error),
            Ok(host) => Ok(
                "https://"@ + host + "/"@ + crate::fields::value_or(version, "devel"@),
            ),
        },
    }
}

fn host_of_instance(instance: &str) -> (r: Result<String, Error>)
    ensures
        text_outcome(r) == instance_host(instance@),
{
    if same(instance, "production") {
        Ok(copy("api.launchpad.net"))
    } else if same(instance, "staging") {
        Ok(copy("api.staging.launchpad.net"))
    } else if same(instance, "qastaging") {
        Ok(copy("api.qastaging.launchpad.net"))
    } else if contains(instance, ".") {
        Ok(copy(instance))
    } else {
        Err(Error::invalid(cat2("unknown Launchpad instance: ", instance).as_str()))
    }
}

/// The base URL of the web service: the one that is set, or that of an instance and a version.
/// The instance is `production` and the version `devel` where none is set.
pub fn api_base_url(base: Option<&str>, instance: Option<&str>, version: Option<&str>) -> (r: Result<
    String,
    Error,
>)
    ensures
        text_outcome(r) == base_url(
            opt_str_view(base),
            opt_str_view(instance),
            opt_str_view(version),
        ),
{
    if let Some(base) = base {
        return Ok(trim_end_matches(base, '/'));
    }
    let instance = match instance {
        Some(instance) => instance,
        None => "production",
    };
    let version = match version {
        Some(version) => version,
        None => "devel",
    };
    match host_of_instance(instance) {
        Ok(host) => Ok(cat4("https://", host.as_str(), "/", version)),
        Err(error) => Err(error),
    }
}

/// Whether credentials are to be loaded.
#[derive(Copy, Clone, Debug, Eq, PartialEq, Structural)]
pub enum Access {
    Anonymous,
    Credentials,
}

/// How the web service is accessed.
pub open spec fn planned_access(require_authentication: bool, force_anonymous: bool) -> Result<
    Access,
    ErrorView,
> {
    if require_authentication && force_anonymous {
        Err(invalid("authenticated operations are unavailable in anonymous mode"@))
    } else if force_anonymous {
        Ok(Access::Anonymous)
    } else {
        Ok(Access::Credentials)
    }
}

/// How the web service is accessed. An operation that needs authentication is refused in
/// anonymous mode.
pub fn plan_access(require_authentication: bool, force_anonymous: bool) -> (r: Result<Access, Error>)
    ensures
        (r matches Ok(access) ==> planned_access(require_authentication, force_anonymous) == Ok::<
            Access,
            ErrorView,
        >(access)),
        r matches Err(error) ==> planned_access(require_authentication, force_anonymous) == Err::<
            Access,
            ErrorView,
        >(error@),
{
    if require_authentication && force_anonymous {
        Err(Error::invalid("authenticated operations are unavailable in anonymous mode"))
    } else if force_anonymous {
        Ok(Access::Anonymous)
    } else {
        Ok(Access::Credentials)
    }
}

/// Whether an operation goes on anonymously where credentials could not be loaded.
pub open spec fn without_credentials(require_authentication: bool, kind: FaultKind, text: Seq<char>) -> Result<
    (),
    ErrorView,
> {
    if kind == FaultKind::NotAuthenticated && !require_authentication {
        Ok(())
    } else {
        Err(ErrorView::Launchpad { kind, text })
    }
}

/// Whether an operation goes on anonymously where credentials could not be loaded: only where
/// there are none, and it does not need them.
pub fn go_without_credentials(require_authentication: bool, fault: LaunchpadFault) -> (r: Result<
    (),
    Error,
>)
    ensures
        unit_outcome(r) == without_credentials(
            require_authentication,
            fault.kind,
            fault.text@,
        ),
{
    if fault.kind == FaultKind::NotAuthenticated && !require_authentication {
        Ok(())
    } else {
        Err(Error::Launchpad { source: fault })
    }
}

/// The host of the pages of an instance, by the host of its web service.
pub open spec fn page_host(host: Option<Seq<char>>) -> Option<Seq<char>> {
    if host == Some("api.launchpad.net"@) {
        Some("code.launchpad.net"@)
    } else if host == Some("api.staging.launchpad.net"@) {
        Some("code.staging.launchpad.net"@)
    } else if host == Some("api.qastaging.launchpad.net"@) {
        Some("code.qastaging.launchpad.net"@)
    } else {
        None
    }
}

/// Whether a path is a base path or lies below it.
pub open spec fn is_below(path: Seq<char>, base_path: Seq<char>) -> bool {
    base_path.len() == 0 || path == base_path || match without_prefix(path, base_path) {
        Some(rest) => "/"@.is_prefix_of(rest),
        None => false,
    }
}

/// Where the diff behind a link is downloaded from: the link itself, or a host and path of the
/// pages of the instance. A link that lies outside the web service is refused.
pub open spec fn download_place(base: UrlView, url: UrlView) -> Result<
    Option<(Seq<char>, Seq<char>)>,
    ErrorView,
> {
    let base_path = trim_end_of(base.path, '/');
    if url.scheme != base.scheme || url.host != base.host || url.port != base.port || !is_below(
        url.path,
        base_path,
    ) {
        Err(invalid("preview diff text URL is outside the configured Launchpad API"@))
    } else {
        match page_host(base.host) {
            None => Ok(None),
            Some(host) => {
                let relative = match without_prefix(url.path, base_path) {
                    Some(path) => without_suffix(path, "/diff_text"@),
                    None => None,
                };
                match relative {
                    Some(relative) => Ok(Some((host, relative + "/+files/preview.diff"@))),
                    None => Err(invalid("preview diff text URL has an invalid path"@)),
                }
            },
        }
    }
}

fn host_of_pages(host: &Option<String>) -> (r: Option<&'static str>)
    ensures
        opt_str_view(r) == page_host(opt_view(*host)),
{
    match host {
        Some(host) => {
            let host = host.as_str();
            if same(host, "api.launchpad.net") {
                Some("code.launchpad.net")
            } else if same(host, "api.staging.launchpad.net") {
                Some("code.staging.launchpad.net")
            } else if same(host, "api.qastaging.launchpad.net") {
                Some("code.qastaging.launchpad.net")
            } else {
                None
            }
        },
        None => None,
    }
}

fn same_host(left: &Option<String>, right: &Option<String>) -> (r: bool)
    ensures
        r == (opt_view(*left) == opt_view(*right)),
{
    match (left, right) {
        (Some(left), Some(right)) => same(left.as_str(), right.as_str()),
        (None, None) => true,
        _ => false,
    }
}

fn same_port(left: Option<u16>, right: Option<u16>) -> (r: bool)
    ensures
        r == (left == right),
{
    match (left, right) {
        (Some(left), Some(right)) => left == right,
        (None, None) => true,
        _ => false,
    }
}

fn below(path: &str, base_path: &str) -> (r: bool)
    ensures
        r == is_below(path@, base_path@),
{
    base_path.is_empty() || same(path, base_path) || match strip_prefix(path, base_path) {
        Some(rest) => starts_with(rest.as_str(), "/"),
        None => false,
    }
}

/// What an optional host and path hold.
pub open spec fn place_view(place: Option<(String, String)>) -> Option<(Seq<char>, Seq<char>)> {
    match place {
        Some(place) => Some((place.0@, place.1@)),
        None => None,
    }
}

/// Where the diff behind a link is downloaded from: the link itself, or a host and path of the
/// pages of the instance. A link that lies outside the web service is refused.
pub fn place_download(base: &UrlParts, url: &UrlParts) -> (r: Result<Option<(String, String)>, Error>)
    ensures
        (r matches Ok(place) ==> download_place(base@, url@) == Ok::<
            Option<(Seq<char>, Seq<char>)>,
            ErrorView,
        >(place_view(place))),
        r matches Err(error) ==> download_place(base@, url@) == Err::<
            Option<(Seq<char>, Seq<char>)>,
            ErrorView,
        >(error@),
{
    let base_path = trim_end_matches(base.path.as_str(), '/');
    if !same(url.scheme.as_str(), base.scheme.as_str()) || !same_host(&url.host, &base.host)
        || !same_port(url.port, base.port) || !below(url.path.as_str(), base_path.as_str()) {
        return Err(Error::invalid("preview diff text URL is outside the configured Launchpad API"));
    }
    let host = match host_of_pages(&base.host) {
        Some(host) => host,
        None => return Ok(None),
    };
    let relative = match strip_prefix(url.path.as_str(), base_path.as_str()) {
        Some(path) => strip_suffix(path.as_str(), "/diff_text"),
        None => None,
    };
    match relative {
        Some(relative) => Ok(
            Some((copy(host), cat2(relative.as_str(), "/+files/preview.diff"))),
        ),
        None => Err(Error::invalid("preview diff text URL has an invalid path")),
    }
}

/// The URL that the diff behind a link is downloaded from, at a host and path.
pub open spec fn moved_download(link: Seq<char>, place: (Seq<char>, Seq<char>)) -> Result<
    Seq<char>,
    ErrorView,
> {
    match moved_url(link, place.0, place.1) {
        Some(url) => Ok(url),
        None => Err(invalid("preview diff text URL has an invalid host"@)),
    }
}

/// The URL that the diff behind a link is downloaded from: on a known instance the page of the
/// diff, and otherwise the link.
pub open spec fn download_url(base_url: Seq<char>, link: Seq<char>) -> Result<Seq<char>, ErrorView> {
    match parsed_url(base_url) {
        Err(source) => Err(ErrorView::Url { url: base_url, source }),
        Ok(base) => match parsed_url(link) {
            Err(source) => Err(ErrorView::Url { url: link, source }),
            Ok(url) => match download_place(base, url) {
                Err(error) => Err(error),
                Ok(None) => Ok(url.text),
                Ok(Some(place)) => moved_download(link, place),
            },
        },
    }
}

/// Whether the URL that the diff behind a link is downloaded from can be represented.
pub open spec fn fits_download(base_url: Seq<char>, link: Seq<char>) -> bool {
    match (parsed_url(base_url), parsed_url(link)) {
        (Ok(base), Ok(url)) => match download_place(base, url) {
            Ok(Some(place)) => fits_moved(link, place.0, place.1),
            _ => true,
        },
        _ => true,
    }
}

/// The URL that the diff behind a link is downloaded from: on a known instance the page of the
/// diff, and otherwise the link.
pub fn diff_download_url(base_url: &str, link: &str) -> (r: Result<String, Error>)
    requires
        fits_download(base_url@, link@),
    ensures
        text_outcome(r) == download_url(base_url@, link@),
{
    let base = match parse_url(base_url) {
        Ok(base) => base,
        Err(source) => return Err(Error::Url { url: copy(base_url), source }),
    };
    let url = match parse_url(link) {
        Ok(url) => url,
        Err(source) => return Err(Error::Url { url: copy(link), source }),
    };
    let (host, path) = match place_download(&base, &url) {
        Err(error) => return Err(error),
        Ok(None) => return Ok(url.text),
        Ok(Some(place)) => place,
    };
    match move_url(link, host.as_str(), path.as_str()) {
        Some(url) => Ok(url),
        None => Err(Error::invalid("preview diff text URL has an invalid host")),
    }
}

fn can_download(base_url: &str, link: &str) -> (r: bool)
    ensures
        r == fits_download(base_url@, link@),
{
    let (base, url) = match (parse_url(base_url), parse_url(link)) {
        (Ok(base), Ok(url)) => (base, url),
        _ => return true,
    };
    let (host, path) = match place_download(&base, &url) {
        Ok(Some(place)) => place,
        _ => return true,
    };
    let own: usize = size_of_text(url.text.as_str());
    let new: usize = size_of_text(path.as_str());
    characters(host.as_str()).len() <= 253 && own <= 0xffff_ffff && new <= 0x5555_5555 && own as u64
        + 3 * new as u64 + 0x1_0000 <= 0xffff_ffff
}

/// The URL that the diff behind a link is downloaded from. There is none where it cannot be
/// represented.
pub fn bounded_download_url(base_url: &str, link: &str) -> (r: Result<Option<String>, Error>)
    ensures
        !fits_download(base_url@, link@) ==> r matches Ok(None),
        fits_download(base_url@, link@) ==> match r {
            Ok(url) => url matches Some(url) && download_url(base_url@, link@) == Ok::<
                Seq<char>,
                ErrorView,
            >(url@),
            Err(error) => download_url(base_url@, link@) == Err::<Seq<char>, ErrorView>(error@),
        },
{
    if !can_download(base_url, link) {
        return Ok(None);
    }
    match diff_download_url(base_url, link) {
        Ok(url) => Ok(Some(url)),
        Err(error) => Err(error),
    }
}

/// Whether the answer to a download is one, and what it is refused with otherwise.
pub open spec fn download_checked(url: Seq<char>, status: u16, status_text: Seq<char>) -> Result<
    (),
    ErrorView,
> {
    if 200 <= status < 300 {
        Ok(())
    } else {
        Err(ErrorView::HttpStatus { url, status: status_text })
    }
}

/// Whether the answer to a download is one, and what it is refused with otherwise.
pub fn check_download(url: &str, status: u16, status_text: &str) -> (r: Result<(), Error>)
    ensures
        unit_outcome(r) == download_checked(url@, status, status_text@),
{
    if 200 <= status && status < 300 {
        Ok(())
    } else {
        Err(Error::HttpStatus { url: copy(url), status: copy(status_text) })
    }
}

/// The diff of a known instance is only ever downloaded from the pages of that instance, and
/// only for a link into its own web service.
pub proof fn lemma_download_stays_in_instance(base: UrlView, url: UrlView)
    ensures
        download_place(base, url) matches Ok(place) ==> {
            &&& url.scheme == base.scheme && url.host == base.host && url.port == base.port
            &&& place matches Some(place) ==> page_host(base.host) == Some(place.0)
            &&& place is None ==> page_host(base.host) is None
        },
{
}

} // verus!
