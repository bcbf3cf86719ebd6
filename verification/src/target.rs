//! Which Launchpad resource a request is about.
use vstd::prelude::*;
use crate::error::{invalid, number_outcome, Error, ErrorView};
use crate::format::cat2;
use crate::number::{
    decimal, is_digit, lemma_decimal_digits, lemma_decimal_unsigned, parse_u64, parse_usize,
    unsigned_within,
};
use crate::text::{
    contains, contains_text, copy, lemma_not_split, lemma_split_at_slashes, occurs_at, opt_str_view,
    opt_view, pair_view, rsplit_once, same, split_last, starts_with, strip_prefix, strip_suffix,
    trim, trim_start_matches, trim_start_of, trimmed, without_prefix, without_suffix,
};
use crate::web::{
    copy_pairs, decoded_text, no_pairs, pairs_view, parse_url, parsed_url, percent_decode, UrlParts,
    UrlView,
};

verus! {

/// The greatest number of comments that a view of a resource shows.
pub const MAX_COMMENTS: usize = 20;

/// What kind of resource a target names.
#[derive(Clone, Debug, Eq, PartialEq)]
pub enum ResourceKind {
    Bug { id: u64 },
    MergeProposal { repository: String, id: u64 },
    MergeProposalId { id: u64 },
    Repository,
    Generic,
}

/// What the kind of a resource holds.
#[verifier::ext_equal]
pub enum KindView {
    Bug { id: u64 },
    MergeProposal { repository: Seq<char>, id: u64 },
    MergeProposalId { id: u64 },
    Repository,
    Generic,
}

impl View for ResourceKind {
    type V = KindView;

    open spec fn view(&self) -> KindView {
        match *self {
            ResourceKind::Bug { id } => KindView::Bug { id },
            ResourceKind::MergeProposal { repository, id } => KindView::MergeProposal {
                repository: repository@,
                id,
            },
            ResourceKind::MergeProposalId { id } => KindView::MergeProposalId { id },
            ResourceKind::Repository => KindView::Repository,
            ResourceKind::Generic => KindView::Generic,
        }
    }
}

/// A resource, and what of it is asked for.
#[derive(Clone, Debug, Eq, PartialEq)]
pub struct ResourceTarget {
    pub path: String,
    pub kind: ResourceKind,
    pub include_comments: bool,
    pub comment_limit: usize,
    pub diff: bool,
    pub preview_diff_id: Option<u64>,
}

/// What a target holds.
#[verifier::ext_equal]
pub struct TargetView {
    pub path: Seq<char>,
    pub kind: KindView,
    pub include_comments: bool,
    pub comment_limit: usize,
    pub diff: bool,
    pub preview_diff_id: Option<u64>,
}

impl View for ResourceTarget {
    type V = TargetView;

    open spec fn view(&self) -> TargetView {
        TargetView {
            path: self.path@,
            kind: self.kind@,
            include_comments: self.include_comments,
            comment_limit: self.comment_limit,
            diff: self.diff,
            preview_diff_id: self.preview_diff_id,
        }
    }
}

/// What the outcome of parsing a target holds.
pub open spec fn target_outcome(r: Result<ResourceTarget, Error>) -> Result<TargetView, ErrorView> {
    match r {
        Ok(target) => Ok(target@),
        Err(error) => Err(error@),
    }
}

/// A path and the pairs of a query.
pub type Location = (String, Vec<(String, String)>);

/// What the outcome of locating a target holds.
pub open spec fn location_outcome(r: Result<Location, Error>) -> Result<
    (Seq<char>, Seq<(Seq<char>, Seq<char>)>),
    ErrorView,
> {
    match r {
        Ok(location) => Ok((location.0@, pairs_view(location.1@))),
        Err(error) => Err(error@),
    }
}

/// Whether a host serves Launchpad's pages.
pub open spec fn is_web_host(host: Option<Seq<char>>) -> bool {
    host == Some("launchpad.net"@) || host == Some("bugs.launchpad.net"@) || host == Some(
        "code.launchpad.net"@,
    )
}

/// The encoded path that a URL names: behind the scheme `lp` the host is its first segment.
pub open spec fn url_target_path(url: UrlView) -> Seq<char> {
    let rest = trim_start_of(url.path, '/');
    if url.scheme == "lp"@ {
        match url.host {
            Some(host) => if host.len() > 0 && rest.len() > 0 {
                host + "/"@ + rest
            } else {
                host + rest
            },
            None => rest,
        }
    } else {
        rest
    }
}

/// The path and query that a target URL names.
pub open spec fn url_location(url: UrlView) -> Result<
    (Seq<char>, Seq<(Seq<char>, Seq<char>)>),
    ErrorView,
> {
    if url.scheme != "lp"@ && !is_web_host(url.host) {
        Err(invalid("target URL is not a Launchpad URL"@))
    } else {
        match decoded_text(url_target_path(url)) {
            Ok(path) => Ok((path, url.query)),
            Err(reason) => Err(ErrorView::UrlEncoding { reason }),
        }
    }
}

/// Whether a target is written as a URL.
pub open spec fn is_target_url(text: Seq<char>) -> bool {
    "lp://"@.is_prefix_of(text) || "http://"@.is_prefix_of(text) || "https://"@.is_prefix_of(text)
}

/// The path and query that a target names.
pub open spec fn target_location(raw: Seq<char>) -> Result<
    (Seq<char>, Seq<(Seq<char>, Seq<char>)>),
    ErrorView,
> {
    let text = trimmed(raw);
    if is_target_url(text) {
        match parsed_url(text) {
            Ok(url) => url_location(url),
            Err(source) => Err(ErrorView::Url { url: text, source }),
        }
    } else {
        Ok((trim_start_of(text, '/'), Seq::empty()))
    }
}

/// The value of the first pair with a name.
pub open spec fn query_value(query: Seq<(Seq<char>, Seq<char>)>, name: Seq<char>) -> Option<Seq<char>>
    decreases query.len(),
{
    if query.len() == 0 {
        None
    } else if query[0].0 == name {
        Some(query[0].1)
    } else {
        query_value(query.skip(1), name)
    }
}

/// A number from one up.
pub open spec fn positive_id(value: Seq<char>, name: Seq<char>) -> Result<u64, ErrorView> {
    match unsigned_within(value, u64::MAX as nat) {
        Some(id) => if id > 0 {
            Ok(id as u64)
        } else {
            Err(invalid(name + " must be a positive integer"@))
        },
        None => Err(invalid(name + " must be a positive integer"@)),
    }
}

/// The path in front of a diff suffix, whether there is such a suffix, and the snapshot that it
/// selects.
pub open spec fn diff_suffix(path: Seq<char>) -> Result<(Seq<char>, bool, Option<u64>), ErrorView> {
    match without_suffix(path, "/diff/all"@) {
        Some(front) => Ok((front, true, None)),
        None => match without_suffix(path, "/diff"@) {
            Some(front) => Ok((front, true, None)),
            None => match split_last(path, "/diff/"@) {
                Some((front, id)) => match positive_id(id, "preview diff path"@) {
                    Ok(id) => Ok((front, true, Some(id))),
                    Err(error) => Err(error),
                },
                None => Ok((path, false, None)),
            },
        },
    }
}

/// The path with the spellings of a bug's path made one.
pub open spec fn bug_path(path: Seq<char>) -> Seq<char> {
    match without_prefix(path, "bug/"@) {
        Some(id) => "bugs/"@ + id,
        None => match without_prefix(path, "+bug/"@) {
            Some(id) => "bugs/"@ + id,
            None => path,
        },
    }
}

/// What kind of resource a path names.
pub open spec fn path_kind(path: Seq<char>) -> Result<KindView, ErrorView> {
    match without_prefix(path, "bugs/"@) {
        Some(id) => match unsigned_within(id, u64::MAX as nat) {
            Some(id) => Ok(KindView::Bug { id: id as u64 }),
            None => Err(invalid("bug target must end with a numeric ID"@)),
        },
        None => match split_last(path, "/+merge/"@) {
            Some((repository, id)) => match unsigned_within(id, u64::MAX as nat) {
                Some(id) => Ok(KindView::MergeProposal { repository, id: id as u64 }),
                None => Err(invalid("merge proposal target must end with a numeric ID"@)),
            },
            None => if contains_text(path, "/+git/"@) {
                Ok(KindView::Repository)
            } else {
                match unsigned_within(path, u64::MAX as nat) {
                    Some(id) => Ok(KindView::MergeProposalId { id: id as u64 }),
                    None => Ok(KindView::Generic),
                }
            },
        },
    }
}

/// How many comments a query asks for.
pub open spec fn query_limit(query: Seq<(Seq<char>, Seq<char>)>) -> Result<usize, ErrorView> {
    match query_value(query, "limit"@) {
        Some(value) => match unsigned_within(value, usize::MAX as nat) {
            Some(limit) => Ok(
                if limit < 1 {
                    1
                } else if limit > MAX_COMMENTS {
                    MAX_COMMENTS
                } else {
                    limit as usize
                },
            ),
            None => Err(invalid("limit must be an integer"@)),
        },
        None => Ok(MAX_COMMENTS),
    }
}

/// Which snapshot of the diff a query asks for.
pub open spec fn query_preview_diff(query: Seq<(Seq<char>, Seq<char>)>) -> Result<
    Option<u64>,
    ErrorView,
> {
    match query_value(query, "preview_diff"@) {
        Some(value) => match positive_id(value, "preview_diff"@) {
            Ok(id) => Ok(Some(id)),
            Err(error) => Err(error),
        },
        None => Ok(None),
    }
}

/// The snapshot that a query and a path select together.
pub open spec fn selected_snapshot(query_id: Option<u64>, path_id: Option<u64>, diff: bool) -> Result<
    Option<u64>,
    ErrorView,
> {
    let id = if query_id is Some {
        query_id
    } else {
        path_id
    };
    if query_id is Some && path_id is Some && query_id != path_id {
        Err(invalid("preview diff path and preview_diff query select different snapshots"@))
    } else if id is Some && !diff {
        Err(invalid("preview_diff is only valid for a merge proposal diff"@))
    } else {
        Ok(id)
    }
}

/// The target that a path and a query name.
pub open spec fn located_target(path: Seq<char>, query: Seq<(Seq<char>, Seq<char>)>) -> Result<
    TargetView,
    ErrorView,
> {
    match query_limit(query) {
        Err(error) => Err(error),
        Ok(comment_limit) => match query_preview_diff(query) {
            Err(error) => Err(error),
            Ok(query_id) => match diff_suffix(path) {
                Err(error) => Err(error),
                Ok((front, diff, path_id)) => match selected_snapshot(query_id, path_id, diff) {
                    Err(error) => Err(error),
                    Ok(preview_diff_id) => match path_kind(bug_path(front)) {
                        Err(error) => Err(error),
                        Ok(kind) => Ok(
                            TargetView {
                                path: bug_path(front),
                                kind,
                                include_comments: query_value(query, "comments"@) != Some("0"@),
                                comment_limit,
                                diff,
                                preview_diff_id,
                            },
                        ),
                    },
                },
            },
        },
    }
}

/// The target that a text names.
pub open spec fn parsed_target(raw: Seq<char>) -> Result<TargetView, ErrorView> {
    match target_location(raw) {
        Ok((path, query)) => located_target(path, query),
        Err(error) => Err(error),
    }
}

fn web_host(host: &Option<String>) -> (r: bool)
    ensures
        r == is_web_host(opt_view(*host)),
{
    match host {
        Some(host) => {
            let host = host.as_str();
            same(host, "launchpad.net") || same(host, "bugs.launchpad.net") || same(
                host,
                "code.launchpad.net",
            )
        },
        None => false,
    }
}

pub(crate) fn target_path_of_url(url: &UrlParts) -> (r: String)
    ensures
        r@ == url_target_path(url@),
{
    let rest = trim_start_matches(url.path.as_str(), '/');
    if same(url.scheme.as_str(), "lp") {
        match &url.host {
            Some(host) => if !host.as_str().is_empty() && !rest.as_str().is_empty() {
                crate::format::cat3(host.as_str(), "/", rest.as_str())
            } else {
                cat2(host.as_str(), rest.as_str())
            },
            None => rest,
        }
    } else {
        rest
    }
}

/// The path and query that a target URL names.
pub fn locate_url(url: &UrlParts) -> (r: Result<Location, Error>)
    ensures
        location_outcome(r) == url_location(url@),
{
    if !same(url.scheme.as_str(), "lp") && !web_host(&url.host) {
        return Err(Error::invalid("target URL is not a Launchpad URL"));
    }
    match percent_decode(target_path_of_url(url).as_str()) {
        Ok(path) => Ok((path, copy_pairs(&url.query))),
        Err(reason) => Err(Error::UrlEncoding { reason }),
    }
}

fn split_target(raw: &str) -> (r: Result<Location, Error>)
    ensures
        location_outcome(r) == target_location(raw@),
{
    let text = trim(raw);
    if starts_with(text.as_str(), "lp://") || starts_with(text.as_str(), "http://") || starts_with(
        text.as_str(),
        "https://",
    ) {
        match parse_url(text.as_str()) {
            Ok(url) => locate_url(&url),
            Err(source) => Err(Error::Url { url: text, source }),
        }
    } else {
        Ok((trim_start_matches(text.as_str(), '/'), no_pairs()))
    }
}

fn find_value<'a>(query: &'a Vec<(String, String)>, name: &str) -> (r: Option<&'a str>)
    ensures
        opt_str_view(r) == query_value(pairs_view(query@), name@),
{
    let ghost all = pairs_view(query@);
    assert(all.skip(0) =~= all);
    for i in 0..query.len()
        invariant
            all == pairs_view(query@),
            query_value(all, name@) == query_value(all.skip(i as int), name@),
    {
        assert(all.skip(i as int)[0] == pair_view(query@[i as int]));
        if same(query[i].0.as_str(), name) {
            return Some(query[i].1.as_str());
        }
        assert(all.skip(i as int).skip(1) =~= all.skip(i + 1));
    }
    None
}

/// A number from one up.
pub fn parse_positive_id(value: &str, name: &str) -> (r: Result<u64, Error>)
    ensures
        number_outcome(r) == positive_id(value@, name@),
{
    match parse_u64(value) {
        Some(id) => if id > 0 {
            Ok(id)
        } else {
            Err(Error::invalid(cat2(name, " must be a positive integer").as_str()))
        },
        None => Err(Error::invalid(cat2(name, " must be a positive integer").as_str())),
    }
}

/// What the outcome of taking a diff suffix off holds.
pub open spec fn suffix_outcome(r: Result<(String, bool, Option<u64>), Error>) -> Result<
    (Seq<char>, bool, Option<u64>),
    ErrorView,
> {
    match r {
        Ok(parts) => Ok((parts.0@, parts.1, parts.2)),
        Err(error) => Err(error@),
    }
}

/// The path in front of a diff suffix, whether there is such a suffix, and the snapshot that it
/// selects.
pub fn strip_diff_suffix(path: &str) -> (r: Result<(String, bool, Option<u64>), Error>)
    ensures
        suffix_outcome(r) == diff_suffix(path@),
        forall|front: Seq<char>, id: u64|
            id > 0 && path@ == #[trigger] (front + "/diff/"@ + decimal(id as nat))
                ==> suffix_outcome(r) == Ok::<(Seq<char>, bool, Option<u64>), ErrorView>(
                (front, true, Some(id)),
            ),
        forall|front: Seq<char>|
            path@ == #[trigger] (front + "/diff"@) ==> suffix_outcome(r) == Ok::<
                (Seq<char>, bool, Option<u64>),
                ErrorView,
            >((front, true, None)),
        forall|front: Seq<char>|
            path@ == #[trigger] (front + "/diff/all"@) ==> suffix_outcome(r) == Ok::<
                (Seq<char>, bool, Option<u64>),
                ErrorView,
            >((front, true, None)),
        !"/diff"@.is_suffix_of(path@) && !contains_text(path@, "/diff/"@) ==> suffix_outcome(r)
            == Ok::<(Seq<char>, bool, Option<u64>), ErrorView>((path@, false, None)),
{
    proof {
        lemma_diff_suffix(path@, 1);
        assert forall|front: Seq<char>, id: u64|
            id > 0 && path@ == #[trigger] (front + "/diff/"@ + decimal(id as nat)) implies diff_suffix(
            path@,
        ) == Ok::<(Seq<char>, bool, Option<u64>), ErrorView>((front, true, Some(id))) by {
            lemma_diff_suffix(front, id);
        }
        assert forall|front: Seq<char>| path@ == #[trigger] (front + "/diff"@) implies diff_suffix(
            path@,
        ) == Ok::<(Seq<char>, bool, Option<u64>), ErrorView>((front, true, None)) by {
            lemma_diff_suffix(front, 1);
        }
        assert forall|front: Seq<char>|
            path@ == #[trigger] (front + "/diff/all"@) implies diff_suffix(path@) == Ok::<
            (Seq<char>, bool, Option<u64>),
            ErrorView,
        >((front, true, None)) by {
            lemma_diff_suffix(front, 1);
        }
    }
    if let Some(front) = strip_suffix(path, "/diff/all") {
        return Ok((front, true, None));
    }
    if let Some(front) = strip_suffix(path, "/diff") {
        return Ok((front, true, None));
    }
    match rsplit_once(path, "/diff/") {
        Some((front, id)) => match parse_positive_id(id.as_str(), "preview diff path") {
            Ok(id) => Ok((front, true, Some(id))),
            Err(error) => Err(error),
        },
        None => Ok((copy(path), false, None)),
    }
}

fn normalise_bug_path(path: &str) -> (r: String)
    ensures
        r@ == bug_path(path@),
{
    match strip_prefix(path, "bug/") {
        Some(id) => cat2("bugs/", id.as_str()),
        None => match strip_prefix(path, "+bug/") {
            Some(id) => cat2("bugs/", id.as_str()),
            None => copy(path),
        },
    }
}

fn classify_resource(path: &str) -> (r: Result<ResourceKind, Error>)
    ensures
        r matches Ok(kind) ==> path_kind(path@) == Ok::<KindView, ErrorView>(kind@),
        r matches Err(error) ==> path_kind(path@) == Err::<KindView, ErrorView>(error@),
{
    match strip_prefix(path, "bugs/") {
        Some(id) => match parse_u64(id.as_str()) {
            Some(id) => Ok(ResourceKind::Bug { id }),
            None => Err(Error::invalid("bug target must end with a numeric ID")),
        },
        None => match rsplit_once(path, "/+merge/") {
            Some((repository, id)) => match parse_u64(id.as_str()) {
                Some(id) => Ok(ResourceKind::MergeProposal { repository, id }),
                None => Err(Error::invalid("merge proposal target must end with a numeric ID")),
            },
            None => if contains(path, "/+git/") {
                Ok(ResourceKind::Repository)
            } else {
                match parse_u64(path) {
                    Some(id) => Ok(ResourceKind::MergeProposalId { id }),
                    None => Ok(ResourceKind::Generic),
                }
            },
        },
    }
}

fn limit_of_query(query: &Vec<(String, String)>) -> (r: Result<usize, Error>)
    ensures
        r matches Ok(limit) ==> query_limit(pairs_view(query@)) == Ok::<usize, ErrorView>(limit),
        r matches Err(error) ==> query_limit(pairs_view(query@)) == Err::<usize, ErrorView>(error@),
{
    match find_value(query, "limit") {
        Some(value) => match parse_usize(value) {
            Some(limit) => if limit < 1 {
                Ok(1)
            } else if limit > MAX_COMMENTS {
                Ok(MAX_COMMENTS)
            } else {
                Ok(limit)
            },
            None => Err(Error::invalid("limit must be an integer")),
        },
        None => Ok(MAX_COMMENTS),
    }
}

fn preview_diff_of_query(query: &Vec<(String, String)>) -> (r: Result<Option<u64>, Error>)
    ensures
        r matches Ok(id) ==> query_preview_diff(pairs_view(query@)) == Ok::<Option<u64>, ErrorView>(id),
        r matches Err(error) ==> query_preview_diff(pairs_view(query@)) == Err::<
            Option<u64>,
            ErrorView,
        >(error@),
{
    match find_value(query, "preview_diff") {
        Some(value) => match parse_positive_id(value, "preview_diff") {
            Ok(id) => Ok(Some(id)),
            Err(error) => Err(error),
        },
        None => Ok(None),
    }
}

fn select_snapshot(query_id: Option<u64>, path_id: Option<u64>, diff: bool) -> (r: Result<
    Option<u64>,
    Error,
>)
    ensures
        r matches Ok(id) ==> selected_snapshot(query_id, path_id, diff) == Ok::<
            Option<u64>,
            ErrorView,
        >(id),
        r matches Err(error) ==> selected_snapshot(query_id, path_id, diff) == Err::<
            Option<u64>,
            ErrorView,
        >(error@),
{
    match (query_id, path_id) {
        (Some(query_id), Some(path_id)) => if query_id != path_id {
            return Err(
                Error::invalid(
                    "preview diff path and preview_diff query select different snapshots",
                ),
            );
        },
        _ => {},
    }
    let id = match query_id {
        Some(query_id) => Some(query_id),
        None => path_id,
    };
    if id.is_some() && !diff {
        return Err(Error::invalid("preview_diff is only valid for a merge proposal diff"));
    }
    Ok(id)
}

impl ResourceTarget {
    /// The target that a path and a query name.
    pub fn locate(path: &str, query: &Vec<(String, String)>) -> (r: Result<ResourceTarget, Error>)
        ensures
            target_outcome(r) == located_target(path@, pairs_view(query@)),
    {
        let comment_limit = match limit_of_query(query) {
            Ok(limit) => limit,
            Err(error) => return Err(error),
        };
        let query_id = match preview_diff_of_query(query) {
            Ok(id) => id,
            Err(error) => return Err(error),
        };
        let (front, diff, path_id) = match strip_diff_suffix(path) {
            Ok(parts) => parts,
            Err(error) => return Err(error),
        };
        let preview_diff_id = match select_snapshot(query_id, path_id, diff) {
            Ok(id) => id,
            Err(error) => return Err(error),
        };
        let path = normalise_bug_path(front.as_str());
        let kind = match classify_resource(path.as_str()) {
            Ok(kind) => kind,
            Err(error) => return Err(error),
        };
        let include_comments = match find_value(query, "comments") {
            Some(value) => !same(value, "0"),
            None => true,
        };
        Ok(ResourceTarget { path, kind, include_comments, comment_limit, diff, preview_diff_id })
    }

    /// The target that a text names: a URL with the scheme `lp`, a Launchpad URL, a path, or the
    /// number of a merge proposal.
    pub fn parse(raw: &str) -> (r: Result<ResourceTarget, Error>)
        ensures
            target_outcome(r) == parsed_target(raw@),
    {
        match split_target(raw) {
            Ok((path, query)) => ResourceTarget::locate(path.as_str(), &query),
            Err(error) => Err(error),
        }
    }
}

/// The target once a request selects a snapshot of its diff.
pub open spec fn with_preview_diff(target: TargetView, preview_diff_id: Option<u64>) -> Result<
    TargetView,
    ErrorView,
> {
    match preview_diff_id {
        None => Ok(target),
        Some(id) => if id == 0 {
            Err(invalid("preview_diff_id must be greater than zero"@))
        } else if !(target.kind is MergeProposal || target.kind is MergeProposalId) {
            Err(invalid("preview_diff_id requires a merge proposal target"@))
        } else if target.preview_diff_id is Some && target.preview_diff_id != Some(id) {
            Err(invalid("target and preview_diff_id select different snapshots"@))
        } else {
            Ok(TargetView { diff: true, preview_diff_id: Some(id), ..target })
        },
    }
}

/// Selects a snapshot of the diff of a merge proposal. The target changes only where that
/// succeeds.
pub fn select_preview_diff(target: &mut ResourceTarget, preview_diff_id: Option<u64>) -> (r: Result<
    (),
    Error,
>)
    ensures
        r is Ok ==> with_preview_diff(old(target)@, preview_diff_id) == Ok::<TargetView, ErrorView>(
            final(target)@,
        ),
        r matches Err(error) ==> with_preview_diff(old(target)@, preview_diff_id) == Err::<
            TargetView,
            ErrorView,
        >(error@) && final(target)@ == old(target)@,
{
    let id = match preview_diff_id {
        None => return Ok(()),
        Some(id) => id,
    };
    if id == 0 {
        return Err(Error::invalid("preview_diff_id must be greater than zero"));
    }
    let is_proposal = match &target.kind {
        ResourceKind::MergeProposal { .. } => true,
        ResourceKind::MergeProposalId { .. } => true,
        _ => false,
    };
    if !is_proposal {
        return Err(Error::invalid("preview_diff_id requires a merge proposal target"));
    }
    let conflicting = match target.preview_diff_id {
        Some(selected) => selected != id,
        None => false,
    };
    if conflicting {
        return Err(Error::invalid("target and preview_diff_id select different snapshots"));
    }
    target.diff = true;
    target.preview_diff_id = Some(id);
    Ok(())
}

/// A target selects a snapshot only together with the diff, and shows at least one and at most
/// twenty comments.
pub proof fn lemma_target_is_consistent(raw: Seq<char>)
    ensures
        parsed_target(raw) matches Ok(target) ==> {
            &&& target.preview_diff_id is Some ==> target.diff && target.preview_diff_id != Some(0u64)
            &&& 1 <= target.comment_limit <= MAX_COMMENTS
        },
{
}

/// Selecting the same snapshot again changes nothing.
pub proof fn lemma_select_preview_diff_again(target: TargetView, id: u64)
    ensures
        with_preview_diff(target, Some(id)) matches Ok(selected) ==> with_preview_diff(
            selected,
            Some(id),
        ) == Ok::<TargetView, ErrorView>(selected),
{
}

/// A target with a path and a kind that selects nothing else.
pub open spec fn plain_target(path: Seq<char>, kind: KindView) -> TargetView {
    TargetView {
        path,
        kind,
        include_comments: true,
        comment_limit: MAX_COMMENTS,
        diff: false,
        preview_diff_id: None,
    }
}

proof fn lemma_no_diff_suffix(path: Seq<char>)
    requires
        path.len() > 0,
        is_digit(path.last()),
        !contains_text(path, "/diff/"@),
    ensures
        diff_suffix(path) == Ok::<(Seq<char>, bool, Option<u64>), ErrorView>((path, false, None)),
{
    reveal_strlit("/diff/all");
    reveal_strlit("/diff");
    if "/diff/all"@.is_suffix_of(path) {
        assert(path.last() == "/diff/all"@.last());
    }
    if "/diff"@.is_suffix_of(path) {
        assert(path.last() == "/diff"@.last());
    }
    lemma_not_split(path, "/diff/"@, path.len() - "/diff/"@.len());
}

proof fn lemma_no_query()
    ensures
        query_limit(Seq::empty()) == Ok::<usize, ErrorView>(MAX_COMMENTS),
        query_preview_diff(Seq::empty()) == Ok::<Option<u64>, ErrorView>(None),
        query_value(Seq::empty(), "comments"@) is None,
{
}

/// A number is the target of the merge proposal with that identifier.
pub proof fn lemma_numeric_target(id: u64)
    ensures
        located_target(decimal(id as nat), Seq::empty()) == Ok::<TargetView, ErrorView>(
            plain_target(decimal(id as nat), KindView::MergeProposalId { id }),
        ),
{
    let path = decimal(id as nat);
    lemma_decimal_digits(id as nat);
    lemma_decimal_unsigned(id as nat);
    lemma_no_query();
    lemma_no_slash(path);
    lemma_slash_missing(path, "/diff/"@);
    lemma_slash_missing(path, "/+merge/"@);
    lemma_slash_missing(path, "/+git/"@);
    lemma_no_diff_suffix(path);
    lemma_not_split(path, "/+merge/"@, path.len() - "/+merge/"@.len());
    reveal_strlit("bug/");
    reveal_strlit("+bug/");
    reveal_strlit("bugs/");
    assert(path[0] != 'b' && path[0] != '+');
    assert("bug/"@[0] == 'b' && "+bug/"@[0] == '+' && "bugs/"@[0] == 'b');
}

proof fn lemma_no_slash(digits: Seq<char>)
    requires
        forall|i: int| 0 <= i < digits.len() ==> is_digit(#[trigger] digits[i]),
    ensures
        !digits.contains('/'),
{
}

proof fn lemma_slash_missing(text: Seq<char>, pattern: Seq<char>)
    requires
        !text.contains('/'),
        pattern == "/diff/"@ || pattern == "/+merge/"@ || pattern == "/+git/"@,
    ensures
        !contains_text(text, pattern),
{
    reveal_strlit("/diff/");
    reveal_strlit("/+merge/");
    reveal_strlit("/+git/");
    assert forall|at: int| !occurs_at(text, pattern, at) by {
        if occurs_at(text, pattern, at) {
            assert(text.subrange(at, at + pattern.len())[0] == text[at]);
        }
    }
}

/// The path of a bug is its target, whichever way it is written.
pub proof fn lemma_bug_target(id: u64)
    ensures
        ({
            let path = "bugs/"@ + decimal(id as nat);
            let target = Ok::<TargetView, ErrorView>(plain_target(path, KindView::Bug { id }));
            &&& located_target(path, Seq::empty()) == target
            &&& located_target("bug/"@ + decimal(id as nat), Seq::empty()) == target
            &&& located_target("+bug/"@ + decimal(id as nat), Seq::empty()) == target
        }),
{
    let number = decimal(id as nat);
    lemma_decimal_digits(id as nat);
    lemma_decimal_unsigned(id as nat);
    lemma_no_slash(number);
    lemma_no_query();
    reveal_strlit("bug/");
    reveal_strlit("+bug/");
    reveal_strlit("bugs/");
    lemma_bug_path("bugs/"@, number);
    lemma_bug_path("bug/"@, number);
    lemma_bug_path("+bug/"@, number);
    let path = "bugs/"@ + number;
    assert("bugs/"@[3] == 's' && path[3] == 's');
    assert("bug/"@[3] == '/' && "+bug/"@[0] == '+' && path[0] == 'b');
    assert(path.skip(5) =~= number);
    assert("bug/"@.is_prefix_of("bug/"@ + number));
    assert(("bug/"@ + number).skip(4) =~= number);
    assert("+bug/"@.is_prefix_of("+bug/"@ + number));
    assert(!"bug/"@.is_prefix_of("+bug/"@ + number)) by {
        assert(("+bug/"@ + number)[0] == '+');
        assert("bug/"@[0] == 'b');
    }
    assert(("+bug/"@ + number).skip(5) =~= number);
    assert("bugs/"@.is_prefix_of(path));
}

proof fn lemma_bug_path(prefix: Seq<char>, number: Seq<char>)
    requires
        prefix == "bugs/"@ || prefix == "bug/"@ || prefix == "+bug/"@,
        number.len() > 0,
        forall|i: int| 0 <= i < number.len() ==> is_digit(#[trigger] number[i]),
        !number.contains('/'),
    ensures
        diff_suffix(prefix + number) == Ok::<(Seq<char>, bool, Option<u64>), ErrorView>(
            (prefix + number, false, None),
        ),
{
    reveal_strlit("bug/");
    reveal_strlit("+bug/");
    reveal_strlit("bugs/");
    reveal_strlit("/diff/");
    let path = prefix + number;
    assert forall|at: int| !occurs_at(path, "/diff/"@, at) by {
        if occurs_at(path, "/diff/"@, at) {
            let found = path.subrange(at, at + 6);
            assert(found[0] == path[at] && found[5] == path[at + 5]);
            assert(path[at + 5] == number[at + 5 - prefix.len()]);
        }
    }
    lemma_no_diff_suffix(path);
}

/// The path of a merge proposal.
pub open spec fn proposal_path(repository: Seq<char>, id: u64) -> Seq<char> {
    repository + "/+merge/"@ + decimal(id as nat)
}

/// Whether a path is none of those that name a bug.
pub open spec fn names_no_bug(path: Seq<char>) -> bool {
    !"bug/"@.is_prefix_of(path) && !"+bug/"@.is_prefix_of(path) && !"bugs/"@.is_prefix_of(path)
}

/// What a diff suffix leaves of a path: any path in front of it, together with the snapshot that
/// the suffix selects. A path that neither ends with `/diff` nor holds `/diff/` has no suffix.
pub proof fn lemma_diff_suffix(path: Seq<char>, snapshot: u64)
    requires
        snapshot > 0,
    ensures
        diff_suffix(path + "/diff/"@ + decimal(snapshot as nat)) == Ok::<
            (Seq<char>, bool, Option<u64>),
            ErrorView,
        >((path, true, Some(snapshot))),
        diff_suffix(path + "/diff"@) == Ok::<(Seq<char>, bool, Option<u64>), ErrorView>(
            (path, true, None),
        ),
        diff_suffix(path + "/diff/all"@) == Ok::<(Seq<char>, bool, Option<u64>), ErrorView>(
            (path, true, None),
        ),
        !"/diff"@.is_suffix_of(path) && !contains_text(path, "/diff/"@) ==> diff_suffix(path)
            == Ok::<(Seq<char>, bool, Option<u64>), ErrorView>((path, false, None)),
{
    let number = decimal(snapshot as nat);
    reveal_strlit("/diff");
    reveal_strlit("/diff/");
    reveal_strlit("/diff/all");
    let shown = path + "/diff"@;
    assert("/diff"@.is_suffix_of(shown));
    assert(shown.take(shown.len() - 5) =~= path);
    assert(shown.last() == 'f' && "/diff/all"@.last() == 'l' && "/diff"@.last() == 'f');
    assert(!"/diff/all"@.is_suffix_of(shown));
    let whole = path + "/diff/all"@;
    assert("/diff/all"@.is_suffix_of(whole));
    assert(whole.take(whole.len() - 9) =~= path);
    let selected = path + "/diff/"@ + number;
    lemma_decimal_digits(snapshot as nat);
    lemma_decimal_unsigned(snapshot as nat);
    lemma_no_slash(number);
    lemma_split_at_slashes(path, "/diff/"@, number);
    assert(selected.last() == number.last());
    assert(!"/diff/all"@.is_suffix_of(selected));
    assert(!"/diff"@.is_suffix_of(selected));
    if !contains_text(path, "/diff/"@) {
        if "/diff/all"@.is_suffix_of(path) {
            let at = path.len() - 9;
            assert(path.subrange(at, path.len() as int) =~= "/diff/all"@);
            assert forall|i: int| 0 <= i < 6 implies #[trigger] path.subrange(at, at + 6)[i]
                == "/diff/"@[i] by {
                assert(path.subrange(at, path.len() as int)[i] == path[at + i]);
                assert("/diff/all"@[i] == "/diff/"@[i]);
            }
            assert(path.subrange(at, at + 6) =~= "/diff/"@);
            assert(occurs_at(path, "/diff/"@, at));
        }
        lemma_not_split(path, "/diff/"@, path.len() - "/diff/"@.len());
    }
}

/// The target of a path that a snapshot of its diff is selected of.
pub open spec fn diff_target(path: Seq<char>, snapshot: Option<u64>) -> Result<TargetView, ErrorView> {
    match path_kind(bug_path(path)) {
        Err(error) => Err(error),
        Ok(kind) => Ok(
            TargetView {
                diff: true,
                preview_diff_id: snapshot,
                ..plain_target(bug_path(path), kind)
            },
        ),
    }
}

/// A snapshot is selected by a path and by a query alike: `/diff/N` and `/diff?preview_diff=N`
/// name the same target, whatever the path in front of them, and so do both together.
pub proof fn lemma_snapshot_by_path_or_query(path: Seq<char>, snapshot: u64)
    requires
        snapshot > 0,
    ensures
        ({
            let number = decimal(snapshot as nat);
            let query = Seq::empty().push(("preview_diff"@, number));
            let target = diff_target(path, Some(snapshot));
            &&& located_target(path + "/diff/"@ + number, Seq::empty()) == target
            &&& located_target(path + "/diff"@, query) == target
            &&& located_target(path + "/diff/"@ + number, query) == target
            &&& located_target(path + "/diff"@, Seq::empty()) == diff_target(path, None)
        }),
{
    let number = decimal(snapshot as nat);
    let query = Seq::empty().push(("preview_diff"@, number));
    lemma_diff_suffix(path, snapshot);
    lemma_decimal_digits(snapshot as nat);
    lemma_decimal_unsigned(snapshot as nat);
    lemma_no_query();
    reveal_strlit("preview_diff");
    reveal_strlit("limit");
    reveal_strlit("comments");
    assert("preview_diff"@.len() == 12 && "limit"@.len() == 5 && "comments"@.len() == 8);
    assert(query.skip(1) =~= Seq::empty());
    assert(query_value(query.skip(1), "limit"@) is None);
    assert(query_value(query.skip(1), "comments"@) is None);
}

proof fn lemma_proposal_kind(repository: Seq<char>, id: u64)
    requires
        names_no_bug(proposal_path(repository, id)),
    ensures
        bug_path(proposal_path(repository, id)) == proposal_path(repository, id),
        path_kind(proposal_path(repository, id)) == Ok::<KindView, ErrorView>(
            KindView::MergeProposal { repository, id },
        ),
{
    let number = decimal(id as nat);
    lemma_decimal_digits(id as nat);
    lemma_decimal_unsigned(id as nat);
    lemma_no_slash(number);
    reveal_strlit("/+merge/");
    lemma_split_at_slashes(repository, "/+merge/"@, number);
}

proof fn lemma_proposal_without_diff(repository: Seq<char>, id: u64)
    requires
        !contains_text(repository + "/"@, "/diff/"@),
    ensures
        !contains_text(proposal_path(repository, id), "/diff/"@),
        is_digit(proposal_path(repository, id).last()),
{
    let number = decimal(id as nat);
    let path = proposal_path(repository, id);
    lemma_decimal_digits(id as nat);
    lemma_no_slash(number);
    reveal_strlit("/+merge/");
    reveal_strlit("/diff/");
    reveal_strlit("/");
    let front = repository + "/"@;
    let end = repository.len() as int;
    assert forall|at: int| !occurs_at(path, "/diff/"@, at) by {
        if occurs_at(path, "/diff/"@, at) {
            let found = path.subrange(at, at + 6);
            assert(found[0] == path[at] && found[1] == path[at + 1] && found[2] == path[at + 2]);
            assert(found[3] == path[at + 3] && found[4] == path[at + 4] && found[5] == path[at + 5]);
            assert("/diff/"@[1] == 'd' && "/diff/"@[2] == 'i' && "/diff/"@[3] == 'f' && "/diff/"@[4]
                == 'f' && "/diff/"@[0] == '/' && "/diff/"@[5] == '/');
            assert(path[end] == '/' && path[end + 1] == '+');
            if at + 6 <= end + 1 {
                assert(front.subrange(at, at + 6) =~= found);
                assert(occurs_at(front, "/diff/"@, at));
            } else if at < end {
            } else if at == end {
            } else if at < end + 8 {
                assert(path[at] == "/+merge/"@[at - end]);
                assert(at == end + 7);
                assert(path[at + 5] == number[at + 5 - end - 8]);
            } else {
                assert(path[at] == number[at - end - 8]);
            }
        }
    }
    assert(path.last() == number.last());
}

/// The path of a merge proposal is its target, and with a suffix that of its diff or of a
/// snapshot of its diff. This holds of every repository whose path does not name a bug; a
/// segment `diff` in it would itself select a snapshot of a path without a suffix.
pub proof fn lemma_proposal_target(repository: Seq<char>, id: u64, snapshot: u64)
    requires
        names_no_bug(proposal_path(repository, id)),
        snapshot > 0,
    ensures
        ({
            let path = proposal_path(repository, id);
            let plain = plain_target(path, KindView::MergeProposal { repository, id });
            let shown = Ok::<TargetView, ErrorView>(TargetView { diff: true, ..plain });
            &&& !contains_text(repository + "/"@, "/diff/"@) ==> located_target(path, Seq::empty())
                == Ok::<TargetView, ErrorView>(plain)
            &&& located_target(path + "/diff"@, Seq::empty()) == shown
            &&& located_target(path + "/diff/all"@, Seq::empty()) == shown
            &&& located_target(path + "/diff/"@ + decimal(snapshot as nat), Seq::empty()) == Ok::<
                TargetView,
                ErrorView,
            >(TargetView { diff: true, preview_diff_id: Some(snapshot), ..plain })
        }),
{
    let path = proposal_path(repository, id);
    lemma_no_query();
    lemma_proposal_kind(repository, id);
    lemma_diff_suffix(path, snapshot);
    if !contains_text(repository + "/"@, "/diff/"@) {
        lemma_proposal_without_diff(repository, id);
        lemma_no_diff_suffix(path);
    }
}

/// A path that names neither a bug nor a merge proposal nor a diff is the target of a repository
/// where it holds `/+git/`, and otherwise of a project or another resource unless it is a number.
pub proof fn lemma_repository_target(path: Seq<char>)
    requires
        names_no_bug(path),
        !contains_text(path, "/+merge/"@),
        !contains_text(path, "/diff/"@),
        !"/diff"@.is_suffix_of(path),
    ensures
        contains_text(path, "/+git/"@) ==> located_target(path, Seq::empty()) == Ok::<
            TargetView,
            ErrorView,
        >(plain_target(path, KindView::Repository)),
        !contains_text(path, "/+git/"@) && unsigned_within(path, u64::MAX as nat) is None
            ==> located_target(path, Seq::empty()) == Ok::<TargetView, ErrorView>(
            plain_target(path, KindView::Generic),
        ),
{
    lemma_no_query();
    lemma_diff_suffix(path, 1);
    lemma_not_split(path, "/+merge/"@, path.len() - "/+merge/"@.len());
}

/// The queries on comments change nothing else of a target: `?comments=0` leaves them out, and
/// `?limit=N` shows as many, but at least one and at most twenty.
pub proof fn lemma_comment_query(path: Seq<char>, limit: usize)
    requires
        located_target(path, Seq::empty()) is Ok,
    ensures
        ({
            let target = located_target(path, Seq::empty())->Ok_0;
            &&& target.include_comments
            &&& located_target(path, Seq::empty().push(("comments"@, "0"@))) == Ok::<
                TargetView,
                ErrorView,
            >(TargetView { include_comments: false, ..target })
            &&& located_target(path, Seq::empty().push(("limit"@, decimal(limit as nat)))) == Ok::<
                TargetView,
                ErrorView,
            >(
                TargetView {
                    comment_limit: if limit < 1 {
                        1
                    } else if limit > MAX_COMMENTS {
                        MAX_COMMENTS
                    } else {
                        limit
                    },
                    ..target
                },
            )
        }),
{
    lemma_no_query();
    lemma_decimal_unsigned(limit as nat);
    reveal_strlit("preview_diff");
    reveal_strlit("limit");
    reveal_strlit("comments");
    assert("preview_diff"@.len() == 12 && "limit"@.len() == 5 && "comments"@.len() == 8);
    let hidden = Seq::empty().push(("comments"@, "0"@));
    let few = Seq::empty().push(("limit"@, decimal(limit as nat)));
    assert(hidden.skip(1) =~= Seq::empty());
    assert(few.skip(1) =~= Seq::empty());
    assert(query_value(hidden.skip(1), "limit"@) is None);
    assert(query_value(hidden.skip(1), "preview_diff"@) is None);
    assert(query_value(few.skip(1), "preview_diff"@) is None);
    assert(query_value(few.skip(1), "comments"@) is None);
}

} // verus!
