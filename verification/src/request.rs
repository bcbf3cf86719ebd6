//! The requests that the bridge answers.
use vstd::prelude::*;
use crate::diff::DiffSide;
use crate::error::{invalid, number_outcome, str_outcome, unit_outcome, Error, ErrorView};
use crate::format::{cat2, cat3};
use crate::repository::{path_checked, validate_repository_path};
use crate::target::{parsed_target, ResourceTarget};
use crate::text::{blank, is_blank, opt_view, same, views};
use crate::web::{pairs_view, parse_rfc3339, push_pair, rfc3339_instant};

verus! {

/// The greatest number of results that a request can ask for.
pub const MAX_RESULTS: usize = 1000;

/// The number of results that a request asks for where it does not say.
pub const DEFAULT_RESULTS: usize = 10;

/// What a request asks for.
#[derive(Copy, Clone, Debug, Eq, PartialEq, Structural)]
pub enum Operation {
    ResourceView,
    RepoView,
    FileRead,
    SearchBugs,
    SearchMergeProposals,
    MergeProposalForBranch,
    CurrentMergeProposal,
    MergeProposalDiscussion,
    PreviewDiffs,
    InlineComments,
    ReviewDrafts,
    DiffLineMap,
    BugCreate,
    MergeProposalCreate,
    Comment,
    ReviewDraftUpdate,
    ReviewSubmit,
    SetMergeProposalStatus,
    MergeProposalCheckout,
    MergeProposalPush,
}

/// The name of an operation in messages.
pub open spec fn operation_name(op: Operation) -> Seq<char> {
    match op {
        Operation::ResourceView => "ResourceView"@,
        Operation::RepoView => "RepoView"@,
        Operation::FileRead => "FileRead"@,
        Operation::SearchBugs => "SearchBugs"@,
        Operation::SearchMergeProposals => "SearchMergeProposals"@,
        Operation::MergeProposalForBranch => "MergeProposalForBranch"@,
        Operation::CurrentMergeProposal => "CurrentMergeProposal"@,
        Operation::MergeProposalDiscussion => "MergeProposalDiscussion"@,
        Operation::PreviewDiffs => "PreviewDiffs"@,
        Operation::InlineComments => "InlineComments"@,
        Operation::ReviewDrafts => "ReviewDrafts"@,
        Operation::DiffLineMap => "DiffLineMap"@,
        Operation::BugCreate => "BugCreate"@,
        Operation::MergeProposalCreate => "MergeProposalCreate"@,
        Operation::Comment => "Comment"@,
        Operation::ReviewDraftUpdate => "ReviewDraftUpdate"@,
        Operation::ReviewSubmit => "ReviewSubmit"@,
        Operation::SetMergeProposalStatus => "SetMergeProposalStatus"@,
        Operation::MergeProposalCheckout => "MergeProposalCheckout"@,
        Operation::MergeProposalPush => "MergeProposalPush"@,
    }
}

/// Whether an operation reads or changes what only an authenticated user may.
pub open spec fn needs_authentication(op: Operation) -> bool {
    match op {
        Operation::ReviewDrafts => true,
        Operation::BugCreate => true,
        Operation::MergeProposalCreate => true,
        Operation::Comment => true,
        Operation::ReviewDraftUpdate => true,
        Operation::ReviewSubmit => true,
        Operation::SetMergeProposalStatus => true,
        _ => false,
    }
}

impl Operation {
    /// Whether the operation reads or changes what only an authenticated user may.
    pub fn requires_authentication(self) -> (r: bool)
        ensures
            r == needs_authentication(self),
    {
        matches!(
            self,
            Operation::ReviewDrafts
                | Operation::BugCreate
                | Operation::MergeProposalCreate
                | Operation::Comment
                | Operation::ReviewDraftUpdate
                | Operation::ReviewSubmit
                | Operation::SetMergeProposalStatus
        )
    }

    /// The name of the operation in messages.
    pub fn name(self) -> (r: &'static str)
        ensures
            r@ == operation_name(self),
    {
        match self {
            Operation::ResourceView => "ResourceView",
            Operation::RepoView => "RepoView",
            Operation::FileRead => "FileRead",
            Operation::SearchBugs => "SearchBugs",
            Operation::SearchMergeProposals => "SearchMergeProposals",
            Operation::MergeProposalForBranch => "MergeProposalForBranch",
            Operation::CurrentMergeProposal => "CurrentMergeProposal",
            Operation::MergeProposalDiscussion => "MergeProposalDiscussion",
            Operation::PreviewDiffs => "PreviewDiffs",
            Operation::InlineComments => "InlineComments",
            Operation::ReviewDrafts => "ReviewDrafts",
            Operation::DiffLineMap => "DiffLineMap",
            Operation::BugCreate => "BugCreate",
            Operation::MergeProposalCreate => "MergeProposalCreate",
            Operation::Comment => "Comment",
            Operation::ReviewDraftUpdate => "ReviewDraftUpdate",
            Operation::ReviewSubmit => "ReviewSubmit",
            Operation::SetMergeProposalStatus => "SetMergeProposalStatus",
            Operation::MergeProposalCheckout => "MergeProposalCheckout",
            Operation::MergeProposalPush => "MergeProposalPush",
        }
    }
}

/// One text or several.
#[derive(Clone, Debug)]
pub enum OneOrMany {
    One(String),
    Many(Vec<String>),
}

impl OneOrMany {
    /// The texts, in order, whether written as one or as a list.
    pub open spec fn texts(self) -> Seq<Seq<char>> {
        match self {
            OneOrMany::One(value) => seq![value@],
            OneOrMany::Many(values) => views(values@),
        }
    }
}

/// The pairs of one name with each of some values.
pub open spec fn named_pairs(name: Seq<char>, values: Seq<Seq<char>>) -> Seq<(Seq<char>, Seq<char>)> {
    values.map_values(|value: Seq<char>| (name, value))
}

/// The texts that an optional filter lists.
pub open spec fn filter_values(values: Option<OneOrMany>) -> Option<Seq<Seq<char>>> {
    match values {
        Some(values) => Some(values.texts()),
        None => None,
    }
}

/// Appends a pair for each value of a list.
pub fn push_pairs(query: &mut Vec<(String, String)>, name: &str, values: &Vec<String>)
    ensures
        pairs_view(final(query)@) == pairs_view(old(query)@) + named_pairs(name@, views(values@)),
{
    let ghost before = pairs_view(query@);
    let ghost all = named_pairs(name@, views(values@));
    assert(before + all.take(0) =~= before);
    for i in 0..values.len()
        invariant
            all == named_pairs(name@, views(values@)),
            pairs_view(query@) == before + all.take(i as int),
    {
        push_pair(query, name, values[i].as_str());
        assert(before + all.take(i + 1) =~= (before + all.take(i as int)).push(
            (name@, values@[i as int]@),
        ));
    }
    assert(all.take(all.len() as int) =~= all);
}

impl OneOrMany {
    /// Appends a pair for each of the texts to a query.
    pub fn append_to(&self, query: &mut Vec<(String, String)>, name: &str)
        ensures
            pairs_view(final(query)@) == pairs_view(old(query)@) + named_pairs(name@, self.texts()),
    {
        match self {
            OneOrMany::One(value) => {
                push_pair(query, name, value.as_str());
                assert(named_pairs(name@, self.texts()) =~= seq![(name@, value@)]);
                assert(pairs_view(old(query)@).push((name@, value@)) =~= pairs_view(old(query)@)
                    + seq![(name@, value@)]);
            },
            OneOrMany::Many(values) => push_pairs(query, name, values),
        }
    }

    /// The texts, in order.
    pub fn values(&self) -> (r: Vec<&str>)
        ensures
            r@.map_values(|value: &str| value@) == self.texts(),
    {
        let mut out: Vec<&str> = Vec::new();
        match self {
            OneOrMany::One(value) => {
                out.push(value.as_str());
            },
            OneOrMany::Many(values) => {
                for i in 0..values.len()
                    invariant
                        out@.len() == i,
                        forall|j: int| 0 <= j < i ==> (#[trigger] out@[j])@ == values@[j]@,
                {
                    out.push(values[i].as_str());
                }
            },
        }
        assert(out@.map_values(|value: &str| value@) =~= self.texts());
        out
    }
}

/// How a discussion is reported.
#[derive(Copy, Clone, Debug, Eq, PartialEq, Structural)]
pub enum DiscussionFormat {
    Summary,
    Structured,
    Both,
}

impl Default for DiscussionFormat {
    fn default() -> (r: DiscussionFormat)
        ensures
            r == DiscussionFormat::Summary,
    {
        DiscussionFormat::Summary
    }
}

/// The name of a format.
pub open spec fn format_name(format: DiscussionFormat) -> Seq<char> {
    match format {
        DiscussionFormat::Summary => "summary"@,
        DiscussionFormat::Structured => "structured"@,
        DiscussionFormat::Both => "both"@,
    }
}

impl DiscussionFormat {
    /// The name of the format.
    pub fn name(self) -> (r: &'static str)
        ensures
            r@ == format_name(self),
    {
        match self {
            DiscussionFormat::Summary => "summary",
            DiscussionFormat::Structured => "structured",
            DiscussionFormat::Both => "both",
        }
    }
}

/// Which comments a discussion reports.
#[derive(Copy, Clone, Debug, Eq, PartialEq, Structural)]
pub enum DiscussionComments {
    All,
    General,
    Inline,
}

impl Default for DiscussionComments {
    fn default() -> (r: DiscussionComments)
        ensures
            r == DiscussionComments::All,
    {
        DiscussionComments::All
    }
}

/// The name of a choice of comments.
pub open spec fn comments_name(comments: DiscussionComments) -> Seq<char> {
    match comments {
        DiscussionComments::All => "all"@,
        DiscussionComments::General => "general"@,
        DiscussionComments::Inline => "inline"@,
    }
}

impl DiscussionComments {
    /// The name of the choice.
    pub fn name(self) -> (r: &'static str)
        ensures
            r@ == comments_name(self),
    {
        match self {
            DiscussionComments::All => "all",
            DiscussionComments::General => "general",
            DiscussionComments::Inline => "inline",
        }
    }

    /// Whether general comments and reviews are reported.
    pub fn includes_general(self) -> (r: bool)
        ensures
            r == (self != DiscussionComments::Inline),
    {
        self != DiscussionComments::Inline
    }

    /// Whether inline threads are reported.
    pub fn includes_inline(self) -> (r: bool)
        ensures
            r == (self != DiscussionComments::General),
    {
        self != DiscussionComments::General
    }
}

/// A request to the bridge.
#[derive(Debug)]
pub struct Request {
    pub op: Operation,
    pub target: Option<String>,
    pub repository: Option<String>,
    pub target_repository: Option<String>,
    pub path: Option<String>,
    pub branch: Option<String>,
    pub target_branch: Option<String>,
    pub query: Option<String>,
    pub status: Option<OneOrMany>,
    pub importance: Option<OneOrMany>,
    pub tags: Option<Vec<String>>,
    pub limit: Option<usize>,
    pub latest: Option<bool>,
    pub include_superseded: Option<bool>,
    pub comments: Option<DiscussionComments>,
    pub since: Option<String>,
    pub reviewer: Option<String>,
    pub format: Option<DiscussionFormat>,
    pub current_diff_only: Option<bool>,
    pub unresolved_only: Option<bool>,
    pub preview_diff_id: Option<u64>,
    pub file_line: Option<u64>,
    pub side: Option<DiffSide>,
    pub title: Option<String>,
    pub description: Option<String>,
    pub information_type: Option<String>,
    pub source_ref: Option<String>,
    pub target_ref: Option<String>,
    pub commit_message: Option<String>,
    pub needs_review: Option<bool>,
    pub body: Option<String>,
    pub subject: Option<String>,
    pub vote: Option<String>,
    pub directory: Option<String>,
    pub force_with_lease: Option<bool>,
}

/// The error of a field that an operation needs and does not have.
pub open spec fn missing(op: Operation, name: Seq<char>) -> ErrorView {
    invalid(name + " is required for "@ + operation_name(op))
}

/// A text that an operation needs, which must not be blank.
pub open spec fn required_text(op: Operation, value: Option<Seq<char>>, name: Seq<char>) -> Result<
    Seq<char>,
    ErrorView,
> {
    match value {
        Some(text) => if is_blank(text) {
            Err(missing(op, name))
        } else {
            Ok(text)
        },
        None => Err(missing(op, name)),
    }
}

/// The outcome where a field is there and not empty, and the error where it is not.
pub open spec fn needing(
    op: Operation,
    name: Seq<char>,
    value: Option<Seq<char>>,
    rest: Result<(), ErrorView>,
) -> Result<(), ErrorView> {
    match value {
        Some(text) => if text.len() == 0 {
            Err(missing(op, name))
        } else {
            rest
        },
        None => Err(missing(op, name)),
    }
}

/// Whether the fields that an operation needs are there, in the order in which they are checked.
pub open spec fn required_fields(request: Request) -> Result<(), ErrorView> {
    let op = request.op;
    let target = opt_view(request.target);
    let repository = opt_view(request.repository);
    let path = opt_view(request.path);
    match op {
        Operation::RepoView => needing(op, "repository"@, repository, Ok(())),
        Operation::SearchMergeProposals => needing(op, "repository"@, repository, Ok(())),
        Operation::FileRead => needing(
            op,
            "repository"@,
            repository,
            needing(op, "path"@, path, Ok(())),
        ),
        Operation::DiffLineMap => needing(
            op,
            "target"@,
            target,
            needing(op, "path"@, path, Ok(())),
        ),
        Operation::ReviewDraftUpdate => needing(
            op,
            "target"@,
            target,
            needing(op, "path"@, path, Ok(())),
        ),
        Operation::BugCreate => needing(
            op,
            "target"@,
            target,
            needing(
                op,
                "title"@,
                opt_view(request.title),
                needing(op, "description"@, opt_view(request.description), Ok(())),
            ),
        ),
        Operation::MergeProposalCreate => needing(
            op,
            "repository"@,
            repository,
            needing(
                op,
                "source_ref"@,
                opt_view(request.source_ref),
                needing(op, "target_ref"@, opt_view(request.target_ref), Ok(())),
            ),
        ),
        Operation::Comment => needing(
            op,
            "target"@,
            target,
            needing(op, "body"@, opt_view(request.body), Ok(())),
        ),
        Operation::MergeProposalForBranch => Ok(()),
        Operation::CurrentMergeProposal => Ok(()),
        Operation::MergeProposalDiscussion => Ok(()),
        Operation::MergeProposalPush => Ok(()),
        _ => needing(op, "target"@, target, Ok(())),
    }
}

/// The snapshot of a diff that the target and the parameter of a request select together.
pub open spec fn selected_preview_diff(
    op: Operation,
    parameter: Option<u64>,
    target: Option<u64>,
) -> Result<u64, ErrorView> {
    if parameter == Some(0u64) {
        Err(invalid("preview_diff_id must be greater than zero"@))
    } else if parameter is Some && target is Some && parameter != target {
        Err(invalid("target and preview_diff_id select different snapshots"@))
    } else if parameter is Some {
        Ok(parameter->0)
    } else if target is Some {
        Ok(target->0)
    } else {
        Err(missing(op, "preview_diff_id"@))
    }
}

/// The snapshot of a diff that a request selects.
pub open spec fn request_preview_diff(request: Request) -> Result<u64, ErrorView> {
    if request.preview_diff_id == Some(0u64) {
        Err(invalid("preview_diff_id must be greater than zero"@))
    } else {
        match opt_view(request.target) {
            Some(target) => match parsed_target(target) {
                Ok(target) => selected_preview_diff(
                    request.op,
                    request.preview_diff_id,
                    target.preview_diff_id,
                ),
                Err(error) => Err(error),
            },
            None => selected_preview_diff(request.op, request.preview_diff_id, None),
        }
    }
}

/// The line of a file that a request names.
pub open spec fn request_file_line(request: Request) -> Result<u64, ErrorView> {
    match request.file_line {
        Some(line) => if line > 0 {
            Ok(line)
        } else {
            Err(missing(request.op, "file_line"@))
        },
        None => Err(missing(request.op, "file_line"@)),
    }
}

/// The side of a diff that a request names.
pub open spec fn request_side(request: Request) -> Result<DiffSide, ErrorView> {
    match request.side {
        Some(side) => Ok(side),
        None => Err(missing(request.op, "side"@)),
    }
}

/// Whether Launchpad knows a vote of a review.
pub open spec fn is_review_vote(vote: Seq<char>) -> bool {
    vote == "Approve"@ || vote == "Needs Fixing"@ || vote == "Needs Information"@ || vote
        == "Abstain"@ || vote == "Disapprove"@ || vote == "Needs Resubmitting"@
}

/// The vote that a request casts.
pub open spec fn request_vote(request: Request) -> Result<Seq<char>, ErrorView> {
    match opt_view(request.vote) {
        Some(vote) => if is_review_vote(vote) {
            Ok(vote)
        } else {
            Err(invalid("vote is not a supported Launchpad review vote"@))
        },
        None => Err(invalid("vote is not a supported Launchpad review vote"@)),
    }
}

/// The status that a request sets.
pub open spec fn request_status(request: Request) -> Result<Seq<char>, ErrorView> {
    match request.status {
        Some(OneOrMany::One(status)) => if is_blank(status@) {
            Err(invalid("status must be a string for "@ + operation_name(request.op)))
        } else {
            Ok(status@)
        },
        _ => Err(invalid("status must be a string for "@ + operation_name(request.op))),
    }
}

/// The instant since which a request asks for comments.
pub open spec fn request_since(request: Request) -> Result<Option<(i64, u32)>, ErrorView> {
    match opt_view(request.since) {
        Some(text) => match rfc3339_instant(text) {
            Some(instant) => Ok(Some(instant)),
            None => Err(invalid("since must be an RFC 3339 timestamp"@)),
        },
        None => Ok(None),
    }
}

/// How many results a request asks for.
pub open spec fn request_limit(request: Request) -> usize {
    match request.limit {
        Some(limit) => limit,
        None => DEFAULT_RESULTS,
    }
}

/// The outcome of the second check where the first succeeds.
pub open spec fn both(first: Result<(), ErrorView>, second: Result<(), ErrorView>) -> Result<
    (),
    ErrorView,
> {
    match first {
        Ok(_) => second,
        Err(error) => Err(error),
    }
}

/// Whether an operation works on one snapshot of a diff.
pub open spec fn selects_snapshot(op: Operation) -> bool {
    op == Operation::InlineComments || op == Operation::ReviewDrafts || op
        == Operation::DiffLineMap || op == Operation::ReviewDraftUpdate || op
        == Operation::ReviewSubmit
}

/// Whether an operation works on a line of a file.
pub open spec fn selects_line(op: Operation) -> bool {
    op == Operation::DiffLineMap || op == Operation::ReviewDraftUpdate
}

/// Whether the path of a request is there and stays within its repository.
pub open spec fn checked_path(request: Request) -> Result<(), ErrorView> {
    match required_text(request.op, opt_view(request.path), "path"@) {
        Ok(path) => path_checked(path),
        Err(error) => Err(error),
    }
}

/// Whether the snapshot of a diff that an operation works on is selected.
pub open spec fn checked_snapshot(request: Request) -> Result<(), ErrorView> {
    if selects_snapshot(request.op) {
        match request_preview_diff(request) {
            Ok(_) => Ok(()),
            Err(error) => Err(error),
        }
    } else {
        Ok(())
    }
}

/// Whether the line of a file that an operation works on is selected.
pub open spec fn checked_line(request: Request) -> Result<(), ErrorView> {
    if selects_line(request.op) {
        match request_file_line(request) {
            Err(error) => Err(error),
            Ok(_) => match request_side(request) {
                Err(error) => Err(error),
                Ok(_) => checked_path(request),
            },
        }
    } else {
        Ok(())
    }
}

/// Whether the status and the vote of a request are sound.
pub open spec fn checked_review(request: Request) -> Result<(), ErrorView> {
    let status = if request.op == Operation::SetMergeProposalStatus {
        match request_status(request) {
            Ok(_) => Ok(()),
            Err(error) => Err(error),
        }
    } else {
        Ok(())
    };
    let vote = if request.vote is Some {
        match request_vote(request) {
            Ok(_) => Ok(()),
            Err(error) => Err(error),
        }
    } else {
        Ok(())
    };
    let body = match request.body {
        Some(body) => if request.op == Operation::ReviewDraftUpdate && is_blank(body@) {
            Err(invalid("draft body cannot be empty"@))
        } else {
            Ok(())
        },
        None => Ok(()),
    };
    both(status, both(vote, body))
}

/// Whether the limit of a request is within its bounds.
pub open spec fn checked_limit(request: Request) -> Result<(), ErrorView> {
    match request.limit {
        Some(limit) => if limit == 0 {
            Err(invalid("limit must be greater than zero"@))
        } else if limit > MAX_RESULTS {
            Err(invalid("limit cannot be greater than 1000"@))
        } else {
            Ok(())
        },
        None => Ok(()),
    }
}

/// Whether a request can be carried out, and what it is refused with otherwise.
pub open spec fn validated(request: Request) -> Result<(), ErrorView> {
    both(
        required_fields(request),
        both(
            checked_snapshot(request),
            both(
                checked_line(request),
                both(
                    checked_review(request),
                    both(
                        checked_limit(request),
                        if request.op == Operation::FileRead {
                            checked_path(request)
                        } else {
                            Ok(())
                        },
                    ),
                ),
            ),
        ),
    )
}

impl Request {
    fn need(&self, name: &str, value: &Option<String>) -> (r: Result<(), Error>)
        ensures
            unit_outcome(r) == needing(self.op, name@, opt_view(*value), Ok(())),
    {
        match value {
            Some(text) => if text.as_str().is_empty() {
                Err(self.missing_field(name))
            } else {
                Ok(())
            },
            None => Err(self.missing_field(name)),
        }
    }

    fn missing_field(&self, name: &str) -> (r: Error)
        ensures
            r@ == missing(self.op, name@),
    {
        Error::invalid(cat3(name, " is required for ", self.op.name()).as_str())
    }

    fn check_required(&self) -> (r: Result<(), Error>)
        ensures
            unit_outcome(r) == required_fields(*self),
    {
        match self.op {
            Operation::RepoView | Operation::SearchMergeProposals => self.need(
                "repository",
                &self.repository,
            ),
            Operation::FileRead => {
                self.need("repository", &self.repository)?;
                self.need("path", &self.path)
            },
            Operation::DiffLineMap | Operation::ReviewDraftUpdate => {
                self.need("target", &self.target)?;
                self.need("path", &self.path)
            },
            Operation::BugCreate => {
                self.need("target", &self.target)?;
                self.need("title", &self.title)?;
                self.need("description", &self.description)
            },
            Operation::MergeProposalCreate => {
                self.need("repository", &self.repository)?;
                self.need("source_ref", &self.source_ref)?;
                self.need("target_ref", &self.target_ref)
            },
            Operation::Comment => {
                self.need("target", &self.target)?;
                self.need("body", &self.body)
            },
            Operation::MergeProposalForBranch | Operation::CurrentMergeProposal
            | Operation::MergeProposalDiscussion | Operation::MergeProposalPush => Ok(()),
            _ => self.need("target", &self.target),
        }
    }

    fn check_path(&self) -> (r: Result<(), Error>)
        ensures
            unit_outcome(r) == checked_path(*self),
    {
        match self.path("path") {
            Ok(path) => validate_repository_path(path),
            Err(error) => Err(error),
        }
    }

    fn check_snapshot(&self) -> (r: Result<(), Error>)
        ensures
            unit_outcome(r) == checked_snapshot(*self),
    {
        match self.op {
            Operation::InlineComments | Operation::ReviewDrafts | Operation::DiffLineMap
            | Operation::ReviewDraftUpdate | Operation::ReviewSubmit => match self.preview_diff_id() {
                Ok(_) => Ok(()),
                Err(error) => Err(error),
            },
            _ => Ok(()),
        }
    }

    fn check_line(&self) -> (r: Result<(), Error>)
        ensures
            unit_outcome(r) == checked_line(*self),
    {
        match self.op {
            Operation::DiffLineMap | Operation::ReviewDraftUpdate => match self.file_line() {
                Err(error) => Err(error),
                Ok(_) => match self.side() {
                    Err(error) => Err(error),
                    Ok(_) => self.check_path(),
                },
            },
            _ => Ok(()),
        }
    }

    fn check_review(&self) -> (r: Result<(), Error>)
        ensures
            unit_outcome(r) == checked_review(*self),
    {
        if self.op == Operation::SetMergeProposalStatus {
            match self.status() {
                Ok(_) => {},
                Err(error) => return Err(error),
            }
        }
        if self.vote.is_some() {
            match self.vote() {
                Ok(_) => {},
                Err(error) => return Err(error),
            }
        }
        match &self.body {
            Some(body) => if self.op == Operation::ReviewDraftUpdate && blank(body.as_str()) {
                return Err(Error::invalid("draft body cannot be empty"));
            },
            None => {},
        }
        Ok(())
    }

    fn check_limit(&self) -> (r: Result<(), Error>)
        ensures
            unit_outcome(r) == checked_limit(*self),
    {
        match self.limit {
            Some(limit) => if limit == 0 {
                Err(Error::invalid("limit must be greater than zero"))
            } else if limit > MAX_RESULTS {
                Err(Error::invalid("limit cannot be greater than 1000"))
            } else {
                Ok(())
            },
            None => Ok(()),
        }
    }

    /// Whether the request can be carried out, and what it is refused with otherwise.
    pub fn validate(&self) -> (r: Result<(), Error>)
        ensures
            unit_outcome(r) == validated(*self),
    {
        self.check_required()?;
        self.check_snapshot()?;
        self.check_line()?;
        self.check_review()?;
        self.check_limit()?;
        if self.op == Operation::FileRead {
            self.check_path()?;
        }
        Ok(())
    }

    /// A text that the operation needs, which must not be blank.
    pub fn string<'value>(&self, value: &'value Option<String>, name: &str) -> (r: Result<
        &'value str,
        Error,
    >)
        ensures
            str_outcome(r) == required_text(self.op, opt_view(*value), name@),
    {
        match value {
            Some(text) => if blank(text.as_str()) {
                Err(self.missing_field(name))
            } else {
                Ok(text.as_str())
            },
            None => Err(self.missing_field(name)),
        }
    }

    /// The target.
    pub fn target(&self) -> (r: Result<&str, Error>)
        ensures
            str_outcome(r) == required_text(self.op, opt_view(self.target), "target"@),
    {
        self.string(&self.target, "target")
    }

    /// The repository.
    pub fn repository(&self) -> (r: Result<&str, Error>)
        ensures
            str_outcome(r) == required_text(self.op, opt_view(self.repository), "repository"@),
    {
        self.string(&self.repository, "repository")
    }

    /// The path, which the message of an error calls by a name.
    pub fn path(&self, name: &str) -> (r: Result<&str, Error>)
        ensures
            str_outcome(r) == required_text(self.op, opt_view(self.path), name@),
    {
        self.string(&self.path, name)
    }

    /// How many results are asked for.
    pub fn limit(&self) -> (r: usize)
        ensures
            r == request_limit(*self),
    {
        match self.limit {
            Some(limit) => limit,
            None => DEFAULT_RESULTS,
        }
    }

    /// The snapshot of a diff that the target and the parameter select together.
    pub fn preview_diff_id(&self) -> (r: Result<u64, Error>)
        ensures
            number_outcome(r) == request_preview_diff(*self),
    {
        match self.preview_diff_id {
            Some(id) => if id == 0 {
                return Err(Error::invalid("preview_diff_id must be greater than zero"));
            },
            None => {},
        }
        let target = match &self.target {
            Some(target) => match ResourceTarget::parse(target.as_str()) {
                Ok(target) => target.preview_diff_id,
                Err(error) => return Err(error),
            },
            None => None,
        };
        self.select_snapshot(target)
    }

    /// The snapshot of a diff that the parameter and a target with its own selection select
    /// together.
    pub fn select_snapshot(&self, target: Option<u64>) -> (r: Result<u64, Error>)
        ensures
            number_outcome(r) == selected_preview_diff(self.op, self.preview_diff_id, target),
    {
        match (self.preview_diff_id, target) {
            (Some(parameter), Some(target)) => if parameter == 0 {
                Err(Error::invalid("preview_diff_id must be greater than zero"))
            } else if parameter != target {
                Err(Error::invalid("target and preview_diff_id select different snapshots"))
            } else {
                Ok(parameter)
            },
            (Some(parameter), None) => if parameter == 0 {
                Err(Error::invalid("preview_diff_id must be greater than zero"))
            } else {
                Ok(parameter)
            },
            (None, Some(target)) => Ok(target),
            (None, None) => Err(self.missing_field("preview_diff_id")),
        }
    }

    /// The line of a file, which counts from one.
    pub fn file_line(&self) -> (r: Result<u64, Error>)
        ensures
            number_outcome(r) == request_file_line(*self),
    {
        match self.file_line {
            Some(line) => if line > 0 {
                Ok(line)
            } else {
                Err(self.missing_field("file_line"))
            },
            None => Err(self.missing_field("file_line")),
        }
    }

    /// The side of a diff.
    pub fn side(&self) -> (r: Result<DiffSide, Error>)
        ensures
            r matches Ok(side) ==> request_side(*self) == Ok::<DiffSide, ErrorView>(side),
            r matches Err(error) ==> request_side(*self) == Err::<DiffSide, ErrorView>(error@),
    {
        match self.side {
            Some(side) => Ok(side),
            None => Err(self.missing_field("side")),
        }
    }

    /// The vote, which must be one that Launchpad knows.
    pub fn vote(&self) -> (r: Result<&str, Error>)
        ensures
            str_outcome(r) == request_vote(*self),
    {
        match &self.vote {
            Some(vote) => {
                let vote = vote.as_str();
                if same(vote, "Approve") || same(vote, "Needs Fixing") || same(
                    vote,
                    "Needs Information",
                ) || same(vote, "Abstain") || same(vote, "Disapprove") || same(
                    vote,
                    "Needs Resubmitting",
                ) {
                    Ok(vote)
                } else {
                    Err(Error::invalid("vote is not a supported Launchpad review vote"))
                }
            },
            None => Err(Error::invalid("vote is not a supported Launchpad review vote")),
        }
    }

    /// The one status that is set.
    pub fn status(&self) -> (r: Result<&str, Error>)
        ensures
            str_outcome(r) == request_status(*self),
    {
        match &self.status {
            Some(OneOrMany::One(status)) => if !blank(status.as_str()) {
                return Ok(status.as_str());
            },
            _ => {},
        }
        Err(Error::invalid(cat2("status must be a string for ", self.op.name()).as_str()))
    }

    /// The instant since which comments are asked for.
    pub fn since(&self) -> (r: Result<Option<(i64, u32)>, Error>)
        ensures
            r matches Ok(since) ==> request_since(*self) == Ok::<Option<(i64, u32)>, ErrorView>(since),
            r matches Err(error) ==> request_since(*self) == Err::<Option<(i64, u32)>, ErrorView>(
                error@,
            ),
    {
        match &self.since {
            Some(text) => match parse_rfc3339(text.as_str()) {
                Some(instant) => Ok(Some(instant)),
                None => Err(Error::invalid("since must be an RFC 3339 timestamp")),
            },
            None => Ok(None),
        }
    }
}

/// A valid request asks for at least one result and for no more than a thousand.
pub proof fn lemma_valid_limit(request: Request)
    requires
        validated(request) is Ok,
    ensures
        1 <= request_limit(request) <= MAX_RESULTS,
{
}

/// A valid request for an operation on a line of a diff selects a snapshot, a line, a side and a
/// path within the repository.
pub proof fn lemma_valid_line(request: Request)
    requires
        validated(request) is Ok,
        selects_line(request.op),
    ensures
        request_preview_diff(request) is Ok,
        request_preview_diff(request) != Ok::<u64, ErrorView>(0),
        request_file_line(request) is Ok,
        request_side(request) is Ok,
        checked_path(request) is Ok,
{
    if let Some(target) = opt_view(request.target) {
        crate::target::lemma_target_is_consistent(target);
    }
}

/// Every operation that writes to Launchpad needs authentication.
pub proof fn lemma_writes_need_authentication(op: Operation)
    requires
        op == Operation::BugCreate || op == Operation::MergeProposalCreate || op
            == Operation::Comment || op == Operation::ReviewDraftUpdate || op
            == Operation::ReviewSubmit || op == Operation::SetMergeProposalStatus,
    ensures
        needs_authentication(op),
{
}

} // verus!
