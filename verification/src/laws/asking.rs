//! Which requests are taken, how they are connected, and how texts, targets and answers are read.
use vstd::prelude::*;
use crate::endpoints::{base_url, download_place, planned_access, without_credentials, Access};
use crate::error::{invalid, ErrorView, FaultKind};
use crate::files::{body_text, response_checked};
use crate::launchpad::connection;
use crate::laws::sending::text_of;
use crate::request::{request_preview_diff, validated, OneOrMany, Operation, Request};
use crate::split::{join, lemma_split_not_empty, lines_of, split_on, without_return};
use crate::target::url_location;
use crate::text::{is_blank, is_space, trim_end, trim_end_of, trim_start, trim_start_of, trimmed};
use crate::web::{decoded_text, UrlView};

verus! {

/// Whether an operation needs a target.
pub open spec fn needs_target(op: Operation) -> bool {
    !(op == Operation::RepoView || op == Operation::SearchMergeProposals || op == Operation::FileRead
        || op == Operation::MergeProposalCreate || op == Operation::MergeProposalForBranch || op
        == Operation::CurrentMergeProposal || op == Operation::MergeProposalDiscussion || op
        == Operation::MergeProposalPush)
}

/// Whether an operation needs a repository.
pub open spec fn needs_repository(op: Operation) -> bool {
    op == Operation::RepoView || op == Operation::SearchMergeProposals || op == Operation::FileRead
        || op == Operation::MergeProposalCreate
}

/// Whether an operation is about a line of a file in a snapshot.
pub open spec fn needs_line(op: Operation) -> bool {
    op == Operation::DiffLineMap || op == Operation::ReviewDraftUpdate
}

/// Whether an operation is about a snapshot.
pub open spec fn needs_snapshot(op: Operation) -> bool {
    needs_line(op) || op == Operation::InlineComments || op == Operation::ReviewDrafts || op
        == Operation::ReviewSubmit
}

/// Whether a path stays within its repository: it is not absolute, and no segment of it leads up.
pub open spec fn stays_within(path: Seq<char>) -> bool {
    !"/"@.is_prefix_of(path) && !split_on(path, '/').contains(".."@)
}

/// A request is taken exactly where it has what its operation needs: a target, a repository, a
/// path within the repository, a snapshot, a line and a side, a title, refs, a body or a status,
/// a vote that there is, and a limit from one to a thousand.
pub proof fn lemma_valid_requests(request: Request)
    ensures
        validated(request) is Ok <==> {
            &&& needs_target(request.op) ==> text_of(request.target).len() > 0
            &&& needs_repository(request.op) ==> text_of(request.repository).len() > 0
            &&& needs_line(request.op) || request.op == Operation::FileRead ==> !is_blank(
                text_of(request.path),
            ) && stays_within(text_of(request.path))
            &&& needs_line(request.op) ==> request.side is Some && (request.file_line matches Some(line)
                && line > 0)
            &&& needs_snapshot(request.op) ==> request_preview_diff(request) is Ok
            &&& request.op == Operation::BugCreate ==> text_of(request.title).len() > 0 && text_of(
                request.description,
            ).len() > 0
            &&& request.op == Operation::MergeProposalCreate ==> text_of(request.source_ref).len() > 0
                && text_of(request.target_ref).len() > 0
            &&& request.op == Operation::Comment ==> text_of(request.body).len() > 0
            &&& request.op == Operation::ReviewDraftUpdate ==> (request.body matches Some(body)
                ==> !is_blank(body@))
            &&& request.op == Operation::SetMergeProposalStatus ==> (request.status matches Some(
                OneOrMany::One(status),
            ) && !is_blank(status@))
            &&& request.vote matches Some(vote) ==> is_vote(vote@)
            &&& request.limit matches Some(limit) ==> 1 <= limit <= 1000
        },
{
    let empty: Seq<char> = Seq::empty();
    assert(is_blank(empty)) by {
        assert(trimmed(empty) =~= empty);
    }
    if text_of(request.path).len() == 0 {
        assert(text_of(request.path) =~= empty);
    }
}

/// The votes that Launchpad takes.
pub open spec fn is_vote(vote: Seq<char>) -> bool {
    vote == "Approve"@ || vote == "Needs Fixing"@ || vote == "Needs Information"@ || vote
        == "Abstain"@ || vote == "Disapprove"@ || vote == "Needs Resubmitting"@
}

/// A snapshot is selected by the parameter of the request, or else by its target. Both must not
/// differ, and none must be zero.
pub proof fn lemma_snapshot_is_selected(request: Request, id: u64)
    ensures
        request_preview_diff(request) == Ok::<u64, ErrorView>(id) ==> id == match request.preview_diff_id {
            Some(own) => own,
            None => crate::target::parsed_target(text_of(request.target))->Ok_0.preview_diff_id->0,
        },
        request_preview_diff(request) == Ok::<u64, ErrorView>(id) ==> id > 0,
        request.preview_diff_id == Some(0u64) ==> request_preview_diff(request) is Err,
        request.target is None && request.preview_diff_id is None ==> request_preview_diff(
            request,
        ) is Err,
        request.target is None && request.preview_diff_id == Some(id) && id > 0
            ==> request_preview_diff(request) == Ok::<u64, ErrorView>(id),
        request.target matches Some(raw) ==> (crate::target::parsed_target(raw@) matches Ok(target) ==> {
            &&& request.preview_diff_id == Some(id) && id > 0 && (target.preview_diff_id is None
                || target.preview_diff_id == Some(id)) ==> request_preview_diff(request) == Ok::<
                u64,
                ErrorView,
            >(id)
            &&& request.preview_diff_id == Some(id) && target.preview_diff_id is Some
                && target.preview_diff_id != Some(id) ==> request_preview_diff(request) is Err
            &&& request.preview_diff_id is None && target.preview_diff_id == Some(id)
                ==> request_preview_diff(request) == Ok::<u64, ErrorView>(id)
            &&& request.preview_diff_id is None && target.preview_diff_id is None
                ==> request_preview_diff(request) is Err
        }),
{
    if let Some(raw) = request.target {
        crate::target::lemma_target_is_consistent(raw@);
    }
}

/// Whatever changes something on Launchpad, and the drafts of a review, need authentication. A file
/// and a push need no connection, and everything else one that may be anonymous.
pub proof fn lemma_connections(request: Request)
    requires
        validated(request) is Ok,
    ensures
        connection(request) == Ok::<Option<bool>, ErrorView>(
            match request.op {
                Operation::FileRead => None,
                Operation::MergeProposalPush => None,
                Operation::BugCreate => Some(true),
                Operation::MergeProposalCreate => Some(true),
                Operation::Comment => Some(true),
                Operation::ReviewDraftUpdate => Some(true),
                Operation::ReviewSubmit => Some(true),
                Operation::SetMergeProposalStatus => Some(true),
                Operation::ReviewDrafts => Some(true),
                _ => Some(false),
            },
        ),
{
}

/// Access is anonymous only where that is forced, which operations that need authentication refuse.
/// Missing credentials are no fault exactly where none are needed.
pub proof fn lemma_access(required: bool, anonymous: bool, kind: FaultKind, text: Seq<char>)
    ensures
        planned_access(required, anonymous) is Err <==> required && anonymous,
        planned_access(required, anonymous) matches Ok(access) ==> (access == Access::Anonymous
            <==> anonymous),
        without_credentials(required, kind, text) is Ok <==> kind == FaultKind::NotAuthenticated
            && !required,
        without_credentials(required, kind, text) matches Err(error) ==> error == (
        ErrorView::Launchpad { kind, text }),
{
}

/// The web service is at the base that is configured, without slashes at its end, or else at the
/// host of the instance, production by default, under the version, `devel` by default.
pub proof fn lemma_service_is_configured(
    base: Seq<char>,
    instance: Option<Seq<char>>,
    version: Option<Seq<char>>,
)
    ensures
        base.len() > 0 && base.last() != '/' ==> base_url(Some(base), instance, version) == Ok::<
            Seq<char>,
            ErrorView,
        >(base),
        base_url(None, None, None) == Ok::<Seq<char>, ErrorView>(
            "https://"@ + "api.launchpad.net"@ + "/"@ + "devel"@,
        ),
        version matches Some(version) ==> {
            &&& base_url(None, Some("production"@), Some(version)) == Ok::<Seq<char>, ErrorView>(
                "https://"@ + "api.launchpad.net"@ + "/"@ + version,
            )
            &&& base_url(None, Some("staging"@), Some(version)) == Ok::<Seq<char>, ErrorView>(
                "https://"@ + "api.staging.launchpad.net"@ + "/"@ + version,
            )
            &&& base_url(None, Some("qastaging"@), Some(version)) == Ok::<Seq<char>, ErrorView>(
                "https://"@ + "api.qastaging.launchpad.net"@ + "/"@ + version,
            )
            &&& instance matches Some(host) ==> host != "production"@ && host != "staging"@ && host
                != "qastaging"@ ==> {
                &&& crate::text::contains_text(host, "."@) ==> base_url(
                    None,
                    Some(host),
                    Some(version),
                ) == Ok::<Seq<char>, ErrorView>("https://"@ + host + "/"@ + version)
                &&& !crate::text::contains_text(host, "."@) ==> base_url(
                    None,
                    Some(host),
                    Some(version),
                ) is Err
            }
        },
{
    reveal_strlit("production");
    reveal_strlit("staging");
    reveal_strlit("qastaging");
    assert("production"@.len() == 10 && "staging"@.len() == 7 && "qastaging"@.len() == 9);
}

/// An error of Launchpad that says that credentials are missing or rejected has that code, however
/// deep it lies, and no other error has one. The message of an error in a context is that of the
/// error behind the context.
pub proof fn lemma_error_codes(error: ErrorView, context: Seq<char>)
    ensures
        error matches ErrorView::Launchpad { kind, text } ==> (error.code() == Some(
            "not_authenticated"@,
        ) <==> kind == FaultKind::NotAuthenticated || kind == (FaultKind::Api { status: 401 })),
        error !is Launchpad && error !is Context ==> error.code() is None,
        crate::error::in_context(context, error).code() == error.code(),
        crate::error::in_context(context, error).message() == context + ": "@ + error.message(),
        invalid(context).message() == "invalid request: "@ + context,
        error.code() is None || error.code() == Some("not_authenticated"@),
{
}

/// A target URL with the scheme `lp` names its host and its path, one on Launchpad's own hosts its
/// path, and any other is refused.
pub proof fn lemma_target_urls(url: UrlView, host: Seq<char>, rest: Seq<char>)
    requires
        url.host == Some(host),
        host.len() > 0,
        rest.len() > 0 && rest[0] != '/',
        url.path == "/"@ + rest,
    ensures
        url.scheme == "lp"@ ==> (decoded_text(host + "/"@ + rest) matches Ok(path) ==> url_location(
            url,
        ) == Ok::<(Seq<char>, Seq<(Seq<char>, Seq<char>)>), ErrorView>((path, url.query))),
        url.scheme != "lp"@ && (host == "launchpad.net"@ || host == "bugs.launchpad.net"@ || host
            == "code.launchpad.net"@) ==> (decoded_text(rest) matches Ok(path) ==> url_location(url)
            == Ok::<(Seq<char>, Seq<(Seq<char>, Seq<char>)>), ErrorView>((path, url.query))),
        url.scheme != "lp"@ && host != "launchpad.net"@ && host != "bugs.launchpad.net"@ && host
            != "code.launchpad.net"@ ==> url_location(url) is Err,
{
    reveal_strlit("/");
    assert(url.path[0] == '/');
    assert(url.path.skip(1) =~= rest);
    assert(trim_start_of(rest, '/') == rest);
    assert(trim_start_of(url.path, '/') == rest);
}

/// A link to the text of a diff is taken only below the configured base. On Launchpad's own
/// instances the text is downloaded from the pages of the instance, at the same place with another
/// ending; elsewhere from the link as it is.
pub proof fn lemma_diff_download(base: UrlView, url: UrlView, place: Seq<char>)
    requires
        base.path.len() == 0 || base.path.last() != '/',
        url.scheme == base.scheme && url.host == base.host && url.port == base.port,
        place.len() > 0 && place[0] == '/',
        url.path == base.path + place + "/diff_text"@,
    ensures
        base.host == Some("api.launchpad.net"@) ==> download_place(base, url) == Ok::<
            Option<(Seq<char>, Seq<char>)>,
            ErrorView,
        >(Some(("code.launchpad.net"@, place + "/+files/preview.diff"@))),
        base.host == Some("api.staging.launchpad.net"@) ==> download_place(base, url) == Ok::<
            Option<(Seq<char>, Seq<char>)>,
            ErrorView,
        >(Some(("code.staging.launchpad.net"@, place + "/+files/preview.diff"@))),
        base.host == Some("api.qastaging.launchpad.net"@) ==> download_place(base, url) == Ok::<
            Option<(Seq<char>, Seq<char>)>,
            ErrorView,
        >(Some(("code.qastaging.launchpad.net"@, place + "/+files/preview.diff"@))),
        base.host == Some("localhost"@) ==> download_place(base, url) == Ok::<
            Option<(Seq<char>, Seq<char>)>,
            ErrorView,
        >(None),
{
    reveal_strlit("/");
    reveal_strlit("/diff_text");
    reveal_strlit("localhost");
    reveal_strlit("api.launchpad.net");
    reveal_strlit("api.staging.launchpad.net");
    reveal_strlit("api.qastaging.launchpad.net");
    assert("localhost"@.len() == 9 && "api.launchpad.net"@.len() == 17
        && "api.staging.launchpad.net"@.len() == 25 && "api.qastaging.launchpad.net"@.len() == 27);
    assert(trim_end_of(base.path, '/') == base.path);
    let rest = place + "/diff_text"@;
    assert(url.path =~= base.path + rest);
    assert(base.path.is_prefix_of(url.path)) by {
        assert(url.path.take(base.path.len() as int) =~= base.path);
    }
    assert(url.path.skip(base.path.len() as int) =~= rest);
    assert("/"@.is_prefix_of(rest)) by {
        assert(rest[0] == place[0]);
        assert(rest.take(1) =~= "/"@);
    }
    assert("/diff_text"@.is_suffix_of(rest)) by {
        assert(rest.skip(place.len() as int) =~= "/diff_text"@);
    }
    assert(rest.take(rest.len() - "/diff_text"@.len()) =~= place);
}

/// The answer to reading a file is taken exactly where it comes from the host and scheme that were
/// asked, from a plain-file path, with a status of success, and is not a page.
pub proof fn lemma_file_answers(
    requested: UrlView,
    answered: UrlView,
    status: u16,
    status_text: Seq<char>,
    kind: Seq<char>,
    context: Seq<char>,
)
    ensures
        response_checked(requested, answered, status, status_text, None, context) is Ok <==> {
            &&& answered.scheme == requested.scheme && answered.host == requested.host
            &&& crate::text::contains_text(answered.path, "/plain/"@)
            &&& 200 <= status < 300
        },
        response_checked(requested, answered, status, status_text, Some(kind), context) is Ok <==> {
            let own = trimmed(split_on(kind, ';')[0]);
            &&& response_checked(requested, answered, status, status_text, None, context) is Ok
            &&& !crate::compare::same_letters(own, "text/html"@)
            &&& !crate::compare::same_letters(own, "application/xhtml+xml"@)
        },
        response_checked(requested, answered, status, status_text, None, context) matches Err(error)
            ==> (error matches ErrorView::Context { context: own, .. } && own == context),
{
}

/// A file is the text that its bytes encode, where they are no more than two mebibytes and are
/// UTF-8.
pub proof fn lemma_file_text(text: Seq<char>, context: Seq<char>, bytes: Seq<u8>)
    ensures
        vstd::utf8::encode_utf8(text).len() <= 2_097_152 && trimmed(text)
            != "Invalid OpenID transaction"@ ==> body_text(vstd::utf8::encode_utf8(text), context)
            == Ok::<Seq<char>, ErrorView>(text),
        trimmed(text) == "Invalid OpenID transaction"@ ==> body_text(
            vstd::utf8::encode_utf8(text),
            context,
        ) is Err,
        bytes.len() > 2_097_152 ==> body_text(bytes, context) is Err,
        !vstd::utf8::valid_utf8(bytes) ==> body_text(bytes, context) is Err,
{
    vstd::utf8::encode_utf8_valid_utf8(text);
    vstd::utf8::encode_utf8_decode_utf8(text);
}

proof fn lemma_split_behind(line: Seq<char>, separator: char, rest: Seq<char>)
    requires
        !line.contains(separator),
    ensures
        split_on(line + seq![separator] + rest, separator) =~= seq![line] + split_on(rest, separator),
        split_on(line, separator) =~= seq![line],
    decreases line.len() + rest.len(),
{
    if rest.len() > 0 {
        let text = line + seq![separator] + rest;
        lemma_split_behind(line, separator, rest.drop_last());
        assert(text.drop_last() =~= line + seq![separator] + rest.drop_last());
        assert(text.last() == rest.last());
        lemma_split_not_empty(rest.drop_last(), separator);
        let before = split_on(rest.drop_last(), separator);
        let all = seq![line] + before;
        assert(all.drop_last() =~= seq![line] + before.drop_last());
        assert(all.last() == before.last());
    } else if line.len() > 0 {
        lemma_split_behind(line.drop_last(), separator, rest);
        assert(!line.drop_last().contains(separator)) by {
            if line.drop_last().contains(separator) {
                let i = choose|i: int|
                    0 <= i < line.drop_last().len() && line.drop_last()[i] == separator;
                assert(line[i] == separator);
            }
        }
        assert(line.last() == line[line.len() - 1]);
        let front = seq![line.drop_last()];
        assert(front.drop_last() =~= Seq::empty());
        assert(line.drop_last().push(line.last()) =~= line);
        assert(split_on(line, separator) =~= seq![line]);
        let text = line + seq![separator] + rest;
        assert(text.drop_last() =~= line);
        assert(text.last() == separator);
        assert(rest =~= Seq::empty());
    } else {
        let text = line + seq![separator] + rest;
        assert(text.drop_last() =~= line);
        assert(text.last() == separator);
        assert(rest =~= Seq::empty());
        assert(line =~= Seq::empty());
    }
}

/// The lines of a text are what stands between its line ends, without a carriage return in front of
/// a line end. Nothing behind the last line end is no line.
pub proof fn lemma_lines(line: Seq<char>, rest: Seq<char>)
    requires
        !line.contains('\n'),
    ensures
        lines_of(line + seq!['\n'] + rest) =~= seq![
            if line.len() > 0 && line.last() == '\r' {
                line.drop_last()
            } else {
                line
            },
        ] + lines_of(rest),
        line.len() > 0 ==> lines_of(line) =~= seq![line],
        lines_of(Seq::empty()).len() == 0,
{
    lemma_split_behind(line, '\n', rest);
    lemma_split_not_empty(rest, '\n');
    let parts = split_on(rest, '\n');
    let all = seq![line] + parts;
    assert(all.drop_last() =~= seq![line] + parts.drop_last());
    assert(all.last() == parts.last());
    let f = |line: Seq<char>| without_return(line);
    assert(all.drop_last().map_values(f) =~= seq![without_return(line)]
        + parts.drop_last().map_values(f));
    let own = seq![line];
    assert(own.drop_last().map_values(f) =~= Seq::empty());
}

proof fn lemma_trim_front(blanks: Seq<char>, text: Seq<char>)
    requires
        forall|i: int| 0 <= i < blanks.len() ==> is_space(#[trigger] blanks[i]),
        text.len() == 0 || !is_space(text[0]),
    ensures
        trim_start(blanks + text) == text,
    decreases blanks.len(),
{
    if blanks.len() == 0 {
        assert(blanks + text =~= text);
    } else {
        let rest = blanks.skip(1);
        assert forall|i: int| 0 <= i < rest.len() implies is_space(#[trigger] rest[i]) by {
            assert(rest[i] == blanks[i + 1]);
        }
        assert((blanks + text)[0] == blanks[0]);
        assert((blanks + text).skip(1) =~= rest + text);
        lemma_trim_front(rest, text);
    }
}

proof fn lemma_trim_back(text: Seq<char>, blanks: Seq<char>)
    requires
        forall|i: int| 0 <= i < blanks.len() ==> is_space(#[trigger] blanks[i]),
        text.len() == 0 || !is_space(text.last()),
    ensures
        trim_end(text + blanks) == text,
    decreases blanks.len(),
{
    if blanks.len() == 0 {
        assert(text + blanks =~= text);
    } else {
        let front = blanks.drop_last();
        assert forall|i: int| 0 <= i < front.len() implies is_space(#[trigger] front[i]) by {
            assert(front[i] == blanks[i]);
        }
        assert((text + blanks).last() == blanks[blanks.len() - 1]);
        assert((text + blanks).drop_last() =~= text + front);
        lemma_trim_back(text, front);
    }
}

/// Trimming takes the blanks at either end off a text and nothing else, and a text is blank where
/// nothing is left.
pub proof fn lemma_trimmed(before: Seq<char>, text: Seq<char>, after: Seq<char>)
    requires
        forall|i: int| 0 <= i < before.len() ==> is_space(#[trigger] before[i]),
        forall|i: int| 0 <= i < after.len() ==> is_space(#[trigger] after[i]),
        text.len() > 0 && !is_space(text[0]) && !is_space(text.last()),
    ensures
        trimmed(before + text + after) == text,
        !is_blank(before + text + after),
        is_blank(before),
{
    assert(before + text + after =~= before + (text + after));
    lemma_trim_front(before, text + after);
    lemma_trim_back(text, after);
    let none: Seq<char> = Seq::empty();
    assert(before + none =~= before);
    lemma_trim_front(before, none);
    assert(trim_end(none) =~= none);
}

/// A joined text is its parts with the separator between each two.
pub proof fn lemma_joined(parts: Seq<Seq<char>>, part: Seq<char>, separator: Seq<char>)
    ensures
        join(Seq::empty(), separator).len() == 0,
        join(seq![part], separator) == part,
        parts.len() > 0 ==> join(parts.push(part), separator) == join(parts, separator) + separator
            + part,
{
    if parts.len() > 0 {
        assert(parts.push(part).drop_last() =~= parts);
    }
}

/// Blanks are the characters with the property White_Space, and of ASCII these are the tab, the line
/// feed, the vertical tab, the form feed, the carriage return and the space.
pub proof fn lemma_blanks(c: char)
    requires
        c as u32 <= 0x7f,
    ensures
        is_space(c) <==> c == ' ' || c == '\t' || c == '\n' || c == '\r' || c as u32 == 0x0b || c as u32
            == 0x0c,
{
}

/// The message of an error says what could not be done, with what, and why.
pub proof fn lemma_error_messages(what: Seq<char>, why: Seq<char>, kind: FaultKind)
    ensures
        (ErrorView::Command { program: what, source: why }).message() == "cannot run "@ + what
            + ": "@ + why,
        (ErrorView::CommandFailed { program: what, reason: why }).message() == "cannot complete "@
            + what + ": "@ + why,
        (ErrorView::Launchpad { kind, text: why }).message() == "cannot access Launchpad: "@ + why,
        (ErrorView::GitFileResponse { reason: why }).message() == "unexpected Git file response: "@
            + why,
        (ErrorView::HttpStatus { url: what, status: why }).message() == "cannot access "@ + what
            + ": HTTP "@ + why,
        (ErrorView::Io { path: what, source: why }).message() == "cannot read "@ + what + ": "@ + why,
        (ErrorView::OutputEncoding { source: why }).message() == "cannot decode command output: "@
            + why,
        (ErrorView::Url { url: what, source: why }).message() == "cannot parse URL "@ + what + ": "@
            + why,
        (ErrorView::UrlEncoding { reason: why }).message() == "cannot decode URL path: "@ + why,
        (ErrorView::Web { url: what, source: why }).message() == "cannot fetch "@ + what + ": "@
            + why,
{
}

/// What a caller is told of an error is its message, but for missing or rejected credentials, of
/// which only that is told.
pub proof fn lemma_told_errors(error: ErrorView, context: Seq<char>, text: Seq<char>)
    ensures
        error !is Launchpad && error !is Context ==> error.bridge_message() == error.message(),
        (ErrorView::Launchpad { kind: FaultKind::NotAuthenticated, text }).bridge_message()
            == "Launchpad credentials are missing"@,
        (ErrorView::Launchpad { kind: FaultKind::Api { status: 401 }, text }).bridge_message()
            == "Launchpad authentication required or rejected (HTTP 401)"@,
        (ErrorView::Launchpad { kind: FaultKind::NotFound, text }).bridge_message()
            == "cannot access Launchpad: "@ + text,
        crate::error::in_context(context, error).bridge_message() == context + ": "@
            + error.bridge_message(),
{
}

proof fn lemma_split_at_blank(front: Seq<char>, blank: char, rest: Seq<char>)
    requires
        is_space(blank),
    ensures
        crate::split::split_at_spaces(front + seq![blank] + rest) =~= crate::split::split_at_spaces(
            front,
        ) + crate::split::split_at_spaces(rest),
        crate::split::split_at_spaces(rest).len() > 0,
    decreases rest.len(),
{
    let text = front + seq![blank] + rest;
    if rest.len() == 0 {
        assert(text.drop_last() =~= front);
        assert(text.last() == blank);
    } else {
        lemma_split_at_blank(front, blank, rest.drop_last());
        assert(text.drop_last() =~= front + seq![blank] + rest.drop_last());
        assert(text.last() == rest.last());
        let first = crate::split::split_at_spaces(front);
        let before = crate::split::split_at_spaces(rest.drop_last());
        let all = first + before;
        assert(all.drop_last() =~= first + before.drop_last());
        assert(all.last() == before.last());
    }
}

proof fn lemma_one_word(word: Seq<char>)
    requires
        forall|i: int| 0 <= i < word.len() ==> !is_space(#[trigger] word[i]),
    ensures
        crate::split::split_at_spaces(word) =~= seq![word],
    decreases word.len(),
{
    if word.len() > 0 {
        let front = word.drop_last();
        assert forall|i: int| 0 <= i < front.len() implies !is_space(#[trigger] front[i]) by {
            assert(front[i] == word[i]);
        }
        lemma_one_word(front);
        assert(word.last() == word[word.len() - 1]);
        assert(seq![front].drop_last() =~= Seq::empty());
        assert(front.push(word.last()) =~= word);
    } else {
        assert(word =~= Seq::empty());
    }
}

proof fn lemma_join_both(first: Seq<Seq<char>>, second: Seq<Seq<char>>, separator: Seq<char>)
    requires
        first.len() > 0 && second.len() > 0,
    ensures
        join(first + second, separator) =~= join(first, separator) + separator + join(
            second,
            separator,
        ),
    decreases second.len(),
{
    let both = first + second;
    assert(both.drop_last() =~= first + second.drop_last());
    assert(both.last() == second.last());
    if second.len() == 1 {
        assert(first + second.drop_last() =~= first);
    } else {
        lemma_join_both(first, second.drop_last(), separator);
    }
}

/// A text in one line is its words with one space between each two, whatever blanks stood there.
pub proof fn lemma_text_in_one_line(word: Seq<char>, blank: char, rest: Seq<char>)
    requires
        word.len() > 0,
        forall|i: int| 0 <= i < word.len() ==> !is_space(#[trigger] word[i]),
        is_space(blank),
    ensures
        crate::split::compacted(word) == word,
        crate::split::compacted(seq![blank] + rest) == crate::split::compacted(rest),
        crate::split::words(rest).len() > 0 ==> crate::split::compacted(word + seq![blank] + rest)
            == word + " "@ + crate::split::compacted(rest),
        crate::split::words(rest).len() == 0 ==> crate::split::compacted(word + seq![blank] + rest)
            == word,
{
    let test = |word: Seq<char>| word.len() > 0;
    lemma_one_word(word);
    let none: Seq<char> = Seq::empty();
    lemma_one_word(none);
    reveal(Seq::filter);
    let own = seq![word];
    assert(own.drop_last() =~= Seq::empty());
    assert(own.filter(test) =~= own);
    let nothing = seq![none];
    assert(nothing.drop_last() =~= Seq::empty());
    assert(nothing.filter(test) =~= Seq::empty());
    lemma_split_at_blank(word, blank, rest);
    lemma_split_at_blank(none, blank, rest);
    assert(none + seq![blank] + rest =~= seq![blank] + rest);
    let behind = crate::split::split_at_spaces(rest);
    Seq::filter_distributes_over_add(own, behind, test);
    Seq::filter_distributes_over_add(nothing, behind, test);
    assert(nothing.filter(test) + behind.filter(test) =~= behind.filter(test));
    let words = crate::split::words(rest);
    if words.len() > 0 {
        lemma_join_both(own, words, " "@);
    } else {
        assert(own + words =~= own);
    }
}

} // verus!
