//! Files of repositories, read from the Git host.
use vstd::prelude::*;
use crate::compare::{eq_ignore_ascii_case, same_letters};
use crate::error::{in_context, text_outcome, unit_outcome, Error, ErrorView};
use crate::fields::value_or;
use crate::format::{cat2, cat3, cat4, cat6};
use crate::json::{no_members, number_view, push_member, text_or_null, Json, JsonView};
use crate::lines::or_empty;
use crate::number::{decimal, decimal_size};
use crate::repository::{normalise_repository, normalised_repository, trim_slashes, without_slashes};
use crate::request::{required_text, Request};
use crate::response::{OperationResult, ResultView};
use crate::size::{byte_size, size_of_text, MAX_FILE_BYTES};
use crate::split::{split, split_on};
use crate::steps::{
    or_fail, result_step, stop, stop_at, Action, ActionView, Place, PlaceView, Reply,
};
use crate::text::{
    borrow_option, contains, contains_text, copy, opt_str_view, opt_view, same, text_from_utf8,
    trim, trimmed, views,
};
use crate::web::{
    encode_path, encoded_path, no_pairs, parse_url, parsed_url, push_pair, UrlParts, UrlQuery,
    UrlQueryView, UrlView,
};

verus! {

/// The parts of a URL.
pub open spec fn read_parts(text: Seq<char>) -> Result<UrlView, ErrorView> {
    match parsed_url(text) {
        Ok(url) => Ok(url),
        Err(source) => Err(ErrorView::Url { url: text, source }),
    }
}

/// The parts of a URL.
pub fn read_url(text: &str) -> (r: Result<UrlParts, Error>)
    ensures
        (r matches Ok(url) ==> read_parts(text@) == Ok::<UrlView, ErrorView>(url@)),
        r matches Err(error) ==> read_parts(text@) == Err::<UrlView, ErrorView>(error@),
{
    match parse_url(text) {
        Ok(url) => Ok(url),
        Err(source) => Err(Error::Url { url: copy(text), source }),
    }
}

/// The advice where the Git host does not give a file.
pub open spec fn file_guidance() -> Seq<char> {
    "git.launchpad.net/plain uses anonymous Git HTTP, not Launchpad API login; check repository, path and ref or use an authenticated Git checkout"@
}

fn advise() -> (r: &'static str)
    ensures
        r@ == file_guidance(),
{
    "git.launchpad.net/plain uses anonymous Git HTTP, not Launchpad API login; check repository, path and ref or use an authenticated Git checkout"
}

/// The error of a response of the Git host, in a context.
pub open spec fn file_error(context: Seq<char>, reason: Seq<char>) -> ErrorView {
    in_context(context, ErrorView::GitFileResponse { reason })
}

fn refuse_file(context: &str, reason: String) -> (r: Error)
    ensures
        r@ == file_error(context@, reason@),
{
    Error::context(context, Error::GitFileResponse { reason })
}

/// Whether a content type is that of a page.
pub open spec fn is_page_type(content_type: Seq<char>) -> bool {
    let kind = trimmed(split_on(content_type, ';')[0]);
    same_letters(kind, "text/html"@) || same_letters(kind, "application/xhtml+xml"@)
}

fn page_type(content_type: &str) -> (r: bool)
    ensures
        r == is_page_type(content_type@),
{
    let parts = split(content_type, ';');
    proof {
        crate::split::lemma_split_not_empty(content_type@, ';');
        assert(views(parts@).len() == parts@.len());
        assert(views(parts@)[0] == parts@[0]@);
    }
    let kind = trim(parts[0].as_str());
    eq_ignore_ascii_case(kind.as_str(), "text/html") || eq_ignore_ascii_case(
        kind.as_str(),
        "application/xhtml+xml",
    )
}

/// What the Git host answered, before the body: where the answer comes from after redirections,
/// its status, and its content type.
pub struct FileResponse {
    pub url: UrlParts,
    pub status: u16,
    pub status_text: String,
    pub content_type: Option<String>,
}

/// Whether an answer of the Git host can be a file, and what it is refused with otherwise.
pub open spec fn response_checked(
    requested: UrlView,
    answered: UrlView,
    status: u16,
    status_text: Seq<char>,
    content_type: Option<Seq<char>>,
    context: Seq<char>,
) -> Result<(), ErrorView> {
    if answered.scheme != requested.scheme || answered.host != requested.host || !contains_text(
        answered.path,
        "/plain/"@,
    ) {
        Err(
            file_error(
                context,
                "redirected to "@ + value_or(answered.host, "unknown host"@)
                    + " outside a Git plain-file URL; "@ + file_guidance(),
            ),
        )
    } else if !(200 <= status < 300) {
        let guidance = if status == 401 || status == 403 {
            "; "@ + file_guidance()
        } else {
            Seq::empty()
        };
        Err(
            file_error(
                context,
                "git.launchpad.net returned HTTP "@ + status_text + guidance,
            ),
        )
    } else if content_type is Some && is_page_type(content_type->0) {
        Err(
            file_error(
                context,
                "git.launchpad.net returned an HTML page instead of file content; "@
                    + file_guidance(),
            ),
        )
    } else {
        Ok(())
    }
}

fn hosts_differ(left: &Option<String>, right: &Option<String>) -> (r: bool)
    ensures
        r == (opt_view(*left) != opt_view(*right)),
{
    match (left, right) {
        (Some(left), Some(right)) => !same(left.as_str(), right.as_str()),
        (None, None) => false,
        _ => true,
    }
}

/// Whether an answer of the Git host can be a file: it must come from the same host, be a
/// success, and be no page.
pub fn check_file_response(requested: &UrlParts, response: &FileResponse, context: &str) -> (r: Result<
    (),
    Error,
>)
    ensures
        unit_outcome(r) == response_checked(
            requested@,
            response.url@,
            response.status,
            response.status_text@,
            opt_view(response.content_type),
            context@,
        ),
{
    let answered = &response.url;
    if !same(answered.scheme.as_str(), requested.scheme.as_str()) || hosts_differ(
        &answered.host,
        &requested.host,
    ) || !contains(answered.path.as_str(), "/plain/") {
        let host = match &answered.host {
            Some(host) => host.as_str(),
            None => "unknown host",
        };
        return Err(
            refuse_file(
                context,
                cat4("redirected to ", host, " outside a Git plain-file URL; ", advise()),
            ),
        );
    }
    if response.status < 200 || response.status >= 300 {
        let guidance = if response.status == 401 || response.status == 403 {
            cat2("; ", advise())
        } else {
            or_empty(None)
        };
        return Err(
            refuse_file(
                context,
                cat3(
                    "git.launchpad.net returned HTTP ",
                    response.status_text.as_str(),
                    guidance.as_str(),
                ),
            ),
        );
    }
    let page = match &response.content_type {
        Some(content_type) => page_type(content_type.as_str()),
        None => false,
    };
    if page {
        return Err(
            refuse_file(
                context,
                cat2(
                    "git.launchpad.net returned an HTML page instead of file content; ",
                    advise(),
                ),
            ),
        );
    }
    Ok(())
}

/// The text of a file, by the bytes of its body.
pub open spec fn body_text(body: Seq<u8>, context: Seq<char>) -> Result<Seq<char>, ErrorView> {
    if body.len() > MAX_FILE_BYTES {
        Err(
            file_error(
                context,
                "Launchpad file is larger than "@ + decimal(MAX_FILE_BYTES as nat) + " bytes"@,
            ),
        )
    } else if !vstd::utf8::valid_utf8(body) {
        Err(file_error(context, "file response is not UTF-8 text"@))
    } else if trimmed(vstd::utf8::decode_utf8(body)) == "Invalid OpenID transaction"@ {
        Err(
            file_error(
                context,
                "git.launchpad.net returned an OpenID error instead of file content; "@
                    + file_guidance(),
            ),
        )
    } else {
        Ok(vstd::utf8::decode_utf8(body))
    }
}

/// The text of a file, by the bytes of its body. One that is too large, is no text, or is the
/// error of a login page is refused.
pub fn check_file_body(body: Vec<u8>, context: &str) -> (r: Result<String, Error>)
    ensures
        text_outcome(r) == body_text(body@, context@),
{
    if body.len() > MAX_FILE_BYTES {
        return Err(
            refuse_file(
                context,
                cat3(
                    "Launchpad file is larger than ",
                    decimal_size(MAX_FILE_BYTES).as_str(),
                    " bytes",
                ),
            ),
        );
    }
    let text = match text_from_utf8(body) {
        Ok(text) => text,
        Err(_) => return Err(refuse_file(context, copy("file response is not UTF-8 text"))),
    };
    if same(trim(text.as_str()).as_str(), "Invalid OpenID transaction") {
        return Err(
            refuse_file(
                context,
                cat2(
                    "git.launchpad.net returned an OpenID error instead of file content; ",
                    advise(),
                ),
            ),
        );
    }
    Ok(text)
}

/// The URL of a file at the Git host, before its branch is named.
pub open spec fn plain_url(repository: Seq<char>, path: Seq<char>) -> Seq<char> {
    "https://git.launchpad.net/"@ + encoded_path(repository) + "/plain/"@ + encoded_path(path)
}

/// The URL of a file at the Git host, before its branch is named.
pub fn url_of_plain_file(repository: &str, path: &str) -> (r: String)
    ensures
        r@ == plain_url(repository@, path@),
{
    cat4(
        "https://git.launchpad.net/",
        encode_path(repository).as_str(),
        "/plain/",
        encode_path(path).as_str(),
    )
}

/// What is being done when a file is read.
pub open spec fn file_context(repository: Seq<char>, path: Seq<char>, branch: Option<Seq<char>>) -> Seq<
    char,
> {
    "cannot read Launchpad repository file "@ + repository + ":"@ + path + " at branch "@ + value_or(
        branch,
        "(default)"@,
    )
}

/// The action of reading a file of a repository.
pub open spec fn file_action(
    repository: Seq<char>,
    path: Seq<char>,
    branch: Option<Seq<char>>,
) -> Result<ActionView, ErrorView> {
    let base = plain_url(repository, path);
    let context = file_context(repository, path, branch);
    match branch {
        Some(branch) => Ok(
            ActionView::File {
                place: PlaceView::Query(
                    UrlQueryView { base, pairs: Seq::empty().push(("h"@, branch)) },
                ),
                context,
            },
        ),
        None => match read_parts(base) {
            Ok(url) => Ok(ActionView::File { place: PlaceView::Url(url.text), context }),
            Err(error) => Err(error),
        },
    }
}

fn ask_file(repository: &str, path: &str, branch: Option<&str>) -> (r: Result<Action, Error>)
    ensures
        (r matches Ok(action) ==> file_action(repository@, path@, opt_str_view(branch)) == Ok::<
            ActionView,
            ErrorView,
        >(action@)),
        r matches Err(error) ==> file_action(repository@, path@, opt_str_view(branch)) == Err::<
            ActionView,
            ErrorView,
        >(error@),
{
    let base = url_of_plain_file(repository, path);
    let shown = match branch {
        Some(branch) => branch,
        None => "(default)",
    };
    let context = cat6(
        "cannot read Launchpad repository file ",
        repository,
        ":",
        path,
        " at branch ",
        shown,
    );
    match branch {
        Some(branch) => {
            let mut pairs = no_pairs();
            push_pair(&mut pairs, "h", branch);
            Ok(Action::File { place: Place::Query(UrlQuery { base, pairs }), context })
        },
        None => match read_url(base.as_str()) {
            Ok(url) => Ok(Action::File { place: Place::Url(url.text), context }),
            Err(error) => Err(error),
        },
    }
}

/// The report of a file that was read.
pub open spec fn file_result(
    request: Request,
    repository: Seq<char>,
    path: Seq<char>,
    url: Seq<char>,
    text: Seq<char>,
) -> ResultView {
    ResultView {
        text,
        source_url: Some(url),
        details: Seq::empty().push(("kind"@, JsonView::Text("file"@))).push(
            ("repository"@, JsonView::Text(repository)),
        ).push(("path"@, JsonView::Text(path))).push(
            ("branch"@, text_or_null(opt_view(request.branch))),
        ).push(("bytes"@, number_view(byte_size(text) as u64))),
    }
}

/// Reads a file of a repository.
pub open spec fn file_view(request: Request, replies: Seq<Reply>) -> Result<ResultView, ActionView> {
    match or_fail(required_text(request.op, opt_view(request.repository), "repository"@)) {
        Err(stop) => Err(stop),
        Ok(raw) => match or_fail(normalised_repository(raw)) {
            Err(stop) => Err(stop),
            Ok(repository) => match or_fail(
                required_text(request.op, opt_view(request.path), "path"@),
            ) {
                Err(stop) => Err(stop),
                Ok(path) => match or_fail(
                    file_action(
                        without_slashes(repository),
                        trimmed(path),
                        opt_view(request.branch),
                    ),
                ) {
                    Err(stop) => Err(stop),
                    Ok(ask) => match (replies.len() > 0, replies[0]) {
                        (true, Reply::File { url, text }) => Ok(
                            file_result(request, raw, path, url@, text@),
                        ),
                        _ => Err(stop_at(replies, 0, ask)),
                    },
                },
            },
        },
    }
}

/// Reads a file of a repository.
pub fn read_repository_file(request: &Request, replies: &Vec<Reply>) -> (r: Result<
    OperationResult,
    Action,
>)
    ensures
        result_step(r) == file_view(*request, replies@),
{
    let raw = match request.repository() {
        Ok(raw) => raw,
        Err(error) => return Err(Action::Fail { error }),
    };
    let repository = match normalise_repository(raw) {
        Ok(repository) => repository,
        Err(error) => return Err(Action::Fail { error }),
    };
    let path = match request.path("path") {
        Ok(path) => path,
        Err(error) => return Err(Action::Fail { error }),
    };
    let ask = match ask_file(
        trim_slashes(repository.as_str()).as_str(),
        trim(path).as_str(),
        borrow_option(&request.branch),
    ) {
        Ok(ask) => ask,
        Err(error) => return Err(Action::Fail { error }),
    };
    if replies.len() > 0 {
        if let Reply::File { url, text } = &replies[0] {
            let mut details = no_members();
            push_member(&mut details, "kind", Json::of_text("file"));
            push_member(&mut details, "repository", Json::of_text(raw));
            push_member(&mut details, "path", Json::of_text(path));
            push_member(&mut details, "branch", Json::of_option(borrow_option(&request.branch)));
            push_member(
                &mut details,
                "bytes",
                Json::of_number(size_of_text(text.as_str()) as u64),
            );
            return Ok(
                OperationResult {
                    text: copy(text.as_str()),
                    source_url: Some(copy(url.as_str())),
                    details,
                },
            );
        }
    }
    Err(stop(replies, 0, ask))
}

/// A file that is given out is the text of its body, and the body is no larger than two
/// mebibytes.
pub proof fn lemma_file_is_whole(body: Seq<u8>, context: Seq<char>)
    ensures
        body_text(body, context) matches Ok(text) ==> vstd::utf8::encode_utf8(text) == body
            && body.len() <= MAX_FILE_BYTES,
{
    if vstd::utf8::valid_utf8(body) {
        vstd::utf8::decode_utf8_encode_utf8(body);
    }
}

/// Every refusal of a response names what was being read.
pub proof fn lemma_refusal_names_context(
    requested: UrlView,
    answered: UrlView,
    status: u16,
    status_text: Seq<char>,
    content_type: Option<Seq<char>>,
    body: Seq<u8>,
    context: Seq<char>,
)
    ensures
        response_checked(requested, answered, status, status_text, content_type, context) matches Err(
            error,
        ) ==> context.is_prefix_of(error.message()),
        body_text(body, context) matches Err(error) ==> context.is_prefix_of(error.message()),
{
    if let Err(error) = response_checked(
        requested,
        answered,
        status,
        status_text,
        content_type,
        context,
    ) {
        assert(error.message().take(context.len() as int) =~= context);
    }
    if let Err(error) = body_text(body, context) {
        assert(error.message().take(context.len() as int) =~= context);
    }
}

} // verus!
