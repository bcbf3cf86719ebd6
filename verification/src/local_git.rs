//! The operations on local Git checkouts.
use vstd::prelude::*;
use crate::details::{checkout_spec, checkout_spec_at, CheckoutSpec, CheckoutSpecView};
use crate::error::{invalid, text_outcome, unit_outcome, Error, ErrorView};
use crate::format::{cat2, cat4, cat8};
use crate::inspecting::{proposal_at, request_merge_proposal};
use crate::json::{no_members, push_member, text_or_null, Json, JsonView};
use crate::lines::no_lines;
use crate::proposals::{flag_set, is_set};
use crate::repository::{is_launchpad_remote, launchpad_remote};
use crate::request::Request;
use crate::response::{OperationResult, ResultView};
use crate::split::{lines, lines_of, push_part, split, split_on};
use crate::steps::{
    done_at, done_reply, fail, or_fail, refuse, remotes_view, result_step, stop, stop_at, text_at,
    text_reply, Action, ActionView, Checkout, CheckoutView, GitOutput, Remote, Reply,
};
use crate::text::{
    borrow_option, copy, copy_option, lossy_text, opt_str_view, opt_view, same, strip_prefix,
    text_from_utf8, text_from_utf8_lossy, trim, trimmed, utf8_fault, views, without_prefix,
};

verus! {

/// Why a command failed: what it wrote to its error output, or to its output, or its status.
pub open spec fn failure_reason(stderr: Seq<char>, stdout: Seq<char>, status: Seq<char>) -> Seq<char> {
    if trimmed(stderr).len() > 0 {
        trimmed(stderr)
    } else if trimmed(stdout).len() > 0 {
        trimmed(stdout)
    } else {
        "exited with status "@ + status
    }
}

/// Why a command failed: what it wrote to its error output, or to its output, or its status.
pub fn explain_failure(stderr: &str, stdout: &str, status: &str) -> (r: String)
    ensures
        r@ == failure_reason(stderr@, stdout@, status@),
{
    let stderr = trim(stderr);
    if !stderr.as_str().is_empty() {
        return stderr;
    }
    let stdout = trim(stdout);
    if !stdout.as_str().is_empty() {
        return stdout;
    }
    cat2("exited with status ", status)
}

/// Whether a command succeeded, and what it failed with otherwise.
pub open spec fn command_checked(output: GitOutput) -> Result<(), ErrorView> {
    if output.success {
        Ok(())
    } else {
        Err(
            ErrorView::CommandFailed {
                program: "git"@,
                reason: failure_reason(
                    lossy_text(output.stderr@),
                    lossy_text(output.stdout@),
                    output.status@,
                ),
            },
        )
    }
}

fn check_command(output: &GitOutput) -> (r: Result<(), Error>)
    ensures
        unit_outcome(r) == command_checked(*output),
{
    if output.success {
        return Ok(());
    }
    let stderr = text_from_utf8_lossy(&output.stderr);
    let stdout = text_from_utf8_lossy(&output.stdout);
    Err(
        Error::CommandFailed {
            program: copy("git"),
            reason: explain_failure(stderr.as_str(), stdout.as_str(), output.status.as_str()),
        },
    )
}

/// The text of what a command wrote, without the blanks around it.
pub open spec fn written_text(bytes: Seq<u8>) -> Result<Seq<char>, ErrorView> {
    if vstd::utf8::valid_utf8(bytes) {
        Ok(trimmed(vstd::utf8::decode_utf8(bytes)))
    } else {
        Err(ErrorView::OutputEncoding { source: utf8_fault(bytes) })
    }
}

fn copy_bytes(bytes: &Vec<u8>) -> (r: Vec<u8>)
    ensures
        r@ == bytes@,
{
    let mut out: Vec<u8> = Vec::new();
    for i in 0..bytes.len()
        invariant
            out@ == bytes@.take(i as int),
    {
        out.push(bytes[i]);
        assert(bytes@.take(i + 1) =~= bytes@.take(i as int).push(bytes@[i as int]));
    }
    assert(bytes@.take(bytes@.len() as int) =~= bytes@);
    out
}

fn read_written(bytes: &Vec<u8>) -> (r: Result<String, Error>)
    ensures
        text_outcome(r) == written_text(bytes@),
{
    match text_from_utf8(copy_bytes(bytes)) {
        Ok(text) => Ok(trim(text.as_str())),
        Err(source) => Err(Error::OutputEncoding { source }),
    }
}

/// What a command left behind, as an answer, where it succeeded.
pub open spec fn output_at(arguments: Seq<Seq<char>>, replies: Seq<Reply>, at: int) -> Result<
    GitOutput,
    ActionView,
> {
    match (0 <= at < replies.len(), replies[at]) {
        (true, Reply::Output(output)) => match command_checked(output) {
            Ok(_) => Ok(output),
            Err(error) => Err(fail(error)),
        },
        _ => Err(stop_at(replies, at, ActionView::Git { arguments })),
    }
}

fn run_git<'reply>(arguments: Vec<String>, replies: &'reply Vec<Reply>, at: usize) -> (r: Result<
    &'reply GitOutput,
    Action,
>)
    ensures
        (r matches Ok(output) ==> output_at(views(arguments@), replies@, at as int) == Ok::<
            GitOutput,
            ActionView,
        >(*output)),
        r matches Err(action) ==> output_at(views(arguments@), replies@, at as int) == Err::<
            GitOutput,
            ActionView,
        >(action@),
{
    if at < replies.len() {
        if let Reply::Output(output) = &replies[at] {
            return match check_command(output) {
                Ok(_) => Ok(output),
                Err(error) => Err(Action::Fail { error }),
            };
        }
    }
    Err(stop(replies, at, Action::Git { arguments }))
}

/// What a command wrote to its output, as an answer.
pub open spec fn stdout_at(arguments: Seq<Seq<char>>, replies: Seq<Reply>, at: int) -> Result<
    Seq<char>,
    ActionView,
> {
    match output_at(arguments, replies, at) {
        Err(stop) => Err(stop),
        Ok(output) => or_fail(written_text(output.stdout@)),
    }
}

fn git_stdout(arguments: Vec<String>, replies: &Vec<Reply>, at: usize) -> (r: Result<String, Action>)
    ensures
        crate::steps::text_step(r) == stdout_at(views(arguments@), replies@, at as int),
{
    let output = run_git(arguments, replies, at)?;
    match read_written(&output.stdout) {
        Ok(text) => Ok(text),
        Err(error) => Err(Action::Fail { error }),
    }
}

/// The arguments that print the branch that is checked out.
pub open spec fn branch_arguments() -> Seq<Seq<char>> {
    Seq::empty().push("rev-parse"@).push("--abbrev-ref"@).push("HEAD"@)
}

/// The arguments that list the remotes.
pub open spec fn remotes_arguments() -> Seq<Seq<char>> {
    Seq::empty().push("remote"@)
}

/// The arguments that print the URL of a remote.
pub open spec fn remote_arguments(name: Seq<char>) -> Seq<Seq<char>> {
    Seq::empty().push("remote"@).push("get-url"@).push(name)
}

/// Whether a branch is none, because no branch is checked out.
pub open spec fn is_detached(branch: Seq<char>) -> bool {
    branch.len() == 0 || branch == "HEAD"@
}

fn detached(branch: &str) -> (r: bool)
    ensures
        r == is_detached(branch@),
{
    branch.is_empty() || same(branch, "HEAD")
}

/// The URLs of remotes with names, one answer for each.
pub open spec fn named_remotes(names: Seq<Seq<char>>, replies: Seq<Reply>, at: int) -> Result<
    Seq<(Seq<char>, Seq<char>)>,
    ActionView,
>
    decreases names.len(),
{
    if names.len() == 0 {
        Ok(Seq::empty())
    } else {
        match named_remotes(names.drop_last(), replies, at) {
            Err(stop) => Err(stop),
            Ok(front) => match stdout_at(
                remote_arguments(names.last()),
                replies,
                at + names.len() - 1,
            ) {
                Err(stop) => Err(stop),
                Ok(url) => Ok(front.push((names.last(), url))),
            },
        }
    }
}

proof fn lemma_remote_stop_stays(names: Seq<Seq<char>>, replies: Seq<Reply>, at: int, count: int)
    requires
        0 <= count <= names.len(),
        named_remotes(names.take(count), replies, at) is Err,
    ensures
        named_remotes(names, replies, at) == named_remotes(names.take(count), replies, at),
    decreases names.len() - count,
{
    if count == names.len() {
        assert(names.take(count) =~= names);
    } else {
        assert(names.take(count + 1).drop_last() =~= names.take(count));
        lemma_remote_stop_stays(names, replies, at, count + 1);
    }
}

fn ask_branch() -> (r: Vec<String>)
    ensures
        views(r@) == branch_arguments(),
{
    let mut arguments = no_lines();
    push_part(&mut arguments, copy("rev-parse"));
    push_part(&mut arguments, copy("--abbrev-ref"));
    push_part(&mut arguments, copy("HEAD"));
    arguments
}

fn ask_remote(name: &str) -> (r: Vec<String>)
    ensures
        views(r@) == remote_arguments(name@),
{
    let mut arguments = no_lines();
    push_part(&mut arguments, copy("remote"));
    push_part(&mut arguments, copy("get-url"));
    push_part(&mut arguments, copy(name));
    arguments
}

fn list_remotes(names: &Vec<String>, replies: &Vec<Reply>, at: usize) -> (r: Result<
    Vec<Remote>,
    Action,
>)
    requires
        at <= replies.len(),
    ensures
        (r matches Ok(remotes) ==> named_remotes(views(names@), replies@, at as int) == Ok::<
            Seq<(Seq<char>, Seq<char>)>,
            ActionView,
        >(remotes_view(remotes@))),
        r matches Err(action) ==> named_remotes(views(names@), replies@, at as int) == Err::<
            Seq<(Seq<char>, Seq<char>)>,
            ActionView,
        >(action@),
{
    let ghost all = views(names@);
    let mut remotes: Vec<Remote> = Vec::new();
    assert(all.take(0) =~= Seq::empty());
    assert(remotes_view(remotes@) =~= Seq::empty());
    let mut next: usize = at;
    for i in 0..names.len()
        invariant
            all == views(names@),
            next == at + i,
            next <= replies.len(),
            named_remotes(all.take(i as int), replies@, at as int) == Ok::<
                Seq<(Seq<char>, Seq<char>)>,
                ActionView,
            >(remotes_view(remotes@)),
    {
        proof {
            assert(all.take(i + 1).drop_last() =~= all.take(i as int));
            assert(all.take(i + 1).last() == names@[i as int]@);
        }
        match git_stdout(ask_remote(names[i].as_str()), replies, next) {
            Err(action) => {
                proof {
                    lemma_remote_stop_stays(all, replies@, at as int, i + 1);
                }
                return Err(action);
            },
            Ok(url) => {
                let ghost front = remotes_view(remotes@);
                let ghost pair = (names@[i as int]@, url@);
                remotes.push(Remote { name: copy(names[i].as_str()), url });
                assert(remotes_view(remotes@) =~= front.push(pair));
                assert(next < replies.len());
                next = next + 1;
            },
        }
    }
    assert(all.take(all.len() as int) =~= all);
    Ok(remotes)
}

/// The first remote that names a repository on Launchpad.
pub open spec fn first_launchpad(remotes: Seq<(Seq<char>, Seq<char>)>) -> Option<
    (Seq<char>, Seq<char>),
>
    decreases remotes.len(),
{
    if remotes.len() == 0 {
        None
    } else if is_launchpad_remote(remotes[0].1) {
        Some(remotes[0])
    } else {
        first_launchpad(remotes.skip(1))
    }
}

/// The first remote with a name that names a repository on Launchpad.
pub open spec fn first_named(remotes: Seq<(Seq<char>, Seq<char>)>, name: Seq<char>) -> Option<
    (Seq<char>, Seq<char>),
>
    decreases remotes.len(),
{
    if remotes.len() == 0 {
        None
    } else if remotes[0].0 == name && is_launchpad_remote(remotes[0].1) {
        Some(remotes[0])
    } else {
        first_named(remotes.skip(1), name)
    }
}

/// The remote that names the repository of a checkout: `origin` where it is on Launchpad, and
/// otherwise the first that is.
pub open spec fn selected_remote(remotes: Seq<(Seq<char>, Seq<char>)>) -> Option<
    (Seq<char>, Seq<char>),
> {
    match first_named(remotes, "origin"@) {
        Some(remote) => Some(remote),
        None => first_launchpad(remotes),
    }
}

/// What an optional remote holds.
pub open spec fn opt_remote_view(remote: Option<Remote>) -> Option<(Seq<char>, Seq<char>)> {
    match remote {
        Some(remote) => Some((remote.name@, remote.url@)),
        None => None,
    }
}

fn find_named(remotes: &Vec<Remote>, name: &str) -> (r: Option<Remote>)
    ensures
        opt_remote_view(r) == first_named(remotes_view(remotes@), name@),
{
    let ghost all = remotes_view(remotes@);
    assert(all.skip(0) =~= all);
    for i in 0..remotes.len()
        invariant
            all == remotes_view(remotes@),
            first_named(all, name@) == first_named(all.skip(i as int), name@),
    {
        assert(all.skip(i as int)[0] == (remotes@[i as int].name@, remotes@[i as int].url@));
        assert(all.skip(i as int).skip(1) =~= all.skip(i + 1));
        if same(remotes[i].name.as_str(), name) && launchpad_remote(remotes[i].url.as_str()) {
            return Some(
                Remote { name: copy(remotes[i].name.as_str()), url: copy(remotes[i].url.as_str()) },
            );
        }
    }
    None
}

fn find_launchpad(remotes: &Vec<Remote>) -> (r: Option<Remote>)
    ensures
        opt_remote_view(r) == first_launchpad(remotes_view(remotes@)),
{
    let ghost all = remotes_view(remotes@);
    assert(all.skip(0) =~= all);
    for i in 0..remotes.len()
        invariant
            all == remotes_view(remotes@),
            first_launchpad(all) == first_launchpad(all.skip(i as int)),
    {
        assert(all.skip(i as int)[0] == (remotes@[i as int].name@, remotes@[i as int].url@));
        assert(all.skip(i as int).skip(1) =~= all.skip(i + 1));
        if launchpad_remote(remotes[i].url.as_str()) {
            return Some(
                Remote { name: copy(remotes[i].name.as_str()), url: copy(remotes[i].url.as_str()) },
            );
        }
    }
    None
}

/// The remote that names the repository of a checkout: `origin` where it is on Launchpad, and
/// otherwise the first that is.
pub fn select_remote(remotes: &Vec<Remote>) -> (r: Option<Remote>)
    ensures
        opt_remote_view(r) == selected_remote(remotes_view(remotes@)),
{
    match find_named(remotes, "origin") {
        Some(remote) => Some(remote),
        None => find_launchpad(remotes),
    }
}

/// The checkout in a directory, from the answer at an index on: its branch, its remotes, and the
/// one of them that names its repository.
pub open spec fn checkout_from(working_directory: Seq<char>, replies: Seq<Reply>, at: int) -> Result<
    CheckoutView,
    ActionView,
> {
    match stdout_at(branch_arguments(), replies, at) {
        Err(stop) => Err(stop),
        Ok(branch) => if is_detached(branch) {
            Err(
                fail(
                    invalid(
                        "cannot infer a merge proposal from a detached HEAD; provide repository and branch"@,
                    ),
                ),
            )
        } else {
            match stdout_at(remotes_arguments(), replies, at + 1) {
                Err(stop) => Err(stop),
                Ok(names) => match named_remotes(lines_of(names), replies, at + 2) {
                    Err(stop) => Err(stop),
                    Ok(remotes) => match selected_remote(remotes) {
                        Some(selected) => Ok(
                            CheckoutView { working_directory, branch, selected, remotes },
                        ),
                        None => Err(
                            fail(
                                invalid(
                                    "cannot infer a Launchpad repository because no Git remote points to Launchpad"@,
                                ),
                            ),
                        ),
                    },
                },
            }
        },
    }
}

/// The checkout in the working directory: its branch, its remotes, and the one of them that
/// names its repository.
pub open spec fn current_checkout(working_directory: Seq<char>, replies: Seq<Reply>) -> Result<
    CheckoutView,
    ActionView,
> {
    checkout_from(working_directory, replies, 0)
}

/// What a step to a checkout holds.
pub open spec fn owned_checkout_step(r: Result<Checkout, Action>) -> Result<CheckoutView, ActionView> {
    match r {
        Ok(checkout) => Ok(checkout@),
        Err(action) => Err(action@),
    }
}

/// The checkout in a directory, from the answer at an index on: its branch, its remotes, and the
/// one of them that names its repository.
pub fn inspect_checkout(working_directory: &str, replies: &Vec<Reply>, at: usize) -> (r: Result<
    Checkout,
    Action,
>)
    ensures
        owned_checkout_step(r) == checkout_from(working_directory@, replies@, at as int),
{
    let branch = git_stdout(ask_branch(), replies, at)?;
    assert(at < replies.len());
    if detached(branch.as_str()) {
        return Err(
            refuse(
                "cannot infer a merge proposal from a detached HEAD; provide repository and branch",
            ),
        );
    }
    let mut arguments = no_lines();
    push_part(&mut arguments, copy("remote"));
    let names = git_stdout(arguments, replies, at + 1)?;
    assert(at + 1 < replies.len());
    let remotes = list_remotes(&lines(names.as_str()), replies, at + 2)?;
    match select_remote(&remotes) {
        Some(selected) => Ok(
            Checkout { working_directory: copy(working_directory), branch, selected, remotes },
        ),
        None => Err(
            refuse(
                "cannot infer a Launchpad repository because no Git remote points to Launchpad",
            ),
        ),
    }
}

/// The checkout in the working directory: its branch, its remotes, and the one of them that
/// names its repository.
pub fn current_repository(working_directory: &str, replies: &Vec<Reply>) -> (r: Result<
    Checkout,
    Action,
>)
    ensures
        owned_checkout_step(r) == current_checkout(working_directory@, replies@),
{
    inspect_checkout(working_directory, replies, 0)
}

/// The repository and branch of the checkout in the working directory.
pub open spec fn current_branch(working_directory: Seq<char>, replies: Seq<Reply>) -> Result<
    (Seq<char>, Seq<char>),
    ActionView,
> {
    match current_checkout(working_directory, replies) {
        Err(stop) => Err(stop),
        Ok(checkout) => Ok((checkout.selected.1, checkout.branch)),
    }
}

/// The URL of the repository and the branch of the checkout in the working directory.
pub fn current_repository_branch(working_directory: &str, replies: &Vec<Reply>) -> (r: Result<
    (String, String),
    Action,
>)
    ensures
        (r matches Ok(found) ==> current_branch(working_directory@, replies@) == Ok::<
            (Seq<char>, Seq<char>),
            ActionView,
        >((found.0@, found.1@))),
        r matches Err(action) ==> current_branch(working_directory@, replies@) == Err::<
            (Seq<char>, Seq<char>),
            ActionView,
        >(action@),
{
    let checkout = current_repository(working_directory, replies)?;
    Ok((checkout.selected.url, checkout.branch))
}

/// The arguments that print the branch that is checked out in a directory.
pub open spec fn directory_branch_arguments(directory: Seq<char>) -> Seq<Seq<char>> {
    Seq::empty().push("-C"@).push(directory).push("rev-parse"@).push("--abbrev-ref"@).push("HEAD"@)
}

/// The arguments that push the branch that is checked out in a directory.
pub open spec fn push_arguments(directory: Seq<char>, force: bool) -> Seq<Seq<char>> {
    let arguments = Seq::empty().push("-C"@).push(directory).push("push"@);
    let arguments = if force {
        arguments.push("--force-with-lease"@)
    } else {
        arguments
    };
    arguments.push("origin"@).push("HEAD"@)
}

/// The report of a push.
pub open spec fn push_result(
    request: Request,
    branch: Seq<char>,
    directory: Seq<char>,
    written: Seq<char>,
) -> ResultView {
    let heading = "# Pushed Launchpad merge proposal branch\n\n- **Branch:** "@ + branch
        + "\n- **Path:** "@ + directory;
    ResultView {
        text: if written.len() == 0 {
            heading
        } else {
            heading + ("\n\n"@ + written)
        },
        source_url: None,
        details: Seq::empty().push(("kind"@, JsonView::Text("push"@))).push(
            ("branch"@, JsonView::Text(branch)),
        ).push(("directory"@, JsonView::Text(directory))).push(
            ("forceWithLease"@, JsonView::Bool(is_set(request.force_with_lease))),
        ),
    }
}

/// Pushes the branch that is checked out in the directory of a request.
pub open spec fn push_view(request: Request, replies: Seq<Reply>) -> Result<ResultView, ActionView> {
    match text_at(replies, 0, ActionView::Directory { path: opt_view(request.directory) }) {
        Err(stop) => Err(stop),
        Ok(directory) => match stdout_at(directory_branch_arguments(directory), replies, 1) {
            Err(stop) => Err(stop),
            Ok(branch) => if is_detached(branch) {
                Err(fail(invalid("cannot push a detached HEAD"@)))
            } else {
                match output_at(
                    push_arguments(directory, is_set(request.force_with_lease)),
                    replies,
                    2,
                ) {
                    Err(stop) => Err(stop),
                    Ok(output) => match or_fail(written_text(output.stderr@)) {
                        Err(stop) => Err(stop),
                        Ok(written) => Ok(push_result(request, branch, directory, written)),
                    },
                }
            },
        },
    }
}

fn report_push(request: &Request, branch: &str, directory: &str, written: &str) -> (r:
    OperationResult)
    ensures
        r@ == push_result(*request, branch@, directory@, written@),
{
    let heading = cat4(
        "# Pushed Launchpad merge proposal branch\n\n- **Branch:** ",
        branch,
        "\n- **Path:** ",
        directory,
    );
    let text = if written.is_empty() {
        heading
    } else {
        cat2(heading.as_str(), cat2("\n\n", written).as_str())
    };
    let mut details = no_members();
    push_member(&mut details, "kind", Json::of_text("push"));
    push_member(&mut details, "branch", Json::of_text(branch));
    push_member(&mut details, "directory", Json::of_text(directory));
    push_member(&mut details, "forceWithLease", Json::Bool(flag_set(request.force_with_lease)));
    OperationResult { text, source_url: None, details }
}

/// Pushes the branch that is checked out in the directory of a request.
pub fn push(request: &Request, replies: &Vec<Reply>) -> (r: Result<OperationResult, Action>)
    ensures
        result_step(r) == push_view(*request, replies@),
{
    let directory = text_reply(
        replies,
        0,
        Action::Directory { path: copy_option(&request.directory) },
    )?;
    let mut arguments = no_lines();
    push_part(&mut arguments, copy("-C"));
    push_part(&mut arguments, copy(directory));
    push_part(&mut arguments, copy("rev-parse"));
    push_part(&mut arguments, copy("--abbrev-ref"));
    push_part(&mut arguments, copy("HEAD"));
    let branch = git_stdout(arguments, replies, 1)?;
    if detached(branch.as_str()) {
        return Err(refuse("cannot push a detached HEAD"));
    }
    let mut arguments = no_lines();
    push_part(&mut arguments, copy("-C"));
    push_part(&mut arguments, copy(directory));
    push_part(&mut arguments, copy("push"));
    if flag_set(request.force_with_lease) {
        push_part(&mut arguments, copy("--force-with-lease"));
    }
    push_part(&mut arguments, copy("origin"));
    push_part(&mut arguments, copy("HEAD"));
    let output = run_git(arguments, replies, 2)?;
    let written = match read_written(&output.stderr) {
        Ok(written) => written,
        Err(error) => return Err(Action::Fail { error }),
    };
    Ok(report_push(request, branch.as_str(), directory, written.as_str()))
}

/// The branch of a ref.
pub open spec fn branch_name(source_ref: Seq<char>) -> Seq<char> {
    crate::fields::value_or(without_prefix(source_ref, "refs/heads/"@), source_ref)
}

fn name_branch(source_ref: &str) -> (r: String)
    ensures
        r@ == branch_name(source_ref@),
{
    match strip_prefix(source_ref, "refs/heads/") {
        Some(branch) => branch,
        None => copy(source_ref),
    }
}

/// The last segment of a path that names a file or directory.
pub open spec fn last_name(segments: Seq<Seq<char>>) -> Option<Seq<char>>
    decreases segments.len(),
{
    if segments.len() == 0 {
        None
    } else if segments.last().len() == 0 || segments.last() == "."@ {
        last_name(segments.drop_last())
    } else if segments.last() == ".."@ {
        None
    } else {
        Some(segments.last())
    }
}

/// The name of the place where a merge proposal is checked out.
pub open spec fn worktree_name(id: Seq<char>, repository: Seq<char>) -> Seq<char> {
    "lp-"@ + id + "-"@ + crate::fields::value_or(last_name(split_on(repository, '/')), "repository"@)
}

fn find_last_name(segments: &Vec<String>) -> (r: Option<String>)
    ensures
        opt_view(r) == last_name(views(segments@)),
{
    let ghost all = views(segments@);
    let mut end: usize = segments.len();
    assert(all.take(all.len() as int) =~= all);
    while end > 0
        invariant
            end <= segments@.len(),
            all == views(segments@),
            last_name(all) == last_name(all.take(end as int)),
        decreases end,
    {
        assert(all.take(end as int).last() == segments@[end - 1]@);
        assert(all.take(end as int).drop_last() =~= all.take(end - 1));
        let segment = segments[end - 1].as_str();
        if segment.is_empty() || same(segment, ".") {
            end = end - 1;
        } else if same(segment, "..") {
            return None;
        } else {
            return Some(copy(segment));
        }
    }
    None
}

/// The name of the place where a merge proposal is checked out.
pub fn name_worktree(id: &str, repository: &str) -> (r: String)
    ensures
        r@ == worktree_name(id@, repository@),
{
    let name = match find_last_name(&split(repository, '/')) {
        Some(name) => name,
        None => copy("repository"),
    };
    cat4("lp-", id, "-", name.as_str())
}

/// The action of finding the directory of a checkout: the one of the request, or else a place
/// named after the proposal.
pub open spec fn destination_action(spec: CheckoutSpecView, request: Request) -> ActionView {
    match opt_view(request.directory) {
        Some(path) => ActionView::Directory { path: Some(path) },
        None => ActionView::Worktree { name: worktree_name(spec.id, spec.source_repository) },
    }
}

fn ask_destination(spec: &CheckoutSpec, request: &Request) -> (r: Action)
    ensures
        r@ == destination_action(spec@, *request),
{
    match &request.directory {
        Some(path) => Action::Directory { path: Some(copy(path.as_str())) },
        None => Action::Worktree {
            name: name_worktree(spec.id.as_str(), spec.source_repository.as_str()),
        },
    }
}

/// Whether a directory is there, as an answer.
pub open spec fn exists_at(directory: Seq<char>, replies: Seq<Reply>, at: int) -> Result<
    bool,
    ActionView,
> {
    match (0 <= at < replies.len(), replies[at]) {
        (true, Reply::Exists(exists)) => Ok(exists),
        _ => Err(stop_at(replies, at, ActionView::Exists { directory })),
    }
}

fn exists_reply(directory: &str, replies: &Vec<Reply>, at: usize) -> (r: Result<bool, Action>)
    ensures
        (r matches Ok(exists) ==> exists_at(directory@, replies@, at as int) == Ok::<
            bool,
            ActionView,
        >(exists)),
        r matches Err(action) ==> exists_at(directory@, replies@, at as int) == Err::<
            bool,
            ActionView,
        >(action@),
{
    if at < replies.len() {
        if let Reply::Exists(exists) = &replies[at] {
            return Ok(*exists);
        }
    }
    Err(stop(replies, at, Action::Exists { directory: copy(directory) }))
}

/// The arguments that clone one branch of a repository.
pub open spec fn clone_arguments(url: Seq<char>, branch: Seq<char>, destination: Seq<char>) -> Seq<
    Seq<char>,
> {
    Seq::empty().push("clone"@).push("--branch"@).push(branch).push("--single-branch"@).push(
        url,
    ).push(destination)
}

fn ask_clone(url: &str, branch: &str, destination: &str) -> (r: Vec<String>)
    ensures
        views(r@) == clone_arguments(url@, branch@, destination@),
{
    let mut arguments = no_lines();
    push_part(&mut arguments, copy("clone"));
    push_part(&mut arguments, copy("--branch"));
    push_part(&mut arguments, copy(branch));
    push_part(&mut arguments, copy("--single-branch"));
    push_part(&mut arguments, copy(url));
    push_part(&mut arguments, copy(destination));
    arguments
}

/// The first of two URLs that is there.
pub open spec fn preferred_url(https: Option<Seq<char>>, ssh: Option<Seq<char>>) -> Option<Seq<char>> {
    crate::fields::either(https, ssh)
}

fn prefer_url<'value>(https: &'value Option<String>, ssh: &'value Option<String>) -> (r: Option<
    &'value str,
>)
    ensures
        opt_str_view(r) == preferred_url(opt_view(*https), opt_view(*ssh)),
{
    match https {
        Some(url) => Some(url.as_str()),
        None => borrow_option(ssh),
    }
}

/// Whether a step stops with an error that a command, or running it, failed with.
pub open spec fn clone_failed(replies: Seq<Reply>, at: int) -> bool {
    0 <= at < replies.len() && match replies[at] {
        Reply::Output(output) => !output.success,
        Reply::Fault(_) => true,
        _ => false,
    }
}

fn has_failed(replies: &Vec<Reply>, at: usize) -> (r: bool)
    ensures
        r == clone_failed(replies@, at as int),
{
    if at >= replies.len() {
        return false;
    }
    match &replies[at] {
        Reply::Output(output) => !output.success,
        Reply::Fault(_) => true,
        _ => false,
    }
}

/// A second attempt at cloning, over SSH, once what the first one left behind is removed: the
/// URL that was cloned, and where the next answer stands.
pub open spec fn cloned_again(
    ssh: Seq<char>,
    branch: Seq<char>,
    destination: Seq<char>,
    replies: Seq<Reply>,
    at: int,
) -> Result<(Seq<char>, int), ActionView> {
    match exists_at(destination, replies, at) {
        Err(stop) => Err(stop),
        Ok(exists) => {
            let next = if exists {
                at + 2
            } else {
                at + 1
            };
            let removed = if exists {
                done_at(replies, at + 1, ActionView::Remove { directory: destination })
            } else {
                Ok(())
            };
            match removed {
                Err(stop) => Err(stop),
                Ok(_) => match output_at(
                    clone_arguments(ssh, branch, destination),
                    replies,
                    next,
                ) {
                    Err(stop) => Err(stop),
                    Ok(_) => Ok((ssh, next + 1)),
                },
            }
        },
    }
}

/// The clone of a repository, over SSH where the preferred URL fails: the URL that was cloned,
/// and where the next answer stands.
pub open spec fn cloned(
    url: Seq<char>,
    ssh: Option<Seq<char>>,
    branch: Seq<char>,
    destination: Seq<char>,
    replies: Seq<Reply>,
    at: int,
) -> Result<(Seq<char>, int), ActionView> {
    if clone_failed(replies, at) && ssh is Some && ssh != Some(url) {
        cloned_again(ssh->0, branch, destination, replies, at + 1)
    } else {
        match output_at(clone_arguments(url, branch, destination), replies, at) {
            Err(stop) => Err(stop),
            Ok(_) => Ok((url, at + 1)),
        }
    }
}

fn clone_again(
    ssh: &str,
    branch: &str,
    destination: &str,
    replies: &Vec<Reply>,
    at: usize,
) -> (r: Result<usize, Action>)
    ensures
        (r matches Ok(next) ==> cloned_again(ssh@, branch@, destination@, replies@, at as int)
            == Ok::<(Seq<char>, int), ActionView>((ssh@, next as int))),
        r matches Err(action) ==> cloned_again(ssh@, branch@, destination@, replies@, at as int)
            == Err::<(Seq<char>, int), ActionView>(action@),
{
    let exists = exists_reply(destination, replies, at)?;
    assert(at < replies.len());
    let mut next: usize = at + 1;
    if exists {
        done_reply(replies, next, Action::Remove { directory: copy(destination) })?;
        assert(next < replies.len());
        next = next + 1;
    }
    run_git(ask_clone(ssh, branch, destination), replies, next)?;
    assert(next < replies.len());
    Ok(next + 1)
}

fn clone_repository<'value>(
    url: &'value str,
    ssh: &'value Option<String>,
    branch: &str,
    destination: &str,
    replies: &Vec<Reply>,
    at: usize,
) -> (r: Result<(&'value str, usize), Action>)
    ensures
        (r matches Ok(done) ==> cloned(
            url@,
            opt_view(*ssh),
            branch@,
            destination@,
            replies@,
            at as int,
        ) == Ok::<(Seq<char>, int), ActionView>((done.0@, done.1 as int))),
        r matches Err(action) ==> cloned(
            url@,
            opt_view(*ssh),
            branch@,
            destination@,
            replies@,
            at as int,
        ) == Err::<(Seq<char>, int), ActionView>(action@),
{
    if has_failed(replies, at) {
        assert(at < replies.len());
        if let Some(ssh) = ssh {
            if !same(ssh.as_str(), url) {
                let next = clone_again(ssh.as_str(), branch, destination, replies, at + 1)?;
                return Ok((ssh.as_str(), next));
            }
        }
    }
    run_git(ask_clone(url, branch, destination), replies, at)?;
    assert(at < replies.len());
    Ok((url, at + 1))
}

/// The URL that becomes the remote `upstream`: that of the target, where it is another one.
pub open spec fn upstream_url(spec: CheckoutSpecView, source_url: Seq<char>) -> Option<Seq<char>> {
    match preferred_url(spec.target_https_url, spec.target_ssh_url) {
        Some(url) => if url == source_url {
            None
        } else {
            Some(url)
        },
        None => None,
    }
}

/// The arguments that add the remote `upstream`.
pub open spec fn upstream_arguments(destination: Seq<char>, url: Seq<char>) -> Seq<Seq<char>> {
    Seq::empty().push("-C"@).push(destination).push("remote"@).push("add"@).push("upstream"@).push(
        url,
    )
}

/// The report of a checkout.
pub open spec fn checkout_result(
    spec: CheckoutSpecView,
    destination: Seq<char>,
    source_url: Seq<char>,
) -> ResultView {
    let branch = branch_name(spec.source_ref);
    let upstream = upstream_url(spec, source_url);
    let heading = "# Checked out Launchpad merge proposal "@ + spec.id + "\n\n- **Branch:** "@
        + branch + "\n- **Path:** "@ + destination + "\n- **Origin:** "@ + source_url;
    ResultView {
        text: match upstream {
            Some(url) => heading + ("\n- **Upstream:** "@ + url),
            None => heading,
        },
        source_url: spec.web_link,
        details: Seq::empty().push(("kind"@, JsonView::Text("checkout"@))).push(
            ("proposalId"@, JsonView::Text(spec.id)),
        ).push(("branch"@, JsonView::Text(branch))).push(
            ("directory"@, JsonView::Text(destination)),
        ).push(("origin"@, JsonView::Text(source_url))).push(("upstream"@, text_or_null(upstream))),
    }
}

/// Checks a merge proposal out into a directory that is not there yet.
pub open spec fn checked_out(
    spec: CheckoutSpecView,
    destination: Seq<char>,
    replies: Seq<Reply>,
    at: int,
) -> Result<ResultView, ActionView> {
    match preferred_url(spec.source_https_url, spec.source_ssh_url) {
        None => Err(fail(invalid("Launchpad did not return a source repository URL"@))),
        Some(url) => match cloned(
            url,
            spec.source_ssh_url,
            branch_name(spec.source_ref),
            destination,
            replies,
            at,
        ) {
            Err(stop) => Err(stop),
            Ok((source_url, next)) => match upstream_url(spec, source_url) {
                None => Ok(checkout_result(spec, destination, source_url)),
                Some(upstream) => match output_at(
                    upstream_arguments(destination, upstream),
                    replies,
                    next,
                ) {
                    Err(stop) => Err(stop),
                    Ok(_) => Ok(checkout_result(spec, destination, source_url)),
                },
            },
        },
    }
}

/// Checks a merge proposal out into the directory of a request, or a place of its own.
pub open spec fn checkout_view(
    spec: CheckoutSpecView,
    request: Request,
    replies: Seq<Reply>,
    at: int,
) -> Result<ResultView, ActionView> {
    match text_at(replies, at, destination_action(spec, request)) {
        Err(stop) => Err(stop),
        Ok(destination) => match exists_at(destination, replies, at + 1) {
            Err(stop) => Err(stop),
            Ok(exists) => if exists {
                Err(fail(invalid("checkout destination already exists: "@ + destination)))
            } else {
                checked_out(spec, destination, replies, at + 2)
            },
        },
    }
}

fn find_upstream<'value>(spec: &'value CheckoutSpec, source_url: &str) -> (r: Option<&'value str>)
    ensures
        opt_str_view(r) == upstream_url(spec@, source_url@),
{
    match prefer_url(&spec.target_https_url, &spec.target_ssh_url) {
        Some(url) => if same(url, source_url) {
            None
        } else {
            Some(url)
        },
        None => None,
    }
}

fn report_checkout(spec: &CheckoutSpec, destination: &str, source_url: &str) -> (r: OperationResult)
    ensures
        r@ == checkout_result(spec@, destination@, source_url@),
{
    let branch = name_branch(spec.source_ref.as_str());
    let upstream = find_upstream(spec, source_url);
    let heading = cat8(
        "# Checked out Launchpad merge proposal ",
        spec.id.as_str(),
        "\n\n- **Branch:** ",
        branch.as_str(),
        "\n- **Path:** ",
        destination,
        "\n- **Origin:** ",
        source_url,
    );
    let text = match upstream {
        Some(url) => cat2(heading.as_str(), cat2("\n- **Upstream:** ", url).as_str()),
        None => heading,
    };
    let mut details = no_members();
    push_member(&mut details, "kind", Json::of_text("checkout"));
    push_member(&mut details, "proposalId", Json::of_text(spec.id.as_str()));
    push_member(&mut details, "branch", Json::Text(branch));
    push_member(&mut details, "directory", Json::of_text(destination));
    push_member(&mut details, "origin", Json::of_text(source_url));
    push_member(&mut details, "upstream", Json::of_option(upstream));
    OperationResult { text, source_url: copy_option(&spec.web_link), details }
}

/// Checks a merge proposal out: clones its source branch, over SSH where the preferred URL
/// fails, and adds the target repository as the remote `upstream` where it is another one.
pub fn checkout(spec: &CheckoutSpec, request: &Request, replies: &Vec<Reply>, at: usize) -> (r:
    Result<OperationResult, Action>)
    ensures
        result_step(r) == checkout_view(spec@, *request, replies@, at as int),
{
    let destination = text_reply(replies, at, ask_destination(spec, request))?;
    assert(at < replies.len());
    let exists = exists_reply(destination, replies, at + 1)?;
    assert(at + 1 < replies.len());
    if exists {
        return Err(refuse(cat2("checkout destination already exists: ", destination).as_str()));
    }
    let url = match prefer_url(&spec.source_https_url, &spec.source_ssh_url) {
        Some(url) => url,
        None => return Err(refuse("Launchpad did not return a source repository URL")),
    };
    let branch = name_branch(spec.source_ref.as_str());
    let (source_url, next) = clone_repository(
        url,
        &spec.source_ssh_url,
        branch.as_str(),
        destination,
        replies,
        at + 2,
    )?;
    if let Some(upstream) = find_upstream(spec, source_url) {
        let mut arguments = no_lines();
        push_part(&mut arguments, copy("-C"));
        push_part(&mut arguments, copy(destination));
        push_part(&mut arguments, copy("remote"));
        push_part(&mut arguments, copy("add"));
        push_part(&mut arguments, copy("upstream"));
        push_part(&mut arguments, copy(upstream));
        run_git(arguments, replies, next)?;
    }
    Ok(report_checkout(spec, destination, source_url))
}

/// Checks the merge proposal of a request out.
pub open spec fn checkout_proposal_view(request: Request, replies: Seq<Reply>) -> Result<
    ResultView,
    ActionView,
> {
    match proposal_at(request, replies, 0) {
        Err(stop) => Err(stop),
        Ok(proposal) => match checkout_spec_at(proposal, replies, 1) {
            Err(stop) => Err(stop),
            Ok(spec) => checkout_view(spec, request, replies, 3),
        },
    }
}

/// Checks the merge proposal of a request out.
pub fn checkout_merge_proposal(request: &Request, replies: &Vec<Reply>) -> (r: Result<
    OperationResult,
    Action,
>)
    ensures
        result_step(r) == checkout_proposal_view(*request, replies@),
{
    let proposal = request_merge_proposal(request, replies, 0)?;
    let spec = checkout_spec(proposal, replies, 1)?;
    checkout(&spec, request, replies, 3)
}

/// Nothing is cloned into, or removed from, a directory that was there before.
pub proof fn lemma_existing_destination_kept(
    spec: CheckoutSpecView,
    request: Request,
    replies: Seq<Reply>,
    at: int,
)
    requires
        0 <= at,
        at + 1 < replies.len(),
        replies[at] is Text,
        replies[at + 1] == Reply::Exists(true),
    ensures
        checkout_view(spec, request, replies, at) == Err::<ResultView, ActionView>(
            fail(invalid("checkout destination already exists: "@ + replies[at]->Text_0@)),
        ),
{
}

/// Nothing is removed but what a clone that failed left behind, in a directory that was not there
/// before.
pub proof fn lemma_only_failed_clone_removed(
    spec: CheckoutSpecView,
    request: Request,
    replies: Seq<Reply>,
    at: int,
)
    requires
        0 <= at,
    ensures
        checkout_view(spec, request, replies, at) matches Err(ActionView::Remove { directory }) ==> {
            &&& replies[at] matches Reply::Text(destination) && destination@ == directory
            &&& replies[at + 1] == Reply::Exists(false)
            &&& clone_failed(replies, at + 2)
        },
{
}

/// A checkout that is finished names its target repository as `upstream` exactly where that
/// is another repository than the one that was cloned.
pub proof fn lemma_upstream_differs(
    spec: CheckoutSpecView,
    destination: Seq<char>,
    replies: Seq<Reply>,
    at: int,
)
    requires
        checked_out(spec, destination, replies, at) is Ok,
    ensures
        ({
            let source_url = cloned(
                preferred_url(spec.source_https_url, spec.source_ssh_url)->0,
                spec.source_ssh_url,
                branch_name(spec.source_ref),
                destination,
                replies,
                at,
            )->Ok_0.0;
            let target = preferred_url(spec.target_https_url, spec.target_ssh_url);
            &&& checked_out(spec, destination, replies, at)->Ok_0 == checkout_result(
                spec,
                destination,
                source_url,
            )
            &&& Some(source_url) == spec.source_https_url || Some(source_url) == spec.source_ssh_url
            &&& upstream_url(spec, source_url) == (if target == Some(source_url) {
                None
            } else {
                target
            })
        }),
{
}

/// A push goes to `origin`. Among the options after the directory, forcing with a lease is
/// there exactly where the request asks for it, and forcing without one never is.
pub proof fn lemma_force_is_requested(directory: Seq<char>, request: Request)
    ensures
        ({
            let options = push_arguments(directory, is_set(request.force_with_lease)).skip(2);
            &&& options[options.len() - 2] == "origin"@
            &&& options.contains("--force-with-lease"@) <==> request.force_with_lease == Some(true)
            &&& !options.contains("--force"@)
        }),
{
    reveal_strlit("push");
    reveal_strlit("--force-with-lease");
    reveal_strlit("--force");
    reveal_strlit("origin");
    reveal_strlit("HEAD");
    let options = push_arguments(directory, is_set(request.force_with_lease)).skip(2);
    assert(options[0] == "push"@);
    assert("push"@.len() == 4 && "HEAD"@.len() == 4 && "origin"@.len() == 6);
    assert("--force-with-lease"@.len() == 18 && "--force"@.len() == 7);
    if request.force_with_lease == Some(true) {
        assert(options[1] == "--force-with-lease"@);
    }
}

/// Whether some remote of a name is on Launchpad.
pub open spec fn has_launchpad(remotes: Seq<(Seq<char>, Seq<char>)>, name: Seq<char>) -> bool {
    exists|i: int|
        0 <= i < remotes.len() && (#[trigger] remotes[i]).0 == name && is_launchpad_remote(
            remotes[i].1,
        )
}

/// The remote that names the repository of a checkout is on Launchpad. It is the first `origin`
/// that is, where one is, and otherwise the first remote that is. There is none only where no
/// remote is on Launchpad.
pub proof fn lemma_origin_preferred(remotes: Seq<(Seq<char>, Seq<char>)>)
    ensures
        match selected_remote(remotes) {
            Some(selected) => exists|k: int|
                {
                    &&& 0 <= k < remotes.len()
                    &&& #[trigger] remotes[k] == selected
                    &&& is_launchpad_remote(selected.1)
                    &&& has_launchpad(remotes, "origin"@) ==> selected.0 == "origin"@ && forall|
                        i: int,
                    |
                        0 <= i < k ==> (#[trigger] remotes[i]).0 != "origin"@
                            || !is_launchpad_remote(remotes[i].1)
                    &&& !has_launchpad(remotes, "origin"@) ==> forall|i: int|
                        0 <= i < k ==> !is_launchpad_remote((#[trigger] remotes[i]).1)
                },
            None => forall|i: int|
                0 <= i < remotes.len() ==> !is_launchpad_remote((#[trigger] remotes[i]).1),
        },
{
    let named = lemma_first_named(remotes, "origin"@);
    let any = lemma_first_launchpad(remotes);
    if first_named(remotes, "origin"@) is Some {
        assert(has_launchpad(remotes, "origin"@));
        assert(remotes[named] == selected_remote(remotes)->0);
    } else if first_launchpad(remotes) is Some {
        assert(!has_launchpad(remotes, "origin"@));
        assert(remotes[any] == selected_remote(remotes)->0);
    }
}

proof fn lemma_first_named(remotes: Seq<(Seq<char>, Seq<char>)>, name: Seq<char>) -> (at: int)
    ensures
        0 <= at <= remotes.len(),
        forall|i: int|
            0 <= i < at ==> (#[trigger] remotes[i]).0 != name || !is_launchpad_remote(remotes[i].1),
        match first_named(remotes, name) {
            Some(found) => at < remotes.len() && remotes[at] == found && found.0 == name
                && is_launchpad_remote(found.1),
            None => at == remotes.len(),
        },
    decreases remotes.len(),
{
    if remotes.len() == 0 {
        0
    } else if remotes[0].0 == name && is_launchpad_remote(remotes[0].1) {
        0
    } else {
        let rest = remotes.skip(1);
        let at = lemma_first_named(rest, name);
        assert forall|i: int| 0 <= i < at + 1 implies (#[trigger] remotes[i]).0 != name
            || !is_launchpad_remote(remotes[i].1) by {
            if i > 0 {
                assert(remotes[i] == rest[i - 1]);
            }
        }
        at + 1
    }
}

proof fn lemma_first_launchpad(remotes: Seq<(Seq<char>, Seq<char>)>) -> (at: int)
    ensures
        0 <= at <= remotes.len(),
        forall|i: int| 0 <= i < at ==> !is_launchpad_remote((#[trigger] remotes[i]).1),
        match first_launchpad(remotes) {
            Some(found) => at < remotes.len() && remotes[at] == found && is_launchpad_remote(
                found.1,
            ),
            None => at == remotes.len(),
        },
    decreases remotes.len(),
{
    if remotes.len() == 0 {
        0
    } else if is_launchpad_remote(remotes[0].1) {
        0
    } else {
        let rest = remotes.skip(1);
        let at = lemma_first_launchpad(rest);
        assert forall|i: int| 0 <= i < at + 1 implies !is_launchpad_remote(
            (#[trigger] remotes[i]).1,
        ) by {
            if i > 0 {
                assert(remotes[i] == rest[i - 1]);
            }
        }
        at + 1
    }
}

} // verus!
