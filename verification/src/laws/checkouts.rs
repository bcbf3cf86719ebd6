//! What is cloned and pushed: which branch, from where, to where.
use vstd::prelude::*;
use crate::details::CheckoutSpecView;
use crate::json::JsonView;
use crate::launchpad::executed;
use crate::laws::sending::{option_of, text_of};
use crate::laws::terms::lemma_member_at;
use crate::local_git::{branch_name, checkout_view, written_text};
use crate::request::{Operation, Request};
use crate::steps::{ActionView, Reply};
use crate::text::trimmed;

verus! {

/// Whether a branch is the one that a ref names: `refs/heads/` in front of the whole branch, or
/// the branch as it is where the ref does not begin so.
pub open spec fn is_branch_of(branch: Seq<char>, source_ref: Seq<char>) -> bool {
    if "refs/heads/"@.is_prefix_of(source_ref) {
        source_ref == "refs/heads/"@ + branch
    } else {
        source_ref == branch
    }
}

/// The command that clones one branch of a repository into a directory.
pub open spec fn is_clone(
    arguments: Seq<Seq<char>>,
    branch: Seq<char>,
    url: Seq<char>,
    directory: Seq<char>,
) -> bool {
    &&& arguments.len() == 6
    &&& arguments[0] == "clone"@
    &&& arguments[1] == "--branch"@ && arguments[2] == branch
    &&& arguments[3] == "--single-branch"@
    &&& arguments[4] == url
    &&& arguments[5] == directory
}

/// The command that adds the remote `upstream` in a directory.
pub open spec fn is_upstream(
    arguments: Seq<Seq<char>>,
    directory: Seq<char>,
    url: Seq<char>,
) -> bool {
    &&& arguments.len() == 6
    &&& arguments[0] == "-C"@ && arguments[1] == directory
    &&& arguments[2] == "remote"@ && arguments[3] == "add"@ && arguments[4] == "upstream"@
    &&& arguments[5] == url
}

proof fn lemma_branch_of(source_ref: Seq<char>)
    ensures
        is_branch_of(branch_name(source_ref), source_ref),
{
    reveal_strlit("refs/heads/");
    if "refs/heads/"@.is_prefix_of(source_ref) {
        let branch = branch_name(source_ref);
        assert(source_ref.skip(11) == branch);
        assert("refs/heads/"@ =~= source_ref.take(11));
        assert(source_ref =~= "refs/heads/"@ + branch);
    }
}

/// The branch of a ref is all of it behind `refs/heads/`, slashes included, and a ref that does
/// not begin so is a branch as it is.
pub proof fn lemma_branch_is_whole(branch: Seq<char>)
    ensures
        branch_name("refs/heads/"@ + branch) == branch,
        !"refs/heads/"@.is_prefix_of(branch) ==> branch_name(branch) == branch,
{
    reveal_strlit("refs/heads/");
    let full = "refs/heads/"@ + branch;
    assert("refs/heads/"@.is_prefix_of(full));
    assert(full.skip(11) =~= branch);
}

/// The first URL that is there, HTTPS before SSH.
pub open spec fn first_url(https: Option<Seq<char>>, ssh: Option<Seq<char>>) -> Option<Seq<char>> {
    if https is Some {
        https
    } else {
        ssh
    }
}

/// Every command of a checkout either clones the whole source branch into the directory that was
/// found not to be there, first from the first URL of the source and then, where that failed, over
/// SSH, or adds the target as `upstream` behind a clone that succeeded.
#[verifier::rlimit(80)]
pub proof fn lemma_checkout_commands(
    spec: CheckoutSpecView,
    request: Request,
    replies: Seq<Reply>,
    at: int,
)
    requires
        0 <= at,
    ensures
        checkout_view(spec, request, replies, at) matches Err(ActionView::Git { arguments }) ==> {
            &&& replies[at] matches Reply::Text(directory) && {
                &&& replies[at + 1] == Reply::Exists(false)
                &&& replies.len() == at + 2 ==> (first_url(
                    spec.source_https_url,
                    spec.source_ssh_url,
                ) matches Some(url) && is_clone(
                    arguments,
                    branch_name(spec.source_ref),
                    url,
                    directory@,
                ))
                &&& replies.len() > at + 2 && failed(replies[at + 2]) && spec.source_ssh_url
                    != first_url(spec.source_https_url, spec.source_ssh_url) && !succeeded(
                    replies[replies.len() - 1],
                ) ==> (spec.source_ssh_url matches Some(url) && is_clone(
                    arguments,
                    branch_name(spec.source_ref),
                    url,
                    directory@,
                ))
                &&& replies.len() > at + 2 && succeeded(replies[replies.len() - 1]) ==> (first_url(
                    spec.target_https_url,
                    spec.target_ssh_url,
                ) matches Some(url) && is_upstream(arguments, directory@, url) && Some(url) != (
                if failed(replies[at + 2]) {
                    spec.source_ssh_url
                } else {
                    first_url(spec.source_https_url, spec.source_ssh_url)
                }))
                &&& is_branch_of(branch_name(spec.source_ref), spec.source_ref)
            }
        },
{
    lemma_branch_of(spec.source_ref);
}

/// Whether an answer says that a command, or running it, failed.
pub open spec fn failed(reply: Reply) -> bool {
    match reply {
        Reply::Output(output) => !output.success,
        Reply::Fault(_) => true,
        _ => false,
    }
}

/// Whether an answer says that a command succeeded.
pub open spec fn succeeded(reply: Reply) -> bool {
    reply matches Reply::Output(output) && output.success
}

/// A checkout is reported only once a clone was asked for and succeeded, from the URL that the
/// report calls the origin, and once the target, where it is another repository, was added as the
/// remote that the report calls upstream. The report names the branch and the directory.
#[verifier::rlimit(80)]
pub proof fn lemma_checkout_is_reported_once_done(
    spec: CheckoutSpecView,
    request: Request,
    replies: Seq<Reply>,
    at: int,
)
    requires
        0 <= at,
    ensures
        checkout_view(spec, request, replies, at) matches Ok(result) ==> {
            let details = JsonView::Object(result.details);
            &&& replies[at] matches Reply::Text(directory) && details.text("directory"@) == Some(
                directory@,
            )
            &&& details.text("kind"@) == Some("checkout"@)
            &&& details.text("proposalId"@) == Some(spec.id)
            &&& details.text("branch"@) matches Some(branch) && is_branch_of(
                branch,
                spec.source_ref,
            )
            &&& details.text("origin"@) == (if failed(replies[at + 2]) {
                spec.source_ssh_url
            } else {
                first_url(spec.source_https_url, spec.source_ssh_url)
            })
            &&& details.text("upstream"@) == (if first_url(spec.target_https_url, spec.target_ssh_url)
                == details.text("origin"@) {
                None
            } else {
                first_url(spec.target_https_url, spec.target_ssh_url)
            })
            &&& result.source_url == spec.web_link
            &&& exists|n: int|
                {
                    &&& at + 2 <= n < replies.len()
                    &&& succeeded(#[trigger] replies[n])
                    &&& checkout_view(spec, request, replies.take(n), at) matches Err(
                        ActionView::Git { arguments },
                    ) && is_clone(
                        arguments,
                        details.text("branch"@)->0,
                        details.text("origin"@)->0,
                        details.text("directory"@)->0,
                    )
                }
            &&& details.text("upstream"@) matches Some(url) ==> exists|n: int|
                {
                    &&& at + 2 < n < replies.len()
                    &&& succeeded(#[trigger] replies[n])
                    &&& checkout_view(spec, request, replies.take(n), at) matches Err(
                        ActionView::Git { arguments },
                    ) && is_upstream(arguments, details.text("directory"@)->0, url)
                }
        },
{
    if let Ok(result) = checkout_view(spec, request, replies, at) {
        lemma_branch_of(spec.source_ref);
        reveal_strlit("kind");
        reveal_strlit("proposalId");
        reveal_strlit("branch");
        reveal_strlit("directory");
        reveal_strlit("origin");
        reveal_strlit("upstream");
        assert("kind"@.len() == 4 && "proposalId"@.len() == 10 && "branch"@.len() == 6
            && "directory"@.len() == 9 && "origin"@.len() == 6 && "upstream"@.len() == 8);
        assert("branch"@[0] == 'b');
        assert("origin"@[0] == 'o');
        lemma_member_at(result.details, 0);
        lemma_member_at(result.details, 1);
        lemma_member_at(result.details, 2);
        lemma_member_at(result.details, 3);
        lemma_member_at(result.details, 4);
        lemma_member_at(result.details, 5);
        let n = if !failed(replies[at + 2]) {
            at + 2
        } else if replies[at + 3] == Reply::Exists(true) {
            at + 5
        } else {
            at + 4
        };
        assert(succeeded(replies[n]));
        let before = replies.take(n);
        assert(checkout_view(spec, request, before, at) matches Err(ActionView::Git { arguments })
            && is_clone(
            arguments,
            branch_name(spec.source_ref),
            result.details[4].1->Text_0,
            result.details[3].1->Text_0,
        ));
        if let JsonView::Text(url) = result.details[5].1 {
            assert(succeeded(replies[n + 1]));
            let cloned = replies.take(n + 1);
            assert(checkout_view(spec, request, cloned, at) matches Err(
                ActionView::Git { arguments },
            ) && is_upstream(arguments, result.details[3].1->Text_0, url));
        }
    }
}

/// What a checkout needs is read off the merge proposal and its two repositories: the number, the
/// source ref and the page of the proposal, the name and the URLs of the source, and the URLs of
/// the target.
pub proof fn lemma_checkout_is_of_the_proposal(
    proposal: JsonView,
    source: JsonView,
    target: JsonView,
    source_ref: Seq<char>,
    name: Seq<char>,
    https: Seq<char>,
    ssh: Seq<char>,
    target_https: Seq<char>,
    target_ssh: Seq<char>,
)
    requires
        proposal.text("self_link"@) is Some,
        proposal.text("source_git_path"@) == Some(source_ref),
        source.text("unique_name"@) == Some(name),
        source.text("git_https_url"@) == Some(https),
        source.text("git_ssh_url"@) == Some(ssh),
        target.text("git_https_url"@) == Some(target_https),
        target.text("git_ssh_url"@) == Some(target_ssh),
        source_ref.len() > 0 && name.len() > 0 && https.len() > 0 && ssh.len() > 0,
        target_https.len() > 0 && target_ssh.len() > 0,
    ensures
        crate::details::checkout_of(proposal, source, target) matches Ok(spec) && {
            &&& Some(spec.id) == crate::fields::id_of(proposal)
            &&& spec.source_ref == source_ref
            &&& spec.source_repository == name
            &&& spec.source_https_url == Some(https) && spec.source_ssh_url == Some(ssh)
            &&& spec.target_https_url == Some(target_https) && spec.target_ssh_url == Some(
                target_ssh,
            )
            &&& proposal.text("web_link"@) matches Some(page) ==> page.len() > 0 ==> spec.web_link
                == Some(page)
        },
{
}

/// A checkout goes by the merge proposal that the request names and by the repositories that it
/// links to as source and target, and into the directory that the request names, or else into a
/// place named after the number of the proposal and its source repository.
#[verifier::rlimit(80)]
pub proof fn lemma_checkout_asks_for_its_parts(request: Request, base: Seq<char>, replies: Seq<Reply>)
    requires
        request.op == Operation::MergeProposalCheckout,
    ensures
        executed(request, base, replies) matches Err(action) ==> action !is Fail ==> {
            &&& replies.len() == 0 ==> action == (ActionView::Proposal {
                target: text_of(request.target),
            })
            &&& replies.len() == 1 ==> (replies[0] matches Reply::Json(proposal)
                && proposal@.text("source_git_repository_link"@) matches Some(link) && action
                == crate::steps::get(link))
            &&& replies.len() == 2 ==> (replies[0] matches Reply::Json(proposal)
                && proposal@.text("target_git_repository_link"@) matches Some(link) && action
                == crate::steps::get(link))
            &&& replies.len() == 3 ==> match request.directory {
                Some(path) => action == (ActionView::Directory { path: Some(path@) }),
                None => action matches ActionView::Worktree { name } && (
                replies[0] matches Reply::Json(proposal) && replies[1] matches Reply::Json(source)
                    && replies[2] matches Reply::Json(target) && (crate::details::checkout_of(
                    proposal@,
                    source@,
                    target@,
                ) matches Ok(spec) && name == crate::local_git::worktree_name(
                    spec.id,
                    spec.source_repository,
                ))),
            }
            &&& replies.len() == 4 ==> (replies[3] matches Reply::Text(directory) && action == (
            ActionView::Exists { directory: directory@ }))
        },
        executed(request, base, replies) is Ok ==> replies.len() > 5,
{
}

/// A place for a checkout is named after the number of the proposal and the last segment of the
/// path of the repository.
pub proof fn lemma_worktree_name(id: Seq<char>, front: Seq<char>, name: Seq<char>)
    requires
        name.len() > 0,
        !name.contains('/'),
        name != "."@ && name != ".."@,
    ensures
        crate::local_git::worktree_name(id, front + seq!['/'] + name) == "lp-"@ + id + "-"@ + name,
{
    crate::laws::terms::lemma_last_of_split(front, '/', name);
    crate::split::lemma_split_not_empty(front + seq!['/'] + name, '/');
}

/// A push first asks for the branch of the directory that the request names, and refuses where
/// none is checked out. Then it pushes what is checked out there to `origin`, with a lease exactly
/// where the request says so.
#[verifier::rlimit(80)]
pub proof fn lemma_push_commands(request: Request, base: Seq<char>, replies: Seq<Reply>)
    requires
        request.op == Operation::MergeProposalPush,
    ensures
        executed(request, base, replies) matches Err(action) ==> action !is Fail ==> {
            &&& replies.len() == 0 ==> action == (ActionView::Directory {
                path: option_of(request.directory),
            })
            &&& replies.len() == 1 ==> (replies[0] matches Reply::Text(directory)
                && action matches ActionView::Git { arguments } && arguments =~= seq![
                "-C"@,
                directory@,
                "rev-parse"@,
                "--abbrev-ref"@,
                "HEAD"@,
            ])
            &&& replies.len() == 2 ==> (replies[0] matches Reply::Text(directory)
                && action matches ActionView::Git { arguments } && arguments =~= (if request.force_with_lease
                == Some(true) {
                seq!["-C"@, directory@, "push"@, "--force-with-lease"@, "origin"@, "HEAD"@]
            } else {
                seq!["-C"@, directory@, "push"@, "origin"@, "HEAD"@]
            }))
            &&& replies.len() < 3
        },
{
}

/// A push is reported only once it succeeded, with the branch that was checked out, the directory,
/// and whether it was forced.
#[verifier::rlimit(80)]
pub proof fn lemma_push_is_reported_once_done(
    request: Request,
    base: Seq<char>,
    replies: Seq<Reply>,
    branch: Seq<char>,
)
    requires
        request.op == Operation::MergeProposalPush,
    ensures
        executed(request, base, replies) matches Ok(result) ==> {
            let details = JsonView::Object(result.details);
            &&& replies.len() >= 3 && succeeded(replies[1]) && succeeded(replies[2])
            &&& replies[0] matches Reply::Text(directory) && details.text("directory"@) == Some(
                directory@,
            )
            &&& replies[1] matches Reply::Output(output) && (output.stdout@
                == vstd::utf8::encode_utf8(branch) ==> details.text("branch"@) == Some(
                trimmed(branch),
            ) && trimmed(branch).len() > 0 && trimmed(branch) != "HEAD"@)
            &&& details.text("kind"@) == Some("push"@)
            &&& details.flag("forceWithLease"@) == Some(request.force_with_lease == Some(true))
        },
{
    if let Ok(result) = executed(request, base, replies) {
        reveal_strlit("kind");
        reveal_strlit("branch");
        reveal_strlit("directory");
        reveal_strlit("forceWithLease");
        assert("kind"@.len() == 4 && "branch"@.len() == 6 && "directory"@.len() == 9
            && "forceWithLease"@.len() == 14);
        lemma_member_at(result.details, 0);
        lemma_member_at(result.details, 1);
        lemma_member_at(result.details, 2);
        lemma_member_at(result.details, 3);
        lemma_written(branch);
    }
}

pub(crate) proof fn lemma_written(text: Seq<char>)
    ensures
        written_text(vstd::utf8::encode_utf8(text)) == Ok::<Seq<char>, crate::error::ErrorView>(
            trimmed(text),
        ),
{
    vstd::utf8::encode_utf8_valid_utf8(text);
    vstd::utf8::encode_utf8_decode_utf8(text);
}

/// The checkout in the working directory has the branch that Git prints, without the blanks around
/// it, which is one; the remotes are all that Git lists, each with the URL that Git prints for it.
#[verifier::rlimit(80)]
pub proof fn lemma_checkout_is_what_git_prints(
    directory: Seq<char>,
    replies: Seq<Reply>,
    at: int,
    branch: Seq<char>,
    names: Seq<char>,
    url: Seq<char>,
    i: int,
)
    requires
        0 <= at,
    ensures
        crate::local_git::checkout_from(directory, replies, at) matches Ok(checkout) ==> {
            &&& checkout.working_directory == directory
            &&& checkout.branch.len() > 0 && checkout.branch != "HEAD"@
            &&& replies[at] matches Reply::Output(output) && output.success && (output.stdout@
                == vstd::utf8::encode_utf8(branch) ==> checkout.branch == trimmed(branch))
            &&& replies[at + 1] matches Reply::Output(output) && output.success && (output.stdout@
                == vstd::utf8::encode_utf8(names) ==> {
                let listed = crate::split::lines_of(trimmed(names));
                &&& checkout.remotes.len() == listed.len()
                &&& 0 <= i < listed.len() ==> {
                    &&& checkout.remotes[i].0 == listed[i]
                    &&& replies[at + 2 + i] matches Reply::Output(output) && output.success && (
                    output.stdout@ == vstd::utf8::encode_utf8(url) ==> checkout.remotes[i].1 == trimmed(
                        url,
                    ))
                }
            })
        },
{
    if let Ok(checkout) = crate::local_git::checkout_from(directory, replies, at) {
        lemma_written(branch);
        lemma_written(names);
        let names = written_text(replies[at + 1]->Output_0.stdout@)->Ok_0;
        lemma_remotes_are_listed(crate::split::lines_of(names), replies, at + 2, url, i);
    }
}

proof fn lemma_remotes_are_listed(
    names: Seq<Seq<char>>,
    replies: Seq<Reply>,
    at: int,
    url: Seq<char>,
    i: int,
)
    requires
        0 <= at,
    ensures
        crate::local_git::named_remotes(names, replies, at) matches Ok(remotes) ==> {
            &&& remotes.len() == names.len()
            &&& 0 <= i < names.len() ==> {
                &&& remotes[i].0 == names[i]
                &&& replies[at + i] matches Reply::Output(output) && output.success && (
                output.stdout@ == vstd::utf8::encode_utf8(url) ==> remotes[i].1 == trimmed(url))
            }
        },
    decreases names.len(),
{
    if names.len() > 0 {
        lemma_remotes_are_listed(names.drop_last(), replies, at, url, i);
        lemma_written(url);
    }
}

} // verus!
