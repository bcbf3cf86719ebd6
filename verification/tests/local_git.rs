//! Operations on local Git checkouts.

use omp_launchpad::details::CheckoutSpec;
use omp_launchpad::error::Error;
use omp_launchpad::json::Json;
use omp_launchpad::local_git::{
    checkout, current_repository, current_repository_branch, explain_failure, name_worktree, push,
    select_remote,
};
use omp_launchpad::request::{Operation, Request};
use omp_launchpad::steps::{Action, GitOutput, Remote, Reply};

fn request(op: Operation) -> Request {
    Request {
        op,
        target: None,
        repository: None,
        target_repository: None,
        path: None,
        branch: None,
        target_branch: None,
        query: None,
        status: None,
        importance: None,
        tags: None,
        limit: None,
        latest: None,
        include_superseded: None,
        comments: None,
        since: None,
        reviewer: None,
        format: None,
        current_diff_only: None,
        unresolved_only: None,
        preview_diff_id: None,
        file_line: None,
        side: None,
        title: None,
        description: None,
        information_type: None,
        source_ref: None,
        target_ref: None,
        commit_message: None,
        needs_review: None,
        body: None,
        subject: None,
        vote: None,
        directory: None,
        force_with_lease: None,
    }
}

fn output(stdout: &[u8], stderr: &[u8]) -> Reply {
    Reply::Output(GitOutput {
        success: true,
        status: "exit status: 0".to_owned(),
        stdout: stdout.to_vec(),
        stderr: stderr.to_vec(),
    })
}

fn failed(stdout: &[u8], stderr: &[u8]) -> Reply {
    Reply::Output(GitOutput {
        success: false,
        status: "exit status: 128".to_owned(),
        stdout: stdout.to_vec(),
        stderr: stderr.to_vec(),
    })
}

fn arguments<T>(step: Result<T, Action>) -> Vec<String> {
    match step {
        Err(Action::Git { arguments }) => arguments,
        _ => panic!("no command is asked for"),
    }
}

fn failure<T>(step: Result<T, Action>) -> Error {
    match step {
        Err(Action::Fail { error }) => error,
        _ => panic!("the operation does not fail"),
    }
}

fn member<'value>(details: &'value [(String, Json)], name: &str) -> &'value Json {
    &details.iter().find(|(member, _)| member == name).unwrap().1
}

#[test]
fn pushes_go_to_origin() {
    let mut request = request(Operation::MergeProposalPush);
    let mut replies = Vec::new();
    assert!(matches!(
        push(&request, &replies),
        Err(Action::Directory { path: None })
    ));
    replies.push(Reply::Text("/work".to_owned()));
    assert_eq!(
        arguments(push(&request, &replies)),
        ["-C", "/work", "rev-parse", "--abbrev-ref", "HEAD"]
    );
    replies.push(output(b"feature\n", b""));
    assert_eq!(
        arguments(push(&request, &replies)),
        ["-C", "/work", "push", "origin", "HEAD"]
    );
    request.force_with_lease = Some(true);
    assert_eq!(
        arguments(push(&request, &replies)),
        ["-C", "/work", "push", "--force-with-lease", "origin", "HEAD"]
    );
    replies.push(output(b"", b"Everything up-to-date\n"));
    let result = push(&request, &replies).ok().unwrap();
    assert_eq!(
        result.text,
        "# Pushed Launchpad merge proposal branch\n\n- **Branch:** feature\n- **Path:** /work\n\nEverything up-to-date"
    );
    assert_eq!(member(&result.details, "kind").as_str(), Some("push"));
    assert_eq!(member(&result.details, "forceWithLease").as_bool(), Some(true));
}

#[test]
fn detached_heads_are_not_pushed() {
    let request = request(Operation::MergeProposalPush);
    for branch in [b"HEAD\n".as_slice(), b" \n".as_slice()] {
        let replies = vec![Reply::Text("/work".to_owned()), output(branch, b"")];
        assert_eq!(
            failure(push(&request, &replies)).message(),
            "invalid request: cannot push a detached HEAD"
        );
    }
}

#[test]
fn failed_commands_say_why() {
    let request = request(Operation::MergeProposalPush);
    let reason = |reply: Reply| {
        failure(push(&request, &vec![Reply::Text("/work".to_owned()), reply])).message()
    };
    assert_eq!(
        reason(failed(b"", b"fatal: \xff\n")),
        "cannot complete git: fatal: \u{fffd}"
    );
    assert_eq!(reason(failed(b" out\n", b" \n")), "cannot complete git: out");
    assert_eq!(
        reason(failed(b"", b"")),
        "cannot complete git: exited with status exit status: 128"
    );
    assert!(reason(output(b"\xff", b"")).starts_with("cannot decode command output: "));
    assert_eq!(
        reason(Reply::Fault(Error::Command {
            program: "git".to_owned(),
            source: "not there".to_owned()
        })),
        "cannot run git: not there"
    );
    assert_eq!(explain_failure("a ", "b", "c"), "a");
}

fn remote(name: &str, url: &str) -> Remote {
    Remote {
        name: name.to_owned(),
        url: url.to_owned(),
    }
}

#[test]
fn origin_names_the_repository_where_it_is_on_launchpad() {
    let selected = |remotes: Vec<Remote>| select_remote(&remotes).map(|remote| remote.name);
    assert_eq!(
        selected(vec![
            remote("backup", "https://git.launchpad.net/backup"),
            remote("origin", "https://git.launchpad.net/project"),
        ]),
        Some("origin".to_owned())
    );
    assert_eq!(
        selected(vec![
            remote("origin", "https://github.com/owner/project"),
            remote("lp", "git@git.launchpad.net:project"),
            remote("other", "https://git.launchpad.net/other"),
        ]),
        Some("lp".to_owned())
    );
    assert_eq!(
        selected(vec![remote("origin", "https://github.com/owner/project")]),
        None
    );
}

#[test]
fn checkouts_list_their_remotes() {
    let mut replies = vec![output(b"feature\n", b"")];
    assert_eq!(arguments(current_repository("/work", &replies)), ["remote"]);
    replies.push(output(b"origin\nfork\n", b""));
    assert_eq!(
        arguments(current_repository("/work", &replies)),
        ["remote", "get-url", "origin"]
    );
    replies.push(output(b"https://git.launchpad.net/project\n", b""));
    assert_eq!(
        arguments(current_repository("/work", &replies)),
        ["remote", "get-url", "fork"]
    );
    replies.push(output(b"https://github.com/owner/project\n", b""));
    let checkout = current_repository("/work", &replies).ok().unwrap();
    assert_eq!(checkout.working_directory, "/work");
    assert_eq!(checkout.branch, "feature");
    assert_eq!(checkout.selected.name, "origin");
    assert_eq!(checkout.remotes.len(), 2);
    assert_eq!(
        current_repository_branch("/work", &replies).ok().unwrap(),
        (
            "https://git.launchpad.net/project".to_owned(),
            "feature".to_owned()
        )
    );
}

#[test]
fn checkouts_without_branch_or_repository_are_refused() {
    assert_eq!(
        failure(current_repository("/work", &vec![output(b"HEAD", b"")])).message(),
        "invalid request: cannot infer a merge proposal from a detached HEAD; provide repository and branch"
    );
    let replies = vec![output(b"main", b""), output(b"", b"")];
    assert_eq!(
        failure(current_repository("/work", &replies)).message(),
        "invalid request: cannot infer a Launchpad repository because no Git remote points to Launchpad"
    );
}

fn spec() -> CheckoutSpec {
    CheckoutSpec {
        id: "42".to_owned(),
        source_ref: "refs/heads/feature".to_owned(),
        source_repository: "~owner/project/+git/repo".to_owned(),
        source_https_url: Some("https://git.launchpad.net/repo".to_owned()),
        source_ssh_url: Some("git+ssh://git.launchpad.net/repo".to_owned()),
        target_https_url: Some("https://git.launchpad.net/project".to_owned()),
        target_ssh_url: None,
        web_link: Some("https://code.launchpad.net/42".to_owned()),
    }
}

#[test]
fn clones_fall_back_to_ssh() {
    let mut request = request(Operation::MergeProposalCheckout);
    request.directory = Some("/tmp/proposal".to_owned());
    let mut replies = vec![
        Reply::Text("/tmp/proposal".to_owned()),
        Reply::Exists(false),
        failed(b"", b"fatal: authentication failed"),
    ];
    assert!(matches!(
        checkout(&spec(), &request, &replies, 0),
        Err(Action::Exists { .. })
    ));
    replies.push(Reply::Exists(true));
    assert!(matches!(
        checkout(&spec(), &request, &replies, 0),
        Err(Action::Remove { .. })
    ));
    replies.push(Reply::Done);
    assert_eq!(
        arguments(checkout(&spec(), &request, &replies, 0)),
        [
            "clone",
            "--branch",
            "feature",
            "--single-branch",
            "git+ssh://git.launchpad.net/repo",
            "/tmp/proposal"
        ]
    );
    replies.push(output(b"", b""));
    assert_eq!(
        arguments(checkout(&spec(), &request, &replies, 0)),
        [
            "-C",
            "/tmp/proposal",
            "remote",
            "add",
            "upstream",
            "https://git.launchpad.net/project"
        ]
    );
    replies.push(output(b"", b""));
    let result = checkout(&spec(), &request, &replies, 0).ok().unwrap();
    assert_eq!(
        result.text,
        "# Checked out Launchpad merge proposal 42\n\n- **Branch:** feature\n- **Path:** /tmp/proposal\n- **Origin:** git+ssh://git.launchpad.net/repo\n- **Upstream:** https://git.launchpad.net/project"
    );
    assert_eq!(result.source_url.as_deref(), Some("https://code.launchpad.net/42"));
    assert_eq!(member(&result.details, "proposalId").as_str(), Some("42"));
}

#[test]
fn clones_without_another_url_fail() {
    let request = request(Operation::MergeProposalCheckout);
    let mut spec = spec();
    spec.source_ssh_url = None;
    let mut replies = vec![
        Reply::Text("/tmp/proposal".to_owned()),
        Reply::Exists(false),
        failed(b"", b"fatal: no"),
    ];
    assert_eq!(
        failure(checkout(&spec, &request, &replies, 0)).message(),
        "cannot complete git: fatal: no"
    );
    spec.source_https_url = None;
    replies.truncate(2);
    assert_eq!(
        failure(checkout(&spec, &request, &replies, 0)).message(),
        "invalid request: Launchpad did not return a source repository URL"
    );
}

#[test]
fn targets_that_are_the_source_are_no_upstream() {
    let request = request(Operation::MergeProposalCheckout);
    let mut spec = spec();
    spec.target_https_url = spec.source_https_url.clone();
    let replies = vec![
        Reply::Text("/tmp/proposal".to_owned()),
        Reply::Exists(false),
        output(b"", b""),
    ];
    let result = checkout(&spec, &request, &replies, 0).ok().unwrap();
    assert!(!result.text.contains("Upstream"));
    assert!(matches!(member(&result.details, "upstream"), Json::Null));
}

#[test]
fn existing_destinations_are_kept() {
    let request = request(Operation::MergeProposalCheckout);
    match checkout(&spec(), &request, &Vec::new(), 0) {
        Err(Action::Worktree { name }) => assert_eq!(name, "lp-42-repo"),
        _ => panic!("no place is asked for"),
    }
    let replies = vec![Reply::Text("/tmp/proposal".to_owned()), Reply::Exists(true)];
    assert_eq!(
        failure(checkout(&spec(), &request, &replies, 0)).message(),
        "invalid request: checkout destination already exists: /tmp/proposal"
    );
}

#[test]
fn worktrees_are_named_after_the_repository() {
    for repository in ["~owner/project/+git/repo", "a/repo/", "repo/.", "a/..", "", "/"] {
        let name = std::path::Path::new(repository)
            .file_name()
            .and_then(|name| name.to_str())
            .unwrap_or("repository");
        assert_eq!(name_worktree("7", repository), format!("lp-7-{name}"));
    }
}

#[test]
fn remotes_on_other_hosts_are_not_selected() {
    let remote = |name: &str, url: &str| Remote {
        name: name.to_owned(),
        url: url.to_owned(),
    };
    let selected = |remotes: Vec<Remote>| select_remote(&remotes).map(|remote| remote.name);
    for other in [
        "github.com:o/p.git",
        "git@github.com:o/p.git",
        "https://github.com/o/p.git",
        "/srv/git/p",
        "/srv/a:b",
        "launchpad.net.example.org:p",
    ] {
        assert_eq!(selected(vec![remote("origin", other)]), None);
        assert_eq!(
            selected(vec![
                remote("origin", other),
                remote("mirror", "git+ssh://me@git.launchpad.net/p"),
            ])
            .as_deref(),
            Some("mirror")
        );
    }
    for own in [
        "lp:p",
        "git.launchpad.net:p",
        "git@git.launchpad.net:p",
        "launchpad.net:p",
        "https://git.launchpad.net/p",
    ] {
        assert_eq!(
            selected(vec![
                remote("first", "lp:q"),
                remote("origin", own),
            ])
            .as_deref(),
            Some("origin")
        );
    }
}
