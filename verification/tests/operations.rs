//! The operations, run against a service that answers from given resources.

use std::cell::RefCell;

use omp_launchpad::answering::{answer, collect};
use omp_launchpad::branches::{
    proposal_lookup_result, view_merge_proposal_for_branch, LookupContext,
};
use omp_launchpad::conversation::format_discussion_result;
use omp_launchpad::creating::find_git_ref;
use omp_launchpad::error::{Error, FaultKind, LaunchpadFault};
use omp_launchpad::json::{Json, Number};
use omp_launchpad::launchpad::{execute, required_connection};
use omp_launchpad::lookup::{related_repository_branch_proposals, repository_branch_proposals};
use omp_launchpad::pages::Page;
use omp_launchpad::request::{
    DiscussionComments, DiscussionFormat, OneOrMany, Operation, Request,
};
use omp_launchpad::response::OperationResult;
use omp_launchpad::steps::{Action, GitOutput, GitRef, Place, ProposalLookup, Reply};
use serde_json::Value;

const ROOT: &str = "http://127.0.0.1:4000";
const BASE: &str = "http://127.0.0.1:4000/devel";

fn json_of(value: &Value) -> Json {
    match value {
        Value::Null => Json::Null,
        Value::Bool(flag) => Json::Bool(*flag),
        Value::Number(number) => Json::Number(match (number.as_u64(), number.as_i64()) {
            (Some(value), _) => Number::Unsigned(value),
            (None, Some(value)) => Number::Negative(value),
            (None, None) => Number::Other(number.to_string()),
        }),
        Value::String(text) => Json::Text(text.clone()),
        Value::Array(items) => Json::Array(items.iter().map(json_of).collect()),
        Value::Object(members) => Json::Object(
            members
                .iter()
                .map(|(name, value)| (name.clone(), json_of(value)))
                .collect(),
        ),
    }
}

fn value_of(json: &Json) -> Value {
    match json {
        Json::Null => Value::Null,
        Json::Bool(flag) => Value::from(*flag),
        Json::Number(Number::Unsigned(value)) => Value::from(*value),
        Json::Number(Number::Negative(value)) => Value::from(*value),
        Json::Number(Number::Other(text)) => serde_json::from_str(text).unwrap(),
        Json::Text(text) => Value::from(text.clone()),
        Json::Array(items) => Value::Array(items.iter().map(value_of).collect()),
        Json::Object(members) => details_of(members),
    }
}

fn details_of(members: &[(String, Json)]) -> Value {
    Value::Object(
        members
            .iter()
            .map(|(name, value)| (name.clone(), value_of(value)))
            .collect(),
    )
}

fn parse(text: &str) -> Value {
    serde_json::from_str(text).unwrap()
}

fn json(text: &str) -> Json {
    json_of(&parse(text))
}

fn request(op: Operation) -> Request {
    Request {
        op,
        target: None,
        repository: None,
        target_repository: None,
        path: None,
        branch: None,
        target_branch: None,
        query: None,
        status: None,
        importance: None,
        tags: None,
        limit: None,
        latest: None,
        include_superseded: None,
        comments: None,
        since: None,
        reviewer: None,
        format: None,
        current_diff_only: None,
        unresolved_only: None,
        preview_diff_id: None,
        file_line: None,
        side: None,
        title: None,
        description: None,
        information_type: None,
        source_ref: None,
        target_ref: None,
        commit_message: None,
        needs_review: None,
        body: None,
        subject: None,
        vote: None,
        directory: None,
        force_with_lease: None,
    }
}

fn text(value: &str) -> Option<String> {
    Some(value.to_owned())
}

fn not_found() -> Error {
    Error::Launchpad {
        source: LaunchpadFault {
            kind: FaultKind::NotFound,
            text: "Not found".to_owned(),
        },
    }
}

/// A service that answers by path, and what was sent to it.
struct Service<'answers> {
    resources: &'answers dyn Fn(&str) -> Option<Value>,
    commands: &'answers dyn Fn(&[String]) -> Option<String>,
    texts: &'answers dyn Fn(&str) -> Option<String>,
    sent: RefCell<Vec<(String, Vec<(String, String)>)>>,
    ran: RefCell<Vec<Vec<String>>>,
}

fn nothing(_: &str) -> Option<Value> {
    None
}

fn no_command(_: &[String]) -> Option<String> {
    None
}

fn no_text(_: &str) -> Option<String> {
    None
}

impl<'answers> Service<'answers> {
    fn new(resources: &'answers dyn Fn(&str) -> Option<Value>) -> Self {
        Service {
            resources,
            commands: &no_command,
            texts: &no_text,
            sent: RefCell::new(Vec::new()),
            ran: RefCell::new(Vec::new()),
        }
    }

    fn fetch(&self, url: &str) -> Result<Value, Error> {
        let path = url.strip_prefix(ROOT).unwrap_or(url);
        (self.resources)(path).ok_or_else(not_found)
    }

    fn page(&self, url: &str) -> Result<Page, Error> {
        let value = self.fetch(url)?;
        Ok(Page {
            entries: value["entries"]
                .as_array()
                .unwrap()
                .iter()
                .map(json_of)
                .collect(),
            next: value["next_collection_link"].as_str().map(str::to_owned),
        })
    }

    fn collect(&self, action: &Action) -> Result<Reply, Error> {
        let mut pages = Vec::new();
        loop {
            match collect(action, &pages) {
                Ok(reply) => return Ok(reply),
                Err(Action::Get {
                    place: Place::Url(url),
                }) => pages.push(self.page(&url)?),
                Err(Action::Fail { error }) => return Err(error),
                Err(_) => panic!("unexpected action"),
            }
        }
    }

    fn drive<T>(
        &self,
        request: &Request,
        step: &dyn Fn(&Vec<Reply>) -> Result<T, Action>,
    ) -> Result<T, Error> {
        let mut replies = Vec::new();
        loop {
            match step(&replies) {
                Ok(value) => return Ok(value),
                Err(Action::Fail { error }) => return Err(error),
                Err(action) => replies.push(match self.perform(request, action) {
                    Ok(reply) => reply,
                    Err(error) => Reply::Fault(error),
                }),
            }
        }
    }

    fn perform(&self, request: &Request, action: Action) -> Result<Reply, Error> {
        Ok(match action {
            Action::Get { place } => Reply::Json(json_of(&self.fetch(&address(place)?)?)),
            Action::GetAll { .. } | Action::GetSome { .. } | Action::Find { .. } => {
                self.collect(&action)?
            }
            Action::Refs { repository } => {
                let place = Place::Url(format!("{BASE}/{repository}/refs"));
                let Reply::Entries(entries) = self.collect(&Action::GetAll { place })? else {
                    panic!("no entries");
                };
                Reply::Refs(
                    entries
                        .iter()
                        .map(|entry| GitRef {
                            path: member_text(entry, "path"),
                            self_link: member_text(entry, "self_link"),
                        })
                        .collect(),
                )
            }
            Action::People { links } => Reply::People(
                links
                    .iter()
                    .map(|link| self.fetch(link).ok().map(|value| json_of(&value)))
                    .collect(),
            ),
            Action::Proposal { .. }
            | Action::Lookup { .. }
            | Action::Related { .. }
            | Action::Checkout => {
                self.drive(request, &|replies| answer(request, BASE, &action, replies))?
            }
            Action::DiffText { link } => Reply::Text((self.texts)(&link).ok_or_else(not_found)?),
            Action::File { place, .. } => {
                let url = address(place)?;
                let text = (self.texts)(&url).ok_or_else(not_found)?;
                Reply::File { url, text }
            }
            Action::Post { url, pairs } => {
                self.sent.borrow_mut().push((url, pairs));
                Reply::Done
            }
            Action::Create { url, pairs } => {
                self.sent.borrow_mut().push((url, pairs));
                Reply::Text(format!("{BASE}/created"))
            }
            Action::Write { value } => Reply::Text(value_of(&value).to_string()),
            Action::Git { arguments } => {
                let output = (self.commands)(&arguments);
                self.ran.borrow_mut().push(arguments);
                Reply::Output(GitOutput {
                    success: output.is_some(),
                    status: "exit status: 128".to_owned(),
                    stdout: output.unwrap_or_default().into_bytes(),
                    stderr: Vec::new(),
                })
            }
            Action::Directory { path } => {
                Reply::Text(path.unwrap_or_else(|| "/work/project".to_owned()))
            }
            Action::Worktree { name } => Reply::Text(format!("/home/user/.omp/wt/{name}")),
            Action::Exists { .. } => Reply::Exists(false),
            Action::Remove { .. } => Reply::Done,
            Action::Fail { error } => return Err(error),
        })
    }

    fn run(&self, request: &Request) -> Result<OperationResult, Error> {
        self.drive(request, &|replies| execute(request, BASE, replies))
    }
}

fn address(place: Place) -> Result<String, Error> {
    assert!(place.fits());
    place.address()
}

fn member_text(value: &Json, name: &str) -> Option<String> {
    value.get(name).and_then(Json::as_str).map(str::to_owned)
}

fn refusal(result: Result<OperationResult, Error>) -> String {
    match result {
        Ok(_) => panic!("the request was not refused"),
        Err(error) => error.message(),
    }
}

#[test]
fn missing_discussion_respects_structured_and_both_formats() {
    let mut request = request(Operation::MergeProposalDiscussion);
    request.repository = text("launchpad-ui");
    request.branch = text("missing");
    for format in [DiscussionFormat::Structured, DiscussionFormat::Both] {
        let lookup = ProposalLookup::Missing {
            repository: "~owner/launchpad-ui/+git/launchpad-ui".to_owned(),
            inspected_repositories: vec!["~other/launchpad-ui/+git/launchpad-ui".to_owned()],
        };
        let context = LookupContext {
            requested_repository: "launchpad-ui",
            branch: "missing",
            inferred: false,
            kind: "merge_proposal_discussion",
            metadata: None,
        };
        let result = proposal_lookup_result(&request, &lookup, &context, &Vec::new(), 0)
            .ok()
            .unwrap();
        let written = serde_json::to_string_pretty(&details_of(&result.details)).unwrap();
        let result = format_discussion_result(result, format, &written);
        let details = details_of(&result.details);
        assert_eq!(details["found"], false);
        assert_eq!(
            details["repository"],
            "~owner/launchpad-ui/+git/launchpad-ui"
        );
        assert_eq!(details["requested_repository"], "launchpad-ui");
        assert_eq!(
            details["inspected_repositories"],
            parse(r#"["~other/launchpad-ui/+git/launchpad-ui"]"#)
        );
        if format == DiscussionFormat::Structured {
            assert_eq!(parse(&result.text), details);
        } else {
            assert!(result.text.starts_with("# No merge proposal found"));
            let (_, json_block) = result.text.split_once("```json\n").unwrap();
            let (json_block, _) = json_block.split_once("\n```").unwrap();
            assert_eq!(parse(json_block), details);
        }
    }
}

#[test]
fn absent_branch_lookup_reports_canonical_and_inspected_repositories() {
    let canonical = "~owner/launchpad-ui/+git/launchpad-ui";
    let related = "~other/launchpad-ui/+git/launchpad-ui";
    let refs_path = format!("/devel/{canonical}/refs");
    let related_ref_path = format!("/devel/{related}?ws.op=getRefByPath&");
    let answer = |path: &str| -> Option<Value> {
        let empty = r#"{"entries":[],"next_collection_link":null}"#;
        Some(if path == "/devel/+git?ws.op=getByPath&path=launchpad-ui" {
            parse(&format!(
                r#"{{"unique_name":"{canonical}","name":"launchpad-ui",
                "target_link":"{ROOT}/devel/launchpad-ui",
                "landing_targets_collection_link":"{ROOT}/landing_targets"}}"#
            ))
        } else if path == refs_path || path == "/landing_targets" {
            parse(empty)
        } else if path.starts_with("/devel/+git?ws.op=getRepositories&") {
            parse(&format!(
                r#"{{"entries":[{{"unique_name":"{related}","name":"launchpad-ui",
                "self_link":"{ROOT}/devel/{related}"}}],"next_collection_link":null}}"#
            ))
        } else if path.starts_with(&related_ref_path) {
            Value::Null
        } else {
            panic!("unexpected request: {path}");
        })
    };
    let mut request = request(Operation::MergeProposalForBranch);
    request.repository = text("lp:launchpad-ui");
    request.branch = text("missing");
    let service = Service::new(&answer);
    let result = service
        .drive(&request, &|replies| {
            view_merge_proposal_for_branch(&request, replies)
        })
        .unwrap();
    let details = details_of(&result.details);
    assert_eq!(details["found"], false);
    assert_eq!(details["repository"], canonical);
    assert_eq!(details["requested_repository"], "lp:launchpad-ui");
    assert_eq!(
        details["inspected_repositories"],
        Value::Array(vec![Value::from(related)])
    );
}

#[test]
fn fallback_only_caps_when_more_than_250_proposals_exist() {
    let canonical = "~owner/project/+git/repo";
    for count in [250, 251] {
        let answer = |path: &str| -> Option<Value> {
            Some(if path == format!("/devel/{canonical}/refs") {
                parse(r#"{"entries":[],"next_collection_link":null}"#)
            } else if path == "/landing_targets" {
                let entries = (0..count)
                    .map(|index| {
                        parse(&format!(
                            r#"{{"source_git_path":"{}"}}"#,
                            if index == 250 {
                                "refs/heads/feature"
                            } else {
                                "refs/heads/other"
                            }
                        ))
                    })
                    .collect::<Vec<_>>();
                let mut page = parse(r#"{"next_collection_link":null}"#);
                page["entries"] = Value::Array(entries);
                page
            } else {
                panic!("unexpected request: {path}");
            })
        };
        let repository = json(&format!(
            r#"{{"unique_name":"{canonical}",
            "landing_targets_collection_link":"{ROOT}/landing_targets"}}"#
        ));
        let request = request(Operation::MergeProposalForBranch);
        let service = Service::new(&answer);
        let (matches, capped) = service
            .drive(&request, &|replies| {
                repository_branch_proposals(&repository, "refs/heads/feature", replies, 0)
            })
            .unwrap();
        assert!(matches.is_empty());
        assert_eq!(capped, count > 250);
    }
}

#[test]
fn resolves_git_ssh_alias_refs_through_canonical_repository() {
    let canonical = "~launchpad-committers/mobot/+git/mobot";
    let refs_path = format!("/devel/{canonical}/refs");
    let answer = |path: &str| -> Option<Value> {
        if path == "/devel/+git?ws.op=getByPath&path=mobot" {
            Some(parse(&format!(r#"{{"unique_name":"{canonical}"}}"#)))
        } else if path == refs_path {
            Some(parse(&format!(
                r#"{{"entries":[{{"path":"refs/heads/feature",
                "self_link":"{ROOT}/devel/{canonical}/+ref/feature"}}],
                "next_collection_link":null}}"#
            )))
        } else {
            None
        }
    };
    let request = request(Operation::MergeProposalCreate);
    let service = Service::new(&answer);
    let (path, self_link) = service
        .drive(&request, &|replies| {
            find_git_ref(
                "source",
                "git+ssh://goulinkh@git.launchpad.net/mobot",
                "feature",
                BASE,
                replies,
                0,
            )
            .map(|git_ref| (git_ref.path.clone(), git_ref.self_link.clone()))
        })
        .unwrap();
    assert_eq!(path.as_deref(), Some("refs/heads/feature"));
    assert_eq!(
        self_link.as_deref(),
        Some(format!("{ROOT}/devel/{canonical}/+ref/feature").as_str())
    );
}

#[test]
fn missing_related_git_ref_returns_no_proposals() {
    let answer = |_: &str| -> Option<Value> { Some(Value::Null) };
    let repository = json(&format!(
        r#"{{"self_link":"{ROOT}/devel/~owner/project/+git/repo"}}"#
    ));
    let request = request(Operation::MergeProposalForBranch);
    let service = Service::new(&answer);
    let result = service.drive(&request, &|replies| {
        related_repository_branch_proposals(&repository, "refs/heads/never-created", replies)
    });
    assert!(result.unwrap().is_empty());
}

/// A merge proposal with one preview diff, as the web service shows it.
fn proposal_service(path: &str) -> Option<Value> {
    let proposal = "/devel/~owner/project/+git/repo/+merge/42";
    let comments = format!("{proposal}?ws.op=getInlineComments&previewdiff_id=7");
    let drafts = format!("{proposal}?ws.op=getDraftInlineComments&previewdiff_id=7");
    let body = if path == proposal {
        format!(
            r#"{{"self_link":"{ROOT}{proposal}",
            "web_link":"https://code.launchpad.net/~owner/project/+git/repo/+merge/42",
            "queue_status":"Needs review","date_created":"2026-01-01T00:00:00Z",
            "source_git_path":"refs/heads/feature","target_git_path":"refs/heads/main",
            "source_git_repository_link":"{ROOT}/source",
            "target_git_repository_link":"{ROOT}/target",
            "preview_diff_link":"{ROOT}/preview/7",
            "preview_diffs_collection_link":"{ROOT}/previews",
            "all_comments_collection_link":"{ROOT}/comments",
            "votes_collection_link":"{ROOT}/votes"}}"#
        )
    } else if path == "/source" {
        r#"{"unique_name":"~owner/project/+git/repo",
        "git_https_url":"https://git.launchpad.net/~owner/project/+git/repo",
        "git_ssh_url":"git+ssh://git.launchpad.net/~owner/project/+git/repo"}"#
            .to_owned()
    } else if path == "/target" {
        r#"{"unique_name":"project","git_https_url":"https://git.launchpad.net/project",
        "git_ssh_url":"git+ssh://git.launchpad.net/project"}"#
            .to_owned()
    } else if path == "/preview/7" {
        r#"{"id":7,"stale":false,"diff_text_link":"https://api.launchpad.net/devel/d/diff_text"}"#
            .to_owned()
    } else if path == "/previews" {
        r#"{"entries":[
            {"id":6,"stale":true,"date_created":"2026-01-01T00:00:00Z",
            "diff_text_link":"https://api.launchpad.net/devel/c/diff_text"},
            {"id":7,"stale":false,"date_created":"2026-01-02T00:00:00Z",
            "diff_text_link":"https://api.launchpad.net/devel/d/diff_text"}],
        "next_collection_link":null}"#
            .to_owned()
    } else if path == "/comments" {
        format!(
            r#"{{"entries":[
            {{"id":1,"author_link":"{ROOT}/alice","date_created":"2026-01-03T00:00:00Z",
            "message_body":"Looks good","vote":"Needs Fixing"}},
            {{"id":2,"author_link":"{ROOT}/alice","date_created":"2026-01-04T00:00:00Z",
            "message_body":"","vote":"Approve"}}],
            "next_collection_link":null}}"#
        )
    } else if path == "/votes" {
        r#"{"entries":[],"next_collection_link":null}"#.to_owned()
    } else if path == "/alice" {
        r#"{"name":"alice","display_name":"Alice Example",
        "web_link":"https://launchpad.net/~alice"}"#
            .to_owned()
    } else if path == comments {
        format!(
            r#"[{{"line_number":"6","person":{{"name":"bob","display_name":"Bob"}},
            "date":"2026-01-05T00:00:00Z","text":"second"}},
            {{"line_number":"5","person_link":"{ROOT}/alice",
            "date":"2026-01-05T00:00:00Z","text":"first"}}]"#
        )
    } else if path == format!("{proposal}?ws.op=getInlineComments&previewdiff_id=6") {
        r#"[{"line_number":"5","person":{"name":"bob","display_name":"Bob"},
        "date":"2026-01-01T00:00:00Z","text":"old"}]"#
            .to_owned()
    } else if path == drafts {
        r#"{"5":"draft"}"#.to_owned()
    } else {
        return None;
    };
    Some(parse(&body))
}

const DIFF: &str = "diff --git a/src/main.rs b/src/main.rs\n--- a/src/main.rs\n+++ b/src/main.rs\n@@ -10,2 +10,2 @@\n-old\n+new\n context\n";

fn diff_text(_: &str) -> Option<String> {
    Some(DIFF.to_owned())
}

fn service_with_diff<'answers>() -> Service<'answers> {
    Service {
        texts: &diff_text,
        ..Service::new(&proposal_service)
    }
}

const TARGET: &str = "lp://~owner/project/+git/repo/+merge/42";

#[test]
fn discussions_are_threaded_and_attributed() {
    let mut request = request(Operation::MergeProposalDiscussion);
    request.target = text(TARGET);
    let result = service_with_diff().run(&request).unwrap();
    let details = details_of(&result.details);
    assert_eq!(details["kind"], "merge_proposal_discussion");
    assert_eq!(details["current_preview_diff_id"], 7);
    let threads = details["inline_threads"].as_array().unwrap();
    let ids = threads
        .iter()
        .map(|thread| thread["thread_id"].as_str().unwrap())
        .collect::<Vec<_>>();
    assert_eq!(ids, ["6:5", "7:5", "7:6"]);
    let states = threads
        .iter()
        .map(|thread| thread["state"].as_str().unwrap())
        .collect::<Vec<_>>();
    assert_eq!(states, ["outdated", "open", "open"]);
    assert_eq!(threads[1]["comments"][0]["author"]["username"], "alice");
    assert_eq!(threads[1]["file"], "src/main.rs");
    assert_eq!(threads[1]["source_line"], 10);
    assert_eq!(threads[1]["target_line"], Value::Null);
    assert_eq!(threads[2]["target_line"], 10);
    let summary = &details["review_summary"];
    assert_eq!(summary["general_comment_count"], 1);
    assert_eq!(summary["review_vote_count"], 2);
    assert_eq!(summary["current_review_votes"][0]["vote"], "Approve");
    assert_eq!(summary["review_vote_transitions"][0]["from"], "Needs Fixing");
}

#[test]
fn unresolved_discussions_have_open_threads_only() {
    let mut request = request(Operation::MergeProposalDiscussion);
    request.target = text(TARGET);
    request.unresolved_only = Some(true);
    let result = service_with_diff().run(&request).unwrap();
    let details = details_of(&result.details);
    let threads = details["inline_threads"].as_array().unwrap();
    assert_eq!(threads.len(), 2);
    assert!(threads.iter().all(|thread| thread["state"] == "open"));
}

#[test]
fn discussions_are_filtered_by_person_and_kind() {
    let mut request = request(Operation::MergeProposalDiscussion);
    request.target = text(TARGET);
    request.comments = Some(DiscussionComments::Inline);
    request.current_diff_only = Some(true);
    request.reviewer = text("~ALICE");
    let result = service_with_diff().run(&request).unwrap();
    let details = details_of(&result.details);
    assert_eq!(details["review_summary"]["general_comment_count"], 0);
    let threads = details["inline_threads"].as_array().unwrap();
    assert_eq!(threads.len(), 1);
    assert_eq!(threads[0]["comments"][0]["body"], "first");
}

#[test]
fn structured_discussions_are_their_details() {
    let mut request = request(Operation::MergeProposalDiscussion);
    request.target = text(TARGET);
    request.format = Some(DiscussionFormat::Structured);
    let result = service_with_diff().run(&request).unwrap();
    assert_eq!(parse(&result.text), details_of(&result.details));
}

#[test]
fn drafts_are_saved_after_the_snapshot_is_confirmed() {
    let mut request = request(Operation::ReviewDraftUpdate);
    request.target = text(TARGET);
    request.preview_diff_id = Some(7);
    request.path = text("src/main.rs");
    request.file_line = Some(10);
    request.side = Some(omp_launchpad::diff::DiffSide::Modified);
    request.body = text("  please check  ");
    let service = service_with_diff();
    let result = service.run(&request).unwrap();
    assert_eq!(
        result.text,
        "Review draft saved on src/main.rs:10 (modified, global diff line 6)"
    );
    let sent = service.sent.borrow();
    assert_eq!(sent.len(), 1);
    assert_eq!(sent[0].0, format!("{BASE}/~owner/project/+git/repo/+merge/42"));
    assert_eq!(sent[0].1[0].1, "saveDraftInlineComment");
    assert_eq!(sent[0].1[1].1, "7");
    assert_eq!(
        parse(&sent[0].1[2].1),
        parse(r#"{"5":"draft","6":"please check"}"#)
    );
}

#[test]
fn drafts_are_deleted_without_a_body() {
    let mut request = request(Operation::ReviewDraftUpdate);
    request.target = text(TARGET);
    request.preview_diff_id = Some(7);
    request.path = text("src/main.rs");
    request.file_line = Some(10);
    request.side = Some(omp_launchpad::diff::DiffSide::Original);
    let service = service_with_diff();
    let result = service.run(&request).unwrap();
    assert_eq!(
        result.text,
        "Review draft deleted on src/main.rs:10 (original, global diff line 5)"
    );
    assert_eq!(service.sent.borrow()[0].1[2].1, "{}");
}

#[test]
fn old_snapshots_take_no_review() {
    let mut request = request(Operation::ReviewSubmit);
    request.target = text(TARGET);
    request.preview_diff_id = Some(6);
    request.vote = text("Approve");
    let service = service_with_diff();
    assert_eq!(
        refusal(service.run(&request)),
        "invalid request: preview diff 6 is stale; current preview diff is 7"
    );
    assert!(service.sent.borrow().is_empty());
}

#[test]
fn reviews_are_sent_with_their_drafts() {
    let mut request = request(Operation::ReviewSubmit);
    request.target = text(TARGET);
    request.preview_diff_id = Some(7);
    request.vote = text("Approve");
    let service = service_with_diff();
    let result = service.run(&request).unwrap();
    assert_eq!(
        result.text,
        "Review submitted with 1 inline comment: https://code.launchpad.net/~owner/project/+git/repo/+merge/42"
    );
    let sent = service.sent.borrow();
    let names = sent[0].1.iter().map(|(name, _)| name.as_str()).collect::<Vec<_>>();
    assert_eq!(
        names,
        ["ws.op", "content", "previewdiff_id", "inline_comments", "vote"]
    );
    assert_eq!(sent[0].1[3].1, r#"{"5":"draft"}"#);
}

#[test]
fn reads_send_nothing() {
    let service = service_with_diff();
    for op in [
        Operation::ResourceView,
        Operation::PreviewDiffs,
        Operation::InlineComments,
        Operation::ReviewDrafts,
        Operation::MergeProposalDiscussion,
    ] {
        let mut request = request(op);
        request.target = text(TARGET);
        request.preview_diff_id = Some(7);
        service.run(&request).unwrap();
    }
    assert!(service.sent.borrow().is_empty());
    assert!(service.ran.borrow().is_empty());
}

#[test]
fn lines_are_mapped_in_the_selected_snapshot() {
    let mut request = request(Operation::DiffLineMap);
    request.target = text(TARGET);
    request.preview_diff_id = Some(7);
    request.path = text("src/main.rs");
    request.file_line = Some(11);
    request.side = Some(omp_launchpad::diff::DiffSide::Modified);
    let result = service_with_diff().run(&request).unwrap();
    let details = details_of(&result.details);
    assert_eq!(details["location"]["diff_line"], 7);
    assert_eq!(details["location"]["kind"], "context");
    request.file_line = Some(99);
    assert_eq!(
        refusal(service_with_diff().run(&request)),
        "invalid request: file line is not present in the selected preview diff"
    );
}

#[test]
fn diffs_are_shown_of_historical_snapshots() {
    let mut request = request(Operation::ResourceView);
    request.target = text("lp://~owner/project/+git/repo/+merge/42/diff/6");
    let result = service_with_diff().run(&request).unwrap();
    assert!(result.text.contains("+new"));
    let details = details_of(&result.details);
    assert_eq!(details["preview_diff_id"], 6);
    request.target = text("lp://~owner/project/+git/repo/+merge/42/diff/5");
    assert_eq!(
        refusal(service_with_diff().run(&request)),
        "invalid request: preview diff 5 does not belong to this merge proposal"
    );
}

#[test]
fn invalid_requests_are_refused_before_anything_is_asked_for() {
    let request = request(Operation::RepoView);
    let message = "invalid request: repository is required for RepoView";
    assert_eq!(refusal(Service::new(&nothing).run(&request)), message);
    assert_eq!(
        required_connection(&request).err().unwrap().message(),
        message
    );
}

#[test]
fn connections_are_asked_for_by_operation() {
    let mut read = request(Operation::FileRead);
    read.repository = text("project");
    read.path = text("README.md");
    assert_eq!(required_connection(&read).ok(), Some(None));
    let mut view = request(Operation::RepoView);
    view.repository = text("project");
    assert_eq!(required_connection(&view).ok(), Some(Some(false)));
    let mut comment = request(Operation::Comment);
    comment.target = text("lp://bugs/1");
    comment.body = text("Hello");
    assert_eq!(required_connection(&comment).ok(), Some(Some(true)));
}

#[test]
fn comments_are_posted_to_bugs() {
    let mut request = request(Operation::Comment);
    request.target = text("lp://bugs/1");
    request.body = text("Hello");
    request.subject = text("Re: it");
    let service = Service::new(&nothing);
    let result = service.run(&request).unwrap();
    assert_eq!(result.text, "Comment added to https://bugs.launchpad.net/bugs/1");
    assert_eq!(
        *service.sent.borrow(),
        [(
            format!("{BASE}/bugs/1"),
            vec![
                ("ws.op".to_owned(), "newMessage".to_owned()),
                ("content".to_owned(), "Hello".to_owned()),
                ("subject".to_owned(), "Re: it".to_owned()),
            ]
        )]
    );
    request.target = text("lp://project");
    assert_eq!(
        refusal(service.run(&request)),
        "invalid request: comments are supported only for bugs and merge proposals"
    );
}

#[test]
fn bugs_are_created_with_their_tags() {
    let answer = |path: &str| -> Option<Value> {
        match path {
            "/devel/created" => Some(parse(
                r#"{"id":9,"title":"Broken","web_link":"https://bugs.launchpad.net/bugs/9"}"#,
            )),
            "/devel/bugs/9/bug_tasks" => Some(parse(r#"{"entries":[],"next_collection_link":null}"#)),
            _ => None,
        }
    };
    let mut request = request(Operation::BugCreate);
    request.target = text("project");
    request.title = text("Broken");
    request.description = text("It broke");
    request.tags = Some(vec!["one".to_owned(), "two".to_owned()]);
    let service = Service::new(&answer);
    let result = service.run(&request).unwrap();
    assert!(result.text.starts_with("# Created Launchpad bug\n\n"));
    assert_eq!(result.source_url.as_deref(), Some("https://bugs.launchpad.net/bugs/9"));
    let sent = service.sent.borrow();
    assert_eq!(sent[0].0, format!("{BASE}/bugs"));
    assert_eq!(
        sent[0].1,
        [
            ("ws.op", "createBug"),
            ("title", "Broken"),
            ("description", "It broke"),
            ("target", "http://127.0.0.1:4000/devel/project"),
            ("tags", "one"),
            ("tags", "two"),
        ]
        .map(|(name, value)| (name.to_owned(), value.to_owned()))
    );
}

#[test]
fn merge_proposals_are_created_between_canonical_refs() {
    let answer = |path: &str| -> Option<Value> {
        Some(match path {
            "/devel/+git?ws.op=getByPath&path=project" => {
                parse(r#"{"unique_name":"~owner/project/+git/repo"}"#)
            }
            "/devel/~owner/project/+git/repo/refs" => parse(&format!(
                r#"{{"entries":[
                {{"path":"refs/heads/feature","self_link":"{ROOT}/refs/feature"}},
                {{"path":"refs/heads/main","self_link":"{ROOT}/refs/main"}}],
                "next_collection_link":null}}"#
            )),
            "/devel/created" => proposal_service("/devel/~owner/project/+git/repo/+merge/42")?,
            _ => return proposal_service(path),
        })
    };
    let mut request = request(Operation::MergeProposalCreate);
    request.repository = text("project");
    request.source_ref = text("feature");
    request.target_ref = text("refs/heads/main");
    let service = Service::new(&answer);
    let result = service.run(&request).unwrap();
    assert!(result.text.starts_with("# Created Launchpad merge proposal\n\n"));
    {
        let sent = service.sent.borrow();
        assert_eq!(sent[0].0, format!("{ROOT}/refs/feature"));
        assert_eq!(sent[0].1[1].1, format!("{ROOT}/refs/main"));
        assert_eq!(sent[0].1[3], ("needs_review".to_owned(), "true".to_owned()));
    }
    request.target_ref = text("gone");
    assert_eq!(
        refusal(service.run(&request)),
        "invalid request: cannot resolve target ref refs/heads/gone in repository project (canonical repository ~owner/project/+git/repo); ref was not found"
    );
}

#[test]
fn statuses_are_set_on_the_proposal() {
    let mut request = request(Operation::SetMergeProposalStatus);
    request.target = text(TARGET);
    request.status = Some(OneOrMany::One("Approved".to_owned()));
    let service = service_with_diff();
    let result = service.run(&request).unwrap();
    assert_eq!(
        result.text,
        "Merge proposal status set to Approved: https://code.launchpad.net/~owner/project/+git/repo/+merge/42"
    );
    assert_eq!(service.sent.borrow()[0].1[1].1, "Approved");
}

#[test]
fn numbers_are_resolved_in_the_repositories_of_the_checkout() {
    let answer = |path: &str| -> Option<Value> {
        Some(match path {
            "/devel/+git?ws.op=getByPath&path=%7Eowner%2Fproject%2F%2Bgit%2Frepo" => {
                parse(&format!(
                    r#"{{"unique_name":"~owner/project/+git/repo",
                    "landing_targets_collection_link":"{ROOT}/first"}}"#
                ))
            }
            "/first" => parse(&format!(
                r#"{{"entries":[{{"self_link":"{ROOT}/devel/x/+merge/1"}}],
                "next_collection_link":"{ROOT}/second"}}"#
            )),
            "/second" => {
                let mut page = parse(r#"{"next_collection_link":null}"#);
                page["entries"] = Value::Array(vec![proposal_service(
                    "/devel/~owner/project/+git/repo/+merge/42",
                )?]);
                page
            }
            _ => return proposal_service(path),
        })
    };
    let commands = |arguments: &[String]| -> Option<String> {
        let words = arguments.iter().map(String::as_str).collect::<Vec<_>>();
        match words.as_slice() {
            ["rev-parse", "--abbrev-ref", "HEAD"] => text("feature\n"),
            ["remote"] => text("github\norigin\n"),
            ["remote", "get-url", "github"] => text("https://github.com/owner/project\n"),
            ["remote", "get-url", "origin"] => {
                text("git+ssh://git.launchpad.net/~owner/project/+git/repo\n")
            }
            _ => None,
        }
    };
    let service = Service {
        commands: &commands,
        ..Service::new(&answer)
    };
    let mut request = request(Operation::PreviewDiffs);
    request.target = text("42");
    let result = service.run(&request).unwrap();
    assert_eq!(details_of(&result.details)["current_preview_diff_id"], 7);
    request.target = text("43");
    let message = refusal(service.run(&request));
    assert!(message.contains("cannot resolve merge proposal ID 43; working directory: /work/project"));
    assert!(message.contains("github=https://github.com/owner/project, origin="));
    assert!(message.contains("inspected Launchpad repositories: ~owner/project/+git/repo;"));
}

#[test]
fn the_checked_out_branch_finds_its_proposal() {
    let answer = |path: &str| -> Option<Value> {
        Some(match path {
            "/devel/+git?ws.op=getByPath&path=%7Eowner%2Fproject%2F%2Bgit%2Frepo" => {
                parse(r#"{"unique_name":"~owner/project/+git/repo","name":"repo"}"#)
            }
            "/devel/~owner/project/+git/repo/refs" => parse(&format!(
                r#"{{"entries":[{{"path":"refs/heads/feature",
                "self_link":"{ROOT}/refs/feature"}}],"next_collection_link":null}}"#
            )),
            "/refs/feature/landing_targets" => {
                let mut page = parse(r#"{"next_collection_link":null}"#);
                page["entries"] = Value::Array(vec![proposal_service(
                    "/devel/~owner/project/+git/repo/+merge/42",
                )?]);
                page
            }
            _ => return proposal_service(path),
        })
    };
    let commands = |arguments: &[String]| -> Option<String> {
        match arguments.last().map(String::as_str) {
            Some("HEAD") => text("feature"),
            Some("remote") => text("origin"),
            _ => text("https://git.launchpad.net/~owner/project/+git/repo"),
        }
    };
    let service = Service {
        commands: &commands,
        ..Service::new(&answer)
    };
    let result = service.run(&request(Operation::CurrentMergeProposal)).unwrap();
    let details = details_of(&result.details);
    assert_eq!(details["found"], true);
    assert_eq!(details["inferred"], true);
    assert_eq!(details["selected_proposal"]["id"], "42");
    assert_eq!(details["context"]["selected_remote"]["name"], "origin");
    assert_eq!(details["matching_proposals"], 1);
}

#[test]
fn searches_stop_at_their_limit() {
    let answer = |path: &str| -> Option<Value> {
        if path.starts_with("/devel/project?ws.op=searchTasks") {
            assert!(path.contains("ws.size=1"));
            Some(parse(&format!(
                r#"{{"entries":[{{"title":"Bug #1 in project: \"one\"","web_link":"https://bugs.launchpad.net/bugs/1"}},
                {{"title":"Bug #2 in project: \"two\"","web_link":"https://bugs.launchpad.net/bugs/2"}}],
                "next_collection_link":"{ROOT}/never"}}"#
            )))
        } else {
            None
        }
    };
    let mut request = request(Operation::SearchBugs);
    request.target = text("project");
    request.limit = Some(1);
    let result = Service::new(&answer).run(&request).unwrap();
    assert!(result.text.contains("one"));
    assert!(!result.text.contains("two"));
    request.limit = Some(1001);
    assert_eq!(
        refusal(Service::new(&nothing).run(&request)),
        "invalid request: limit cannot be greater than 1000"
    );
}

#[test]
fn files_are_read_at_a_branch() {
    let texts = |url: &str| -> Option<String> {
        assert_eq!(
            url,
            "https://git.launchpad.net/~owner/project/+git/repo/plain/src/a%20b.rs?h=feature%2Fx"
        );
        text("fn main() {}\n")
    };
    let service = Service {
        texts: &texts,
        ..Service::new(&nothing)
    };
    let mut request = request(Operation::FileRead);
    request.repository = text("lp:~owner/project/+git/repo");
    request.path = text("src/a b.rs");
    request.branch = text("feature/x");
    let result = service.run(&request).unwrap();
    assert_eq!(result.text, "fn main() {}\n");
    let details = details_of(&result.details);
    assert_eq!(details["bytes"], 13);
    assert_eq!(details["kind"], "file");
    assert_eq!(details["repository"], "lp:~owner/project/+git/repo");
}

#[test]
fn repeated_pages_are_refused() {
    let answer = |path: &str| -> Option<Value> {
        match path {
            "/previews" => Some(parse(&format!(
                r#"{{"entries":[],"next_collection_link":"{ROOT}/previews"}}"#
            ))),
            _ => proposal_service(path),
        }
    };
    let mut request = request(Operation::PreviewDiffs);
    request.target = text(TARGET);
    assert_eq!(
        refusal(Service::new(&answer).run(&request)),
        "invalid request: Launchpad collection pagination repeated a page"
    );
}

#[test]
fn checkouts_clone_the_source_and_add_the_target() {
    let commands = |_: &[String]| -> Option<String> { text("") };
    let service = Service {
        commands: &commands,
        ..Service::new(&proposal_service)
    };
    let mut request = request(Operation::MergeProposalCheckout);
    request.target = text(TARGET);
    let result = service.run(&request).unwrap();
    let place = "/home/user/.omp/wt/lp-42-repo";
    assert_eq!(
        result.text,
        format!(
            "# Checked out Launchpad merge proposal 42\n\n- **Branch:** feature\n- **Path:** {place}\n- **Origin:** https://git.launchpad.net/~owner/project/+git/repo\n- **Upstream:** https://git.launchpad.net/project"
        )
    );
    let ran = service.ran.borrow();
    assert_eq!(
        ran[0],
        [
            "clone",
            "--branch",
            "feature",
            "--single-branch",
            "https://git.launchpad.net/~owner/project/+git/repo",
            place
        ]
    );
    assert_eq!(
        ran[1],
        ["-C", place, "remote", "add", "upstream", "https://git.launchpad.net/project"]
    );
    assert_eq!(ran.len(), 2);
}

/// A repository without the branch, and related repositories of which some have it.
fn related_service(path: &str, related: &[&str], count: usize) -> Option<Value> {
    let entries = |values: Vec<Value>| {
        let mut page = parse(r#"{"next_collection_link":null}"#);
        page["entries"] = Value::Array(values);
        page
    };
    if path == "/devel/+git?ws.op=getByPath&path=project" {
        return Some(parse(&format!(
            r#"{{"unique_name":"~owner/project/+git/repo","name":"repo",
            "target_link":"{ROOT}/devel/project",
            "landing_targets_collection_link":"{ROOT}/landing_targets"}}"#
        )));
    }
    if path == "/devel/~owner/project/+git/repo/refs" || path == "/landing_targets" {
        return Some(entries(Vec::new()));
    }
    if path.starts_with("/devel/+git?ws.op=getRepositories&") {
        let repositories = (0..count)
            .map(|index| {
                let name = related.get(index).copied().unwrap_or("elsewhere");
                parse(&format!(
                    r#"{{"unique_name":"{name}","name":"repo","self_link":"{ROOT}/devel/{name}"}}"#
                ))
            })
            .collect();
        return Some(entries(repositories));
    }
    for (index, name) in related.iter().enumerate() {
        if path.starts_with(&format!("/devel/{name}?ws.op=getRefByPath&")) {
            return Some(parse(&format!(r#"{{"self_link":"{ROOT}/ref{index}"}}"#)));
        }
        if path == format!("/ref{index}/landing_targets") {
            let mut proposal = proposal_service("/devel/~owner/project/+git/repo/+merge/42")?;
            proposal["self_link"] = Value::from(format!("{ROOT}/devel/{name}/+merge/{index}"));
            return Some(entries(vec![proposal]));
        }
    }
    if path.contains("getRefByPath") {
        return Some(Value::Null);
    }
    proposal_service(path)
}

fn branch_lookup() -> Request {
    let mut request = request(Operation::MergeProposalForBranch);
    request.repository = text("project");
    request.branch = text("feature");
    request
}

#[test]
fn related_repositories_are_searched_second() {
    let answer = |path: &str| related_service(path, &["~other/project/+git/repo"], 1);
    let result = Service::new(&answer).run(&branch_lookup()).unwrap();
    let details = details_of(&result.details);
    assert_eq!(details["found"], true);
    assert_eq!(details["related_repository"], true);
    assert_eq!(details["repository"], "~other/project/+git/repo");
    assert_eq!(details["requested_repository"], "project");
    assert_eq!(details["candidate_count"], 1);
    assert!(result.text.contains("- **Resolved from:** related target repository"));
}

#[test]
fn several_related_repositories_are_ambiguous() {
    let related = ["~a/project/+git/repo", "~b/project/+git/repo"];
    let answer = |path: &str| related_service(path, &related, 2);
    assert_eq!(
        refusal(Service::new(&answer).run(&branch_lookup())),
        "invalid request: cannot select a merge proposal for ~owner/project/+git/repo:refs/heads/feature; matching repositories: ~a/project/+git/repo:refs/heads/feature (MP 0); ~b/project/+git/repo:refs/heads/feature (MP 1); retry with a full merge proposal target or narrow with status and target_branch"
    );
}

#[test]
fn incomplete_lookups_are_no_evidence() {
    let answer = |path: &str| related_service(path, &[], 101);
    let mut request = branch_lookup();
    request.status = Some(OneOrMany::One("Approved".to_owned()));
    assert_eq!(
        refusal(Service::new(&answer).run(&request)),
        "invalid request: cannot establish whether a merge proposal exists for ~owner/project/+git/repo:refs/heads/feature; inspected repositories: ~owner/project/+git/repo, elsewhere; filters: {\"include_superseded\":false,\"latest\":false,\"status\":[\"Approved\"],\"target_branch\":null}; retry with a full merge proposal target or narrow the search; related lookup was limited to the first 100 likely repositories"
    );
}

#[test]
fn failing_related_lookups_are_reported() {
    let answer = |path: &str| -> Option<Value> {
        if path == "/ref0/landing_targets" {
            None
        } else {
            related_service(path, &["~other/project/+git/repo"], 1)
        }
    };
    assert_eq!(
        refusal(Service::new(&answer).run(&branch_lookup())),
        "cannot inspect related repository repository for refs/heads/feature: cannot access Launchpad: Not found"
    );
}

#[test]
fn missing_repositories_are_reported_with_the_branch() {
    assert_eq!(
        refusal(Service::new(&nothing).run(&branch_lookup())),
        "cannot look up repository project for branch feature: cannot access Launchpad: Not found"
    );
}

#[test]
fn bugs_and_repositories_are_viewed() {
    let answer = |path: &str| -> Option<Value> {
        Some(parse(match path {
            "/devel/bugs/1" => r#"{"id":1,"title":"Bug","web_link":"https://bugs.launchpad.net/bugs/1"}"#,
            "/devel/bugs/1/bug_tasks" => r#"{"entries":[],"next_collection_link":null}"#,
            "/devel/bugs/1/messages" => {
                r#"{"entries":[{"content":"one"},{"content":"two"}],"next_collection_link":null}"#
            }
            "/devel/project" => r##"{"resource_type_link":"x#project","display_name":"Project"}"##,
            "/devel/+git?ws.op=getByPath&path=project" => r#"{"unique_name":"project"}"#,
            _ => return None,
        }))
    };
    let service = Service::new(&answer);
    let mut view = request(Operation::ResourceView);
    view.target = text("lp://bugs/1?limit=1");
    let result = service.run(&view).unwrap();
    assert!(result.text.ends_with("## Comments (up to 1)\n\n### unknown\n\none"));
    assert_eq!(details_of(&result.details)["id"], 1);
    view.target = text("lp://bugs/1?comments=0");
    assert_eq!(
        service.run(&view).unwrap().text,
        "# Bug #1: Bug\n\n- **URL:** https://bugs.launchpad.net/bugs/1"
    );
    view.target = text("lp://project");
    let result = service.run(&view).unwrap();
    assert_eq!(details_of(&result.details)["kind"], "project");
    let mut repository = request(Operation::RepoView);
    repository.repository = text("project");
    assert_eq!(service.run(&repository).unwrap().text, "# project");
}

#[test]
fn proposal_searches_report_whether_there_are_more() {
    let answer = |path: &str| -> Option<Value> {
        if path == "/devel/+git?ws.op=getByPath&path=project" {
            Some(parse(&format!(
                r#"{{"unique_name":"project","self_link":"{ROOT}/devel/project"}}"#
            )))
        } else if path
            == "/devel/project?ws.op=getMergeProposals&ws.size=3&status=Needs+review&status=Approved"
        {
            Some(parse(
                r#"{"entries":[{"self_link":"https://x/1"},{"self_link":"https://x/2"},
                {"self_link":"https://x/3"}],"next_collection_link":null}"#,
            ))
        } else {
            None
        }
    };
    let mut search = request(Operation::SearchMergeProposals);
    search.repository = text("project");
    search.limit = Some(2);
    search.status = Some(OneOrMany::Many(vec![
        "Needs review".to_owned(),
        "Approved".to_owned(),
    ]));
    let result = Service::new(&answer).run(&search).unwrap();
    assert_eq!(
        details_of(&result.details),
        parse(r#"{"count":2,"limit":2,"truncated":true,"repository":"project"}"#)
    );
}

#[test]
fn actions_without_steps_are_handed_back() {
    let request = request(Operation::CurrentMergeProposal);
    let action = Action::Directory { path: text("/x") };
    match answer(&request, BASE, &action, &Vec::new()) {
        Err(Action::Directory { path }) => assert_eq!(path.as_deref(), Some("/x")),
        _ => panic!("the action is not handed back"),
    }
    match collect(&action, &Vec::new()) {
        Err(Action::Directory { path }) => assert_eq!(path.as_deref(), Some("/x")),
        _ => panic!("the action is not handed back"),
    }
}

#[test]
fn checkouts_are_answered_with_the_working_directory() {
    let request = request(Operation::CurrentMergeProposal);
    let output = |stdout: &str| {
        Reply::Output(GitOutput {
            success: true,
            status: "exit status: 0".to_owned(),
            stdout: stdout.as_bytes().to_vec(),
            stderr: Vec::new(),
        })
    };
    let mut replies = Vec::new();
    assert!(matches!(
        answer(&request, BASE, &Action::Checkout, &replies),
        Err(Action::Directory { path: None })
    ));
    replies.push(Reply::Text("/work".to_owned()));
    replies.push(output("feature\n"));
    replies.push(output("origin\nlaunchpad\n"));
    replies.push(output("github.com:owner/project.git\n"));
    match answer(&request, BASE, &Action::Checkout, &replies) {
        Err(Action::Git { arguments }) => {
            assert_eq!(arguments, ["remote", "get-url", "launchpad"]);
        }
        _ => panic!("no command is asked for"),
    }
    replies.push(output("git.launchpad.net:project\n"));
    match answer(&request, BASE, &Action::Checkout, &replies) {
        Ok(Reply::Checkout(checkout)) => {
            assert_eq!(checkout.working_directory, "/work");
            assert_eq!(checkout.branch, "feature");
            assert_eq!(checkout.selected.name, "launchpad");
            assert_eq!(checkout.remotes.len(), 2);
        }
        _ => panic!("no checkout is found"),
    }
}

#[test]
fn related_repositories_are_answered_in_their_order() {
    let request = request(Operation::MergeProposalForBranch);
    let link = |name: &str| json(&format!(r#"{{"self_link": "{BASE}/{name}"}}"#));
    let action = Action::Related {
        repositories: vec![link("first"), json("{}"), link("second"), link("third")],
        branch: "refs/heads/x".to_owned(),
    };
    let own = json(r#"{"source_git_path": "refs/heads/x", "id": 1}"#);
    let other = json(r#"{"source_git_path": "refs/heads/y", "id": 2}"#);
    let replies = vec![
        Reply::Json(Json::Null),
        Reply::Json(link("second/+ref/x")),
        Reply::Entries(vec![other, own]),
        Reply::Fault(Error::invalid("no answer")),
    ];
    let found = match answer(&request, BASE, &action, &replies) {
        Ok(Reply::Related(found)) => found,
        _ => panic!("the related repositories are not answered"),
    };
    assert_eq!(found.len(), 4);
    assert!(matches!(&found[0].proposals, Ok(proposals) if proposals.is_empty()));
    assert_eq!(
        found[1].proposals.as_ref().err().unwrap().message(),
        "invalid request: Launchpad repository has no API link"
    );
    assert_eq!(found[2].proposals.as_ref().unwrap().len(), 1);
    assert_eq!(
        member_text(&found[2].repository, "self_link"),
        Some(format!("{BASE}/second"))
    );
    assert_eq!(
        found[3].proposals.as_ref().err().unwrap().message(),
        "invalid request: no answer"
    );
    match answer(&request, BASE, &action, &replies[..3].iter().map(copied).collect()) {
        Err(Action::Get {
            place: Place::Query(query),
        }) => assert_eq!(query.base, format!("{BASE}/third")),
        _ => panic!("the third repository is not asked for"),
    }
}

fn copied(reply: &Reply) -> Reply {
    match reply {
        Reply::Json(value) => Reply::Json(value.copy()),
        Reply::Entries(entries) => Reply::Entries(entries.iter().map(Json::copy).collect()),
        _ => panic!("unexpected answer"),
    }
}
