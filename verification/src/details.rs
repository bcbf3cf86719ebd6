//! What operations report of a merge proposal beside its text.
use vstd::prelude::*;
use crate::error::{invalid, ErrorView};
use crate::fields::{id_of, resource_id, scalar_field, scalar_of};
use crate::format::cat2;
use crate::json::{no_members, push_member, text_or_null, Json, JsonView};
use crate::preview::{find_link, link_in};
use crate::steps::{
    get, get_url, json_at, json_reply, json_step, value_step, Action, ActionView, Reply,
};
use crate::text::opt_view;

verus! {

/// A resource that another one links to, as an answer.
pub open spec fn linked_at(resource: JsonView, name: Seq<char>, replies: Seq<Reply>, at: int) -> Result<
    JsonView,
    ActionView,
> {
    match link_in(resource, name, "resource has no "@ + name) {
        Err(stop) => Err(stop),
        Ok(link) => json_at(replies, at, get(link)),
    }
}

/// A resource that another one links to, as an answer.
pub fn linked_resource<'reply>(
    resource: &Json,
    name: &str,
    replies: &'reply Vec<Reply>,
    at: usize,
) -> (r: Result<&'reply Json, Action>)
    ensures
        json_step(r) == linked_at(resource@, name@, replies@, at as int),
{
    match find_link(resource, name, cat2("resource has no ", name).as_str()) {
        Err(stop) => Err(stop),
        Ok(link) => json_reply(replies, at, get_url(link)),
    }
}

/// What is reported of a merge proposal between two repositories.
pub open spec fn proposal_object(proposal: JsonView, source: JsonView, target: JsonView) -> JsonView {
    JsonView::Object(
        Seq::empty().push(("kind"@, JsonView::Text("branch_merge_proposal"@))).push(
            ("id"@, text_or_null(id_of(proposal))),
        ).push(("url"@, text_or_null(scalar_of(proposal, "web_link"@)))).push(
            ("status"@, text_or_null(scalar_of(proposal, "queue_status"@))),
        ).push(("source_ref"@, text_or_null(scalar_of(proposal, "source_git_path"@)))).push(
            ("target_ref"@, text_or_null(scalar_of(proposal, "target_git_path"@))),
        ).push(("source_repository"@, text_or_null(scalar_of(source, "unique_name"@)))).push(
            ("target_repository"@, text_or_null(scalar_of(target, "unique_name"@))),
        ).push(("source_https_url"@, text_or_null(scalar_of(source, "git_https_url"@)))).push(
            ("source_ssh_url"@, text_or_null(scalar_of(source, "git_ssh_url"@))),
        ).push(("target_https_url"@, text_or_null(scalar_of(target, "git_https_url"@)))).push(
            ("target_ssh_url"@, text_or_null(scalar_of(target, "git_ssh_url"@))),
        ),
    )
}

fn owned_text(text: Option<String>) -> (r: Json)
    ensures
        r@ == text_or_null(opt_view(text)),
{
    match text {
        Some(text) => Json::Text(text),
        None => Json::Null,
    }
}

fn proposal_json(proposal: &Json, source: &Json, target: &Json) -> (r: Json)
    ensures
        r@ == proposal_object(proposal@, source@, target@),
{
    let mut members = no_members();
    push_member(&mut members, "kind", Json::of_text("branch_merge_proposal"));
    push_member(&mut members, "id", owned_text(resource_id(proposal)));
    push_member(&mut members, "url", owned_text(scalar_field(proposal, "web_link")));
    push_member(&mut members, "status", owned_text(scalar_field(proposal, "queue_status")));
    push_member(&mut members, "source_ref", owned_text(scalar_field(proposal, "source_git_path")));
    push_member(&mut members, "target_ref", owned_text(scalar_field(proposal, "target_git_path")));
    push_member(&mut members, "source_repository", owned_text(scalar_field(source, "unique_name")));
    push_member(&mut members, "target_repository", owned_text(scalar_field(target, "unique_name")));
    push_member(&mut members, "source_https_url", owned_text(scalar_field(source, "git_https_url")));
    push_member(&mut members, "source_ssh_url", owned_text(scalar_field(source, "git_ssh_url")));
    push_member(&mut members, "target_https_url", owned_text(scalar_field(target, "git_https_url")));
    push_member(&mut members, "target_ssh_url", owned_text(scalar_field(target, "git_ssh_url")));
    Json::Object(members)
}

/// What is reported of a merge proposal, once both its repositories are answered.
pub open spec fn proposal_details_at(proposal: JsonView, replies: Seq<Reply>, at: int) -> Result<
    JsonView,
    ActionView,
> {
    match linked_at(proposal, "source_git_repository_link"@, replies, at) {
        Err(stop) => Err(stop),
        Ok(source) => match linked_at(proposal, "target_git_repository_link"@, replies, at + 1) {
            Err(stop) => Err(stop),
            Ok(target) => Ok(proposal_object(proposal, source, target)),
        },
    }
}

/// What is reported of a merge proposal, once both its repositories are answered.
pub fn proposal_details(proposal: &Json, replies: &Vec<Reply>, at: usize) -> (r: Result<Json, Action>)
    ensures
        value_step(r) == proposal_details_at(proposal@, replies@, at as int),
{
    let source = linked_resource(proposal, "source_git_repository_link", replies, at)?;
    assert(at < replies.len());
    let target = linked_resource(proposal, "target_git_repository_link", replies, at + 1)?;
    Ok(proposal_json(proposal, source, target))
}

/// What a checkout of a merge proposal needs.
#[derive(Debug)]
pub struct CheckoutSpec {
    pub id: String,
    pub source_ref: String,
    pub source_repository: String,
    pub source_https_url: Option<String>,
    pub source_ssh_url: Option<String>,
    pub target_https_url: Option<String>,
    pub target_ssh_url: Option<String>,
    pub web_link: Option<String>,
}

/// What a description of a checkout holds.
#[verifier::ext_equal]
pub struct CheckoutSpecView {
    pub id: Seq<char>,
    pub source_ref: Seq<char>,
    pub source_repository: Seq<char>,
    pub source_https_url: Option<Seq<char>>,
    pub source_ssh_url: Option<Seq<char>>,
    pub target_https_url: Option<Seq<char>>,
    pub target_ssh_url: Option<Seq<char>>,
    pub web_link: Option<Seq<char>>,
}

impl View for CheckoutSpec {
    type V = CheckoutSpecView;

    open spec fn view(&self) -> CheckoutSpecView {
        CheckoutSpecView {
            id: self.id@,
            source_ref: self.source_ref@,
            source_repository: self.source_repository@,
            source_https_url: opt_view(self.source_https_url),
            source_ssh_url: opt_view(self.source_ssh_url),
            target_https_url: opt_view(self.target_https_url),
            target_ssh_url: opt_view(self.target_ssh_url),
            web_link: opt_view(self.web_link),
        }
    }
}

/// What a step to the description of a checkout holds.
pub open spec fn spec_step(r: Result<CheckoutSpec, Action>) -> Result<CheckoutSpecView, ActionView> {
    match r {
        Ok(spec) => Ok(spec@),
        Err(action) => Err(action@),
    }
}

/// The description of the checkout of a merge proposal between two repositories.
pub open spec fn checkout_of(proposal: JsonView, source: JsonView, target: JsonView) -> Result<
    CheckoutSpecView,
    ErrorView,
> {
    match id_of(proposal) {
        None => Err(invalid("merge proposal has no ID"@)),
        Some(id) => match scalar_of(proposal, "source_git_path"@) {
            None => Err(invalid("merge proposal has no source ref"@)),
            Some(source_ref) => match scalar_of(source, "unique_name"@) {
                None => Err(invalid("merge proposal has no source repository"@)),
                Some(source_repository) => Ok(
                    CheckoutSpecView {
                        id,
                        source_ref,
                        source_repository,
                        source_https_url: scalar_of(source, "git_https_url"@),
                        source_ssh_url: scalar_of(source, "git_ssh_url"@),
                        target_https_url: scalar_of(target, "git_https_url"@),
                        target_ssh_url: scalar_of(target, "git_ssh_url"@),
                        web_link: scalar_of(proposal, "web_link"@),
                    },
                ),
            },
        },
    }
}

/// The description of the checkout of a merge proposal, once both its repositories are answered.
pub open spec fn checkout_spec_at(proposal: JsonView, replies: Seq<Reply>, at: int) -> Result<
    CheckoutSpecView,
    ActionView,
> {
    match linked_at(proposal, "source_git_repository_link"@, replies, at) {
        Err(stop) => Err(stop),
        Ok(source) => match linked_at(proposal, "target_git_repository_link"@, replies, at + 1) {
            Err(stop) => Err(stop),
            Ok(target) => crate::steps::or_fail(checkout_of(proposal, source, target)),
        },
    }
}

/// The description of the checkout of a merge proposal, once both its repositories are answered.
pub fn checkout_spec(proposal: &Json, replies: &Vec<Reply>, at: usize) -> (r: Result<
    CheckoutSpec,
    Action,
>)
    ensures
        spec_step(r) == checkout_spec_at(proposal@, replies@, at as int),
{
    let source = linked_resource(proposal, "source_git_repository_link", replies, at)?;
    assert(at < replies.len());
    let target = linked_resource(proposal, "target_git_repository_link", replies, at + 1)?;
    let id = match resource_id(proposal) {
        Some(id) => id,
        None => return Err(crate::steps::refuse("merge proposal has no ID")),
    };
    let source_ref = match scalar_field(proposal, "source_git_path") {
        Some(source_ref) => source_ref,
        None => return Err(crate::steps::refuse("merge proposal has no source ref")),
    };
    let source_repository = match scalar_field(source, "unique_name") {
        Some(source_repository) => source_repository,
        None => return Err(crate::steps::refuse("merge proposal has no source repository")),
    };
    Ok(
        CheckoutSpec {
            id,
            source_ref,
            source_repository,
            source_https_url: scalar_field(source, "git_https_url"),
            source_ssh_url: scalar_field(source, "git_ssh_url"),
            target_https_url: scalar_field(target, "git_https_url"),
            target_ssh_url: scalar_field(target, "git_ssh_url"),
            web_link: scalar_field(proposal, "web_link"),
        },
    )
}

} // verus!
