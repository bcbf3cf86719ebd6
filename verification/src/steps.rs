//! Operations as steps: what an operation asks for next, given the answers that it got so far.
//!
//! An operation is a function of its request and the answers. It either comes to its result, or
//! stops with an action: something to fetch, send or run, or the error that it fails with. The
//! answer to an action is appended to the answers, and the function is asked again.
use vstd::prelude::*;
use crate::error::{in_context, invalid, text_outcome, Error, ErrorView};
use crate::items::copy_items;
use crate::json::{items_view, Json, JsonView};
use crate::people::identity_view;
use crate::split::push_part;
use crate::text::{copy, copy_option, opt_view, views};
use crate::web::{copy_pairs, pairs_view, UrlQuery, UrlQueryView};

verus! {

/// Where a resource is fetched from: a URL as it stands, or one whose query is extended first.
pub enum Place {
    Url(String),
    Query(UrlQuery),
}

/// What a place holds.
#[verifier::ext_equal]
pub enum PlaceView {
    Url(Seq<char>),
    Query(UrlQueryView),
}

impl View for Place {
    type V = PlaceView;

    open spec fn view(&self) -> PlaceView {
        match *self {
            Place::Url(url) => PlaceView::Url(url@),
            Place::Query(query) => PlaceView::Query(query@),
        }
    }
}

/// What an operation stops with.
///
/// `Get` fetches one resource, `GetAll` a whole collection and `GetSome` its first entries.
/// `Find` searches a collection for a merge proposal. `Refs` lists the refs of a repository.
/// `People` fetches profiles. `Proposal` resolves a target to a merge proposal, `Lookup` finds
/// the proposal of a branch, and `Related` the proposals of a branch in each of some
/// repositories. `Checkout` inspects the working directory. `DiffText` and `File` download texts.
/// `Post` sends a form, and `Create` one that creates a resource. `Write` writes a value as JSON.
/// `Git` runs a command. `Directory` gives the absolute path of a directory, or of the working
/// directory, and `Worktree` that of a named place for checkouts. `Exists` and `Remove` look for
/// a directory and remove one.
pub enum Action {
    Get { place: Place },
    GetAll { place: Place },
    GetSome { place: Place, limit: usize },
    Find { url: String, id: u64 },
    Refs { repository: String },
    People { links: Vec<String> },
    Proposal { target: String },
    Lookup { repository: String, branch: String },
    Related { repositories: Vec<Json>, branch: String },
    Checkout,
    DiffText { link: String },
    File { place: Place, context: String },
    Post { url: String, pairs: Vec<(String, String)> },
    Create { url: String, pairs: Vec<(String, String)> },
    Write { value: Json },
    Git { arguments: Vec<String> },
    Directory { path: Option<String> },
    Worktree { name: String },
    Exists { directory: String },
    Remove { directory: String },
    Fail { error: Error },
}

/// What an action holds.
#[verifier::ext_equal]
pub enum ActionView {
    Get { place: PlaceView },
    GetAll { place: PlaceView },
    GetSome { place: PlaceView, limit: usize },
    Find { url: Seq<char>, id: u64 },
    Refs { repository: Seq<char> },
    People { links: Seq<Seq<char>> },
    Proposal { target: Seq<char> },
    Lookup { repository: Seq<char>, branch: Seq<char> },
    Related { repositories: Seq<JsonView>, branch: Seq<char> },
    Checkout,
    DiffText { link: Seq<char> },
    File { place: PlaceView, context: Seq<char> },
    Post { url: Seq<char>, pairs: Seq<(Seq<char>, Seq<char>)> },
    Create { url: Seq<char>, pairs: Seq<(Seq<char>, Seq<char>)> },
    Write { value: JsonView },
    Git { arguments: Seq<Seq<char>> },
    Directory { path: Option<Seq<char>> },
    Worktree { name: Seq<char> },
    Exists { directory: Seq<char> },
    Remove { directory: Seq<char> },
    Fail { error: ErrorView },
}

impl View for Action {
    type V = ActionView;

    open spec fn view(&self) -> ActionView {
        match *self {
            Action::Get { place } => ActionView::Get { place: place@ },
            Action::GetAll { place } => ActionView::GetAll { place: place@ },
            Action::GetSome { place, limit } => ActionView::GetSome { place: place@, limit },
            Action::Find { url, id } => ActionView::Find { url: url@, id },
            Action::Refs { repository } => ActionView::Refs { repository: repository@ },
            Action::People { links } => ActionView::People { links: views(links@) },
            Action::Proposal { target } => ActionView::Proposal { target: target@ },
            Action::Lookup { repository, branch } => ActionView::Lookup {
                repository: repository@,
                branch: branch@,
            },
            Action::Related { repositories, branch } => ActionView::Related {
                repositories: items_view(repositories@),
                branch: branch@,
            },
            Action::Checkout => ActionView::Checkout,
            Action::DiffText { link } => ActionView::DiffText { link: link@ },
            Action::File { place, context } => ActionView::File {
                place: place@,
                context: context@,
            },
            Action::Post { url, pairs } => ActionView::Post { url: url@, pairs: pairs_view(pairs@) },
            Action::Create { url, pairs } => ActionView::Create {
                url: url@,
                pairs: pairs_view(pairs@),
            },
            Action::Write { value } => ActionView::Write { value: value@ },
            Action::Git { arguments } => ActionView::Git { arguments: views(arguments@) },
            Action::Directory { path } => ActionView::Directory { path: opt_view(path) },
            Action::Worktree { name } => ActionView::Worktree { name: name@ },
            Action::Exists { directory } => ActionView::Exists { directory: directory@ },
            Action::Remove { directory } => ActionView::Remove { directory: directory@ },
            Action::Fail { error } => ActionView::Fail { error: error@ },
        }
    }
}

impl PlaceView {
    /// Whether the URL stays within what can be represented.
    pub open spec fn fits(self) -> bool {
        self matches PlaceView::Query(query) ==> query.fits()
    }

    /// The URL, or the error where the base of a query is none.
    pub open spec fn address(self) -> Result<Seq<char>, ErrorView> {
        match self {
            PlaceView::Url(url) => Ok(url),
            PlaceView::Query(query) => query.address(),
        }
    }
}

impl Place {
    /// Whether the URL stays within what can be represented.
    pub fn fits(&self) -> (r: bool)
        ensures
            r == self@.fits(),
    {
        match self {
            Place::Url(_) => true,
            Place::Query(query) => query.fits(),
        }
    }

    /// The URL, or the error where the base of a query is none.
    pub fn address(&self) -> (r: Result<String, Error>)
        requires
            self@.fits(),
        ensures
            text_outcome(r) == self@.address(),
    {
        match self {
            Place::Url(url) => Ok(copy(url.as_str())),
            Place::Query(query) => query.address(),
        }
    }

    /// A copy of the place.
    pub fn copy(&self) -> (r: Place)
        ensures
            r@ == self@,
    {
        match self {
            Place::Url(url) => Place::Url(copy(url.as_str())),
            Place::Query(query) => Place::Query(
                UrlQuery { base: copy(query.base.as_str()), pairs: copy_pairs(&query.pairs) },
            ),
        }
    }
}

fn copy_texts(texts: &Vec<String>) -> (r: Vec<String>)
    ensures
        views(r@) == views(texts@),
{
    let mut out: Vec<String> = Vec::new();
    assert(views(out@) =~= views(texts@).take(0));
    for i in 0..texts.len()
        invariant
            views(out@) == views(texts@).take(i as int),
    {
        push_part(&mut out, copy(texts[i].as_str()));
        assert(views(out@) =~= views(texts@).take(i + 1));
    }
    assert(views(texts@).take(texts@.len() as int) =~= views(texts@));
    out
}

impl Action {
    /// A copy of the action.
    pub fn copy(&self) -> (r: Action)
        ensures
            r@ == self@,
    {
        match self {
            Action::Get { place } => Action::Get { place: place.copy() },
            Action::GetAll { place } => Action::GetAll { place: place.copy() },
            Action::GetSome { place, limit } => Action::GetSome {
                place: place.copy(),
                limit: *limit,
            },
            Action::Find { url, id } => Action::Find { url: copy(url.as_str()), id: *id },
            Action::Refs { repository } => Action::Refs { repository: copy(repository.as_str()) },
            Action::People { links } => Action::People { links: copy_texts(links) },
            Action::Proposal { target } => Action::Proposal { target: copy(target.as_str()) },
            Action::Lookup { repository, branch } => Action::Lookup {
                repository: copy(repository.as_str()),
                branch: copy(branch.as_str()),
            },
            Action::Related { repositories, branch } => Action::Related {
                repositories: copy_items(repositories),
                branch: copy(branch.as_str()),
            },
            Action::Checkout => Action::Checkout,
            Action::DiffText { link } => Action::DiffText { link: copy(link.as_str()) },
            Action::File { place, context } => Action::File {
                place: place.copy(),
                context: copy(context.as_str()),
            },
            Action::Post { url, pairs } => Action::Post {
                url: copy(url.as_str()),
                pairs: copy_pairs(pairs),
            },
            Action::Create { url, pairs } => Action::Create {
                url: copy(url.as_str()),
                pairs: copy_pairs(pairs),
            },
            Action::Write { value } => Action::Write { value: value.copy() },
            Action::Git { arguments } => Action::Git { arguments: copy_texts(arguments) },
            Action::Directory { path } => Action::Directory { path: copy_option(path) },
            Action::Worktree { name } => Action::Worktree { name: copy(name.as_str()) },
            Action::Exists { directory } => Action::Exists { directory: copy(directory.as_str()) },
            Action::Remove { directory } => Action::Remove { directory: copy(directory.as_str()) },
            Action::Fail { error } => Action::Fail { error: error.copy() },
        }
    }
}

/// A ref of a repository.
pub struct GitRef {
    pub path: Option<String>,
    pub self_link: Option<String>,
}

/// What a ref holds.
#[verifier::ext_equal]
pub struct RefView {
    pub path: Option<Seq<char>>,
    pub self_link: Option<Seq<char>>,
}

impl View for GitRef {
    type V = RefView;

    open spec fn view(&self) -> RefView {
        RefView { path: opt_view(self.path), self_link: opt_view(self.self_link) }
    }
}

/// What a list of refs holds.
pub open spec fn refs_view(refs: Seq<GitRef>) -> Seq<RefView> {
    refs.map_values(|git_ref: GitRef| git_ref@)
}

/// A remote of a Git checkout.
pub struct Remote {
    pub name: String,
    pub url: String,
}

/// What a list of remotes holds: names and URLs.
pub open spec fn remotes_view(remotes: Seq<Remote>) -> Seq<(Seq<char>, Seq<char>)> {
    remotes.map_values(|remote: Remote| (remote.name@, remote.url@))
}

/// The Git checkout in the working directory, and the remote that names its repository.
pub struct Checkout {
    pub working_directory: String,
    pub branch: String,
    pub selected: Remote,
    pub remotes: Vec<Remote>,
}

/// What a checkout holds.
#[verifier::ext_equal]
pub struct CheckoutView {
    pub working_directory: Seq<char>,
    pub branch: Seq<char>,
    pub selected: (Seq<char>, Seq<char>),
    pub remotes: Seq<(Seq<char>, Seq<char>)>,
}

impl View for Checkout {
    type V = CheckoutView;

    open spec fn view(&self) -> CheckoutView {
        CheckoutView {
            working_directory: self.working_directory@,
            branch: self.branch@,
            selected: (self.selected.name@, self.selected.url@),
            remotes: remotes_view(self.remotes@),
        }
    }
}

/// The proposal that a lookup selected in a repository.
pub struct ProposalSelection {
    pub repository: Json,
    pub proposal: Json,
    pub alternatives: Vec<Json>,
    pub related_repository: bool,
    pub reason: String,
    pub candidate_count: usize,
}

/// What comes of looking for the proposal of a branch.
pub enum ProposalLookup {
    Found(ProposalSelection),
    Missing { repository: String, inspected_repositories: Vec<String> },
}

/// What a lookup holds.
#[verifier::ext_equal]
pub enum LookupView {
    Found {
        repository: JsonView,
        proposal: JsonView,
        alternatives: Seq<JsonView>,
        related_repository: bool,
        reason: Seq<char>,
        candidate_count: usize,
    },
    Missing { repository: Seq<char>, inspected_repositories: Seq<Seq<char>> },
}

impl View for ProposalLookup {
    type V = LookupView;

    open spec fn view(&self) -> LookupView {
        match *self {
            ProposalLookup::Found(selection) => LookupView::Found {
                repository: selection.repository@,
                proposal: selection.proposal@,
                alternatives: items_view(selection.alternatives@),
                related_repository: selection.related_repository,
                reason: selection.reason@,
                candidate_count: selection.candidate_count,
            },
            ProposalLookup::Missing { repository, inspected_repositories } => LookupView::Missing {
                repository: repository@,
                inspected_repositories: views(inspected_repositories@),
            },
        }
    }
}

/// The proposals of a branch in a related repository, or why they could not be fetched.
pub struct RelatedProposals {
    pub repository: Json,
    pub proposals: Result<Vec<Json>, Error>,
}

/// What the proposals of a branch in a related repository hold.
#[verifier::ext_equal]
pub struct RelatedView {
    pub repository: JsonView,
    pub proposals: Result<Seq<JsonView>, ErrorView>,
}

impl View for RelatedProposals {
    type V = RelatedView;

    open spec fn view(&self) -> RelatedView {
        RelatedView {
            repository: self.repository@,
            proposals: match self.proposals {
                Ok(proposals) => Ok(items_view(proposals@)),
                Err(error) => Err(error@),
            },
        }
    }
}

/// What the proposals of a branch in related repositories hold.
pub open spec fn related_view(related: Seq<RelatedProposals>) -> Seq<RelatedView> {
    related.map_values(|found: RelatedProposals| found@)
}

/// What a command left behind.
pub struct GitOutput {
    pub success: bool,
    pub status: String,
    pub stdout: Vec<u8>,
    pub stderr: Vec<u8>,
}

/// The answer to an action.
pub enum Reply {
    Json(Json),
    Entries(Vec<Json>),
    Found(Option<Json>),
    Refs(Vec<GitRef>),
    People(Vec<Option<Json>>),
    Lookup(ProposalLookup),
    Related(Vec<RelatedProposals>),
    Checkout(Checkout),
    Text(String),
    File { url: String, text: String },
    Output(GitOutput),
    Exists(bool),
    Done,
    Fault(Error),
}

/// What an answer holds.
#[verifier::ext_equal]
pub enum ReplyView {
    Json(JsonView),
    Entries(Seq<JsonView>),
    Found(Option<JsonView>),
    Refs(Seq<RefView>),
    People(Seq<Option<JsonView>>),
    Lookup(LookupView),
    Related(Seq<RelatedView>),
    Checkout(CheckoutView),
    Text(Seq<char>),
    File { url: Seq<char>, text: Seq<char> },
    Output { success: bool, status: Seq<char>, stdout: Seq<u8>, stderr: Seq<u8> },
    Exists(bool),
    Done,
    Fault(ErrorView),
}

impl View for Reply {
    type V = ReplyView;

    open spec fn view(&self) -> ReplyView {
        match *self {
            Reply::Json(value) => ReplyView::Json(value@),
            Reply::Entries(entries) => ReplyView::Entries(items_view(entries@)),
            Reply::Found(proposal) => ReplyView::Found(identity_view(proposal)),
            Reply::Refs(refs) => ReplyView::Refs(refs_view(refs@)),
            Reply::People(people) => ReplyView::People(
                people@.map_values(|person: Option<Json>| identity_view(person)),
            ),
            Reply::Lookup(lookup) => ReplyView::Lookup(lookup@),
            Reply::Related(related) => ReplyView::Related(related_view(related@)),
            Reply::Checkout(checkout) => ReplyView::Checkout(checkout@),
            Reply::Text(text) => ReplyView::Text(text@),
            Reply::File { url, text } => ReplyView::File { url: url@, text: text@ },
            Reply::Output(output) => ReplyView::Output {
                success: output.success,
                status: output.status@,
                stdout: output.stdout@,
                stderr: output.stderr@,
            },
            Reply::Exists(exists) => ReplyView::Exists(exists),
            Reply::Done => ReplyView::Done,
            Reply::Fault(error) => ReplyView::Fault(error@),
        }
    }
}

/// The action of failing with an error.
pub open spec fn fail(error: ErrorView) -> ActionView {
    ActionView::Fail { error }
}

/// The error where an answer does not fit the action.
pub open spec fn inconsistent() -> ErrorView {
    invalid("operation dispatch is inconsistent"@)
}

/// What an answer that is missing or does not fit stops an operation with: the action that asks
/// for it, the error that the action failed with, or the error that the answer does not fit.
pub open spec fn stop_at(replies: Seq<Reply>, at: int, ask: ActionView) -> ActionView {
    if !(0 <= at < replies.len()) {
        ask
    } else {
        match replies[at] {
            Reply::Fault(error) => fail(error@),
            _ => fail(inconsistent()),
        }
    }
}

/// The resource that an action was answered with.
pub open spec fn json_at(replies: Seq<Reply>, at: int, ask: ActionView) -> Result<
    JsonView,
    ActionView,
> {
    match (0 <= at < replies.len(), replies[at]) {
        (true, Reply::Json(value)) => Ok(value@),
        _ => Err(stop_at(replies, at, ask)),
    }
}

/// The entries that an action was answered with.
pub open spec fn entries_at(replies: Seq<Reply>, at: int, ask: ActionView) -> Result<
    Seq<JsonView>,
    ActionView,
> {
    match (0 <= at < replies.len(), replies[at]) {
        (true, Reply::Entries(entries)) => Ok(items_view(entries@)),
        _ => Err(stop_at(replies, at, ask)),
    }
}

/// The text that an action was answered with.
pub open spec fn text_at(replies: Seq<Reply>, at: int, ask: ActionView) -> Result<
    Seq<char>,
    ActionView,
> {
    match (0 <= at < replies.len(), replies[at]) {
        (true, Reply::Text(text)) => Ok(text@),
        _ => Err(stop_at(replies, at, ask)),
    }
}

/// That an action was carried out.
pub open spec fn done_at(replies: Seq<Reply>, at: int, ask: ActionView) -> Result<(), ActionView> {
    match (0 <= at < replies.len(), replies[at]) {
        (true, Reply::Done) => Ok(()),
        _ => Err(stop_at(replies, at, ask)),
    }
}

/// The refs that an action was answered with.
pub open spec fn refs_at(replies: Seq<Reply>, at: int, ask: ActionView) -> Result<
    Seq<RefView>,
    ActionView,
> {
    match (0 <= at < replies.len(), replies[at]) {
        (true, Reply::Refs(refs)) => Ok(refs_view(refs@)),
        _ => Err(stop_at(replies, at, ask)),
    }
}

/// The checkout that an action was answered with.
pub open spec fn checkout_at(replies: Seq<Reply>, at: int) -> Result<CheckoutView, ActionView> {
    match (0 <= at < replies.len(), replies[at]) {
        (true, Reply::Checkout(checkout)) => Ok(checkout@),
        _ => Err(stop_at(replies, at, ActionView::Checkout)),
    }
}

/// The lookup that an action was answered with.
pub open spec fn lookup_at(replies: Seq<Reply>, at: int, ask: ActionView) -> Result<
    LookupView,
    ActionView,
> {
    match (0 <= at < replies.len(), replies[at]) {
        (true, Reply::Lookup(lookup)) => Ok(lookup@),
        _ => Err(stop_at(replies, at, ask)),
    }
}

/// The outcome with its error as the action of failing.
pub open spec fn or_fail<T>(r: Result<T, ErrorView>) -> Result<T, ActionView> {
    match r {
        Ok(value) => Ok(value),
        Err(error) => Err(fail(error)),
    }
}

pub(crate) fn stop(replies: &Vec<Reply>, at: usize, ask: Action) -> (r: Action)
    ensures
        r@ == stop_at(replies@, at as int, ask@),
{
    if at >= replies.len() {
        return ask;
    }
    match &replies[at] {
        Reply::Fault(error) => Action::Fail { error: error.copy() },
        _ => Action::Fail { error: Error::invalid("operation dispatch is inconsistent") },
    }
}

/// The resource that an action was answered with.
pub fn json_reply<'reply>(replies: &'reply Vec<Reply>, at: usize, ask: Action) -> (r: Result<
    &'reply Json,
    Action,
>)
    ensures
        json_step(r) == json_at(replies@, at as int, ask@),
{
    if at < replies.len() {
        if let Reply::Json(value) = &replies[at] {
            return Ok(value);
        }
    }
    Err(stop(replies, at, ask))
}

/// The entries that an action was answered with.
pub fn entries_reply<'reply>(replies: &'reply Vec<Reply>, at: usize, ask: Action) -> (r: Result<
    &'reply Vec<Json>,
    Action,
>)
    ensures
        entries_step(r) == entries_at(replies@, at as int, ask@),
{
    if at < replies.len() {
        if let Reply::Entries(entries) = &replies[at] {
            return Ok(entries);
        }
    }
    Err(stop(replies, at, ask))
}

/// The text that an action was answered with.
pub fn text_reply<'reply>(replies: &'reply Vec<Reply>, at: usize, ask: Action) -> (r: Result<
    &'reply str,
    Action,
>)
    ensures
        str_step(r) == text_at(replies@, at as int, ask@),
{
    if at < replies.len() {
        if let Reply::Text(text) = &replies[at] {
            return Ok(text.as_str());
        }
    }
    Err(stop(replies, at, ask))
}

/// That an action was carried out.
pub fn done_reply(replies: &Vec<Reply>, at: usize, ask: Action) -> (r: Result<(), Action>)
    ensures
        unit_step(r) == done_at(replies@, at as int, ask@),
{
    if at < replies.len() {
        if let Reply::Done = &replies[at] {
            return Ok(());
        }
    }
    Err(stop(replies, at, ask))
}

/// The refs that an action was answered with.
pub fn refs_reply<'reply>(replies: &'reply Vec<Reply>, at: usize, ask: Action) -> (r: Result<
    &'reply Vec<GitRef>,
    Action,
>)
    ensures
        refs_step(r) == refs_at(replies@, at as int, ask@),
{
    if at < replies.len() {
        if let Reply::Refs(refs) = &replies[at] {
            return Ok(refs);
        }
    }
    Err(stop(replies, at, ask))
}

/// The checkout that an action was answered with.
pub fn checkout_reply<'reply>(replies: &'reply Vec<Reply>, at: usize) -> (r: Result<
    &'reply Checkout,
    Action,
>)
    ensures
        checkout_step(r) == checkout_at(replies@, at as int),
{
    if at < replies.len() {
        if let Reply::Checkout(checkout) = &replies[at] {
            return Ok(checkout);
        }
    }
    Err(stop(replies, at, Action::Checkout))
}

/// The lookup that an action was answered with.
pub fn lookup_reply<'reply>(replies: &'reply Vec<Reply>, at: usize, ask: Action) -> (r: Result<
    &'reply ProposalLookup,
    Action,
>)
    ensures
        lookup_step(r) == lookup_at(replies@, at as int, ask@),
{
    if at < replies.len() {
        if let Reply::Lookup(lookup) = &replies[at] {
            return Ok(lookup);
        }
    }
    Err(stop(replies, at, ask))
}

/// What a step to a borrowed resource holds.
pub open spec fn json_step(r: Result<&Json, Action>) -> Result<JsonView, ActionView> {
    match r {
        Ok(value) => Ok(value@),
        Err(action) => Err(action@),
    }
}

/// What a step to borrowed entries holds.
pub open spec fn entries_step(r: Result<&Vec<Json>, Action>) -> Result<Seq<JsonView>, ActionView> {
    match r {
        Ok(entries) => Ok(items_view(entries@)),
        Err(action) => Err(action@),
    }
}

/// What a step to a borrowed text holds.
pub open spec fn str_step(r: Result<&str, Action>) -> Result<Seq<char>, ActionView> {
    match r {
        Ok(text) => Ok(text@),
        Err(action) => Err(action@),
    }
}

/// What a step to a text holds.
pub open spec fn text_step(r: Result<String, Action>) -> Result<Seq<char>, ActionView> {
    match r {
        Ok(text) => Ok(text@),
        Err(action) => Err(action@),
    }
}

/// What a step without a value holds.
pub open spec fn unit_step(r: Result<(), Action>) -> Result<(), ActionView> {
    match r {
        Ok(_) => Ok(()),
        Err(action) => Err(action@),
    }
}

/// What a step to borrowed refs holds.
pub open spec fn refs_step(r: Result<&Vec<GitRef>, Action>) -> Result<Seq<RefView>, ActionView> {
    match r {
        Ok(refs) => Ok(refs_view(refs@)),
        Err(action) => Err(action@),
    }
}

/// What a step to a borrowed checkout holds.
pub open spec fn checkout_step(r: Result<&Checkout, Action>) -> Result<CheckoutView, ActionView> {
    match r {
        Ok(checkout) => Ok(checkout@),
        Err(action) => Err(action@),
    }
}

/// What a step to a borrowed lookup holds.
pub open spec fn lookup_step(r: Result<&ProposalLookup, Action>) -> Result<LookupView, ActionView> {
    match r {
        Ok(lookup) => Ok(lookup@),
        Err(action) => Err(action@),
    }
}

/// What a step to a resource holds.
pub open spec fn value_step(r: Result<Json, Action>) -> Result<JsonView, ActionView> {
    match r {
        Ok(value) => Ok(value@),
        Err(action) => Err(action@),
    }
}

/// What a step to a number holds.
pub open spec fn number_step(r: Result<u64, Action>) -> Result<u64, ActionView> {
    match r {
        Ok(value) => Ok(value),
        Err(action) => Err(action@),
    }
}

/// What a step to an answer holds.
pub open spec fn reply_step(r: Result<Reply, Action>) -> Result<ReplyView, ActionView> {
    match r {
        Ok(reply) => Ok(reply@),
        Err(action) => Err(action@),
    }
}

/// What a step to the result of an operation holds.
pub open spec fn result_step(r: Result<crate::response::OperationResult, Action>) -> Result<
    crate::response::ResultView,
    ActionView,
> {
    match r {
        Ok(result) => Ok(result@),
        Err(action) => Err(action@),
    }
}

/// The action of fetching a resource at a URL.
pub open spec fn get(url: Seq<char>) -> ActionView {
    ActionView::Get { place: PlaceView::Url(url) }
}

/// The action of fetching a resource at a URL.
pub fn get_url(url: &str) -> (r: Action)
    ensures
        r@ == get(url@),
{
    Action::Get { place: Place::Url(copy(url)) }
}

/// The action of fetching a whole collection at a URL.
pub open spec fn get_all(url: Seq<char>) -> ActionView {
    ActionView::GetAll { place: PlaceView::Url(url) }
}

/// The action of fetching a whole collection at a URL.
pub fn get_all_url(url: &str) -> (r: Action)
    ensures
        r@ == get_all(url@),
{
    Action::GetAll { place: Place::Url(copy(url)) }
}

/// The action of fetching the first entries of a collection at a URL.
pub open spec fn get_some(url: Seq<char>, limit: usize) -> ActionView {
    ActionView::GetSome { place: PlaceView::Url(url), limit }
}

/// The action of fetching the first entries of a collection at a URL.
pub fn get_some_url(url: &str, limit: usize) -> (r: Action)
    ensures
        r@ == get_some(url@, limit),
{
    Action::GetSome { place: Place::Url(copy(url)), limit }
}

/// The action of failing with an invalid request.
pub fn refuse(reason: &str) -> (r: Action)
    ensures
        r@ == fail(invalid(reason@)),
{
    Action::Fail { error: Error::invalid(reason) }
}

/// The action with what was being done, where it is the failure with an error.
pub open spec fn in_context_of(action: ActionView, context: Seq<char>) -> ActionView {
    match action {
        ActionView::Fail { error } => fail(in_context(context, error)),
        _ => action,
    }
}

/// The step with what was being done, where it stops with an error.
pub open spec fn contextual<T>(step: Result<T, ActionView>, context: Seq<char>) -> Result<
    T,
    ActionView,
> {
    match step {
        Ok(value) => Ok(value),
        Err(action) => Err(in_context_of(action, context)),
    }
}

/// The step with what was being done, where it stops with an error.
pub fn with_context<T>(step: Result<T, Action>, context: &str) -> (r: Result<T, Action>)
    ensures
        (step matches Ok(value) ==> r == Ok::<T, Action>(value)),
        (step matches Err(action) ==> r is Err && r->Err_0@ == in_context_of(action@, context@)),
{
    match step {
        Ok(value) => Ok(value),
        Err(Action::Fail { error }) => Err(Action::Fail { error: Error::context(context, error) }),
        Err(action) => Err(action),
    }
}

} // verus!
