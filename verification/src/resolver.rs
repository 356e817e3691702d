//! Which policies belong to an entity, and how their documents are gathered.
//!
//! The library talks to no service. It says which request comes next, the
//! caller performs it and hands the answer back, until the policies of the
//! entity stand paired with their documents:
//!
//! * for a role, its managed policies and then its inline policies;
//! * for a user, the same, then the managed policies of each of its groups,
//!   then the inline policies of each group.
//!
//! Documents are asked for in batches. The caller may fetch a batch in any
//! order it likes, but answers with the documents in the order of the
//! requests: that is what keeps each name with its own document.

use vstd::prelude::*;

use crate::document::{documents_view, PolicyDocument, PolicyDocumentView};
use crate::entity::{Entity, EntityType};
use crate::policy::{
    all_named, attached_policy_names, attached_view, names_of, optional_text, pair_policies,
    paired, AttachedPolicy, AttachedPolicyView,
};
use crate::text::texts;

verus! {

/// Who a policy hangs on.
#[derive(Clone, Copy, Debug, PartialEq, Eq, Structural)]
pub enum Owner {
    User,
    Role,
    Group,
}

/// One read request to the service.
#[derive(Debug, PartialEq, Eq)]
pub enum Request {
    /// The managed policies attached to `name`.
    AttachedPolicies { owner: Owner, name: String },
    /// The names of the inline policies of `name`.
    PolicyNames { owner: Owner, name: String },
    /// The names of the groups that the user belongs to.
    GroupsForUser { user_name: String },
    /// The document of the default version of a managed policy.
    ManagedDocument { policy_arn: Option<String> },
    /// The document of the inline policy `policy_name` of `name`.
    InlineDocument { owner: Owner, name: String, policy_name: String },
}

/// What a [`Request`] stands for.
pub enum RequestView {
    AttachedPolicies { owner: Owner, name: Seq<char> },
    PolicyNames { owner: Owner, name: Seq<char> },
    GroupsForUser { user_name: Seq<char> },
    ManagedDocument { policy_arn: Option<Seq<char>> },
    InlineDocument { owner: Owner, name: Seq<char>, policy_name: Seq<char> },
}

impl View for Request {
    type V = RequestView;

    open spec fn view(&self) -> RequestView {
        match self {
            Request::AttachedPolicies { owner, name } => RequestView::AttachedPolicies {
                owner: *owner,
                name: name@,
            },
            Request::PolicyNames { owner, name } => RequestView::PolicyNames {
                owner: *owner,
                name: name@,
            },
            Request::GroupsForUser { user_name } => RequestView::GroupsForUser {
                user_name: user_name@,
            },
            Request::ManagedDocument { policy_arn } => RequestView::ManagedDocument {
                policy_arn: optional_text(*policy_arn),
            },
            Request::InlineDocument { owner, name, policy_name } => RequestView::InlineDocument {
                owner: *owner,
                name: name@,
                policy_name: policy_name@,
            },
        }
    }
}

/// The views of a sequence of requests.
pub open spec fn requests_view(requests: Seq<Request>) -> Seq<RequestView> {
    Seq::new(requests.len(), |i: int| requests[i]@)
}

/// The answer to what was asked last.
#[derive(Debug, PartialEq, Eq)]
pub enum Event {
    /// The answer to [`Request::AttachedPolicies`].
    AttachedPolicies(Vec<AttachedPolicy>),
    /// The answer to [`Request::PolicyNames`] and [`Request::GroupsForUser`].
    Names(Vec<String>),
    /// The answer to a batch of document requests: one document for each
    /// request, in the order of the requests.
    Documents(Vec<String>),
}

/// What an [`Event`] stands for.
pub enum EventView {
    AttachedPolicies(Seq<AttachedPolicyView>),
    Names(Seq<Seq<char>>),
    Documents(Seq<Seq<char>>),
}

impl View for Event {
    type V = EventView;

    open spec fn view(&self) -> EventView {
        match self {
            Event::AttachedPolicies(policies) => EventView::AttachedPolicies(
                attached_view(policies@),
            ),
            Event::Names(names) => EventView::Names(texts(names@)),
            Event::Documents(documents) => EventView::Documents(texts(documents@)),
        }
    }
}

/// What the caller does next.
#[derive(Debug, PartialEq, Eq)]
pub enum Step {
    /// Perform one listing request and answer with what it lists.
    List(Request),
    /// Fetch these documents and answer with them in this order.
    Fetch(Vec<Request>),
    /// Nothing: these are the policies of the entity.
    Done(Vec<PolicyDocument>),
}

/// What a [`Step`] stands for.
pub enum StepView {
    List(RequestView),
    Fetch(Seq<RequestView>),
    Done(Seq<PolicyDocumentView>),
}

impl View for Step {
    type V = StepView;

    open spec fn view(&self) -> StepView {
        match self {
            Step::List(request) => StepView::List(request@),
            Step::Fetch(requests) => StepView::Fetch(requests_view(requests@)),
            Step::Done(policies) => StepView::Done(documents_view(policies@)),
        }
    }
}

/// Why a resolution cannot go on.
#[derive(Clone, Copy, Debug, PartialEq, Eq, Structural)]
pub enum ResolveError {
    /// The event does not answer what was asked.
    UnexpectedEvent,
    /// A managed policy was listed without a name.
    MissingPolicyName,
    /// There are not as many documents as were asked for.
    DocumentCount,
    /// The resolution has ended already.
    Finished,
}

/// What a resolution is waiting for.
#[derive(Clone, Copy, Debug, PartialEq, Eq, Structural)]
pub enum Stage {
    /// The managed policies of the entity.
    ManagedList,
    /// Their documents.
    ManagedDocuments,
    /// The names of the inline policies of the entity.
    InlineList,
    /// Their documents.
    InlineDocuments,
    /// The groups of the user.
    GroupList,
    /// The managed policies of the group at this index.
    GroupManagedList(usize),
    /// The documents of the managed policies of all groups.
    GroupManagedDocuments,
    /// The names of the inline policies of the group at this index.
    GroupInlineList(usize),
    /// Their documents.
    GroupInlineDocuments(usize),
    /// Nothing: the resolution has ended.
    Finished,
}

/// The state of a resolution.
#[derive(Debug)]
pub struct Resolver {
    entity_type: EntityType,
    entity_name: String,
    stage: Stage,
    names: Vec<String>,
    documents: Vec<String>,
    pending: Vec<String>,
    queued: Vec<Request>,
    groups: Vec<String>,
}

/// What a [`Resolver`] stands for.
pub struct ResolverView {
    pub entity_type: EntityType,
    pub entity_name: Seq<char>,
    pub stage: Stage,
    /// The names of the policies whose documents are in.
    pub names: Seq<Seq<char>>,
    /// Their documents, place by place.
    pub documents: Seq<Seq<char>>,
    /// The names of the policies whose documents have been asked for or are
    /// about to be.
    pub pending: Seq<Seq<char>>,
    /// The document requests that wait for the listing of the groups to end.
    pub queued: Seq<RequestView>,
    /// The groups of the user.
    pub groups: Seq<Seq<char>>,
}

/// The owner that an entity type is.
pub open spec fn owner_of(entity_type: EntityType) -> Owner {
    match entity_type {
        EntityType::User => Owner::User,
        EntityType::Role => Owner::Role,
    }
}

/// The document requests for a listing of managed policies, in its order.
pub open spec fn managed_requests(policies: Seq<AttachedPolicyView>) -> Seq<RequestView> {
    Seq::new(
        policies.len(),
        |i: int| RequestView::ManagedDocument { policy_arn: policies[i].policy_arn },
    )
}

/// The document requests for the inline policies of `name`, in the order of
/// their names.
pub open spec fn inline_requests(owner: Owner, name: Seq<char>, policy_names: Seq<Seq<char>>) -> Seq<
    RequestView,
> {
    Seq::new(
        policy_names.len(),
        |i: int| RequestView::InlineDocument { owner, name, policy_name: policy_names[i] },
    )
}

/// The state and the first step of the resolution of an entity.
pub open spec fn started(entity_type: EntityType, entity_name: Seq<char>) -> (
    ResolverView,
    StepView,
) {
    (
        ResolverView {
            entity_type,
            entity_name,
            stage: Stage::ManagedList,
            names: Seq::empty(),
            documents: Seq::empty(),
            pending: Seq::empty(),
            queued: Seq::empty(),
            groups: Seq::empty(),
        },
        StepView::List(
            RequestView::AttachedPolicies { owner: owner_of(entity_type), name: entity_name },
        ),
    )
}

/// The state once the documents of the pending policies are in: each pending
/// name is kept with the document at its place.
pub open spec fn with_documents(state: ResolverView, documents: Seq<Seq<char>>) -> ResolverView {
    ResolverView {
        names: state.names + state.pending,
        documents: state.documents + documents,
        pending: Seq::empty(),
        ..state
    }
}

/// The end of a resolution: every name with its document.
pub open spec fn finished(state: ResolverView) -> (ResolverView, StepView) {
    (
        ResolverView { stage: Stage::Finished, ..state },
        StepView::Done(paired(state.names, state.documents)),
    )
}

/// Goes on with the managed policies of the group at `index`, or, past the
/// last group, with the documents of all that were listed.
pub open spec fn group_managed_from(state: ResolverView, index: usize) -> (ResolverView, StepView) {
    if index < state.groups.len() {
        (
            ResolverView { stage: Stage::GroupManagedList(index), ..state },
            StepView::List(
                RequestView::AttachedPolicies {
                    owner: Owner::Group,
                    name: state.groups[index as int],
                },
            ),
        )
    } else {
        (
            ResolverView { stage: Stage::GroupManagedDocuments, queued: Seq::empty(), ..state },
            StepView::Fetch(state.queued),
        )
    }
}

/// Goes on with the inline policies of the group at `index`, or, past the
/// last group, ends the resolution.
pub open spec fn group_inline_from(state: ResolverView, index: usize) -> (ResolverView, StepView) {
    if index < state.groups.len() {
        (
            ResolverView { stage: Stage::GroupInlineList(index), ..state },
            StepView::List(
                RequestView::PolicyNames { owner: Owner::Group, name: state.groups[index as int] },
            ),
        )
    } else {
        finished(state)
    }
}

/// What follows the documents of the pending policies.
pub open spec fn after_documents(state: ResolverView) -> (ResolverView, StepView) {
    match state.stage {
        Stage::ManagedDocuments => (
            ResolverView { stage: Stage::InlineList, ..state },
            StepView::List(
                RequestView::PolicyNames {
                    owner: owner_of(state.entity_type),
                    name: state.entity_name,
                },
            ),
        ),
        Stage::InlineDocuments => match state.entity_type {
            EntityType::Role => finished(state),
            EntityType::User => (
                ResolverView { stage: Stage::GroupList, ..state },
                StepView::List(RequestView::GroupsForUser { user_name: state.entity_name }),
            ),
        },
        Stage::GroupManagedDocuments => group_inline_from(state, 0),
        Stage::GroupInlineDocuments(index) => group_inline_from(state, (index + 1) as usize),
        _ => finished(state),
    }
}

/// What follows a listing of managed policies that all have names.
pub open spec fn after_attached(state: ResolverView, policies: Seq<AttachedPolicyView>) -> (
    ResolverView,
    StepView,
) {
    match state.stage {
        Stage::GroupManagedList(index) => group_managed_from(
            ResolverView {
                pending: state.pending + names_of(policies),
                queued: state.queued + managed_requests(policies),
                ..state
            },
            (index + 1) as usize,
        ),
        _ => (
            ResolverView { stage: Stage::ManagedDocuments, pending: names_of(policies), ..state },
            StepView::Fetch(managed_requests(policies)),
        ),
    }
}

/// What follows a listing of names.
pub open spec fn after_names(state: ResolverView, names: Seq<Seq<char>>) -> (
    ResolverView,
    StepView,
) {
    match state.stage {
        Stage::GroupList => group_managed_from(ResolverView { groups: names, ..state }, 0),
        Stage::GroupInlineList(index) => (
            ResolverView { stage: Stage::GroupInlineDocuments(index), pending: names, ..state },
            StepView::Fetch(inline_requests(Owner::Group, state.groups[index as int], names)),
        ),
        _ => (
            ResolverView { stage: Stage::InlineDocuments, pending: names, ..state },
            StepView::Fetch(
                inline_requests(owner_of(state.entity_type), state.entity_name, names),
            ),
        ),
    }
}

/// Whether the stage waits for a listing of managed policies.
pub open spec fn awaits_attached(stage: Stage) -> bool {
    stage is ManagedList || stage is GroupManagedList
}

/// Whether the stage waits for a listing of names.
pub open spec fn awaits_names(stage: Stage) -> bool {
    stage is InlineList || stage is GroupList || stage is GroupInlineList
}

/// Whether the stage waits for documents.
pub open spec fn awaits_documents(stage: Stage) -> bool {
    stage is ManagedDocuments || stage is InlineDocuments || stage is GroupManagedDocuments
        || stage is GroupInlineDocuments
}

/// The state and the step that follow `event` in `state`, or why the
/// resolution cannot go on.
pub open spec fn stepped(state: ResolverView, event: EventView) -> Result<
    (ResolverView, StepView),
    ResolveError,
> {
    if state.stage is Finished {
        Err(ResolveError::Finished)
    } else {
        match event {
            EventView::AttachedPolicies(policies) => if !awaits_attached(state.stage) {
                Err(ResolveError::UnexpectedEvent)
            } else if !all_named(policies) {
                Err(ResolveError::MissingPolicyName)
            } else {
                Ok(after_attached(state, policies))
            },
            EventView::Names(names) => if !awaits_names(state.stage) {
                Err(ResolveError::UnexpectedEvent)
            } else {
                Ok(after_names(state, names))
            },
            EventView::Documents(documents) => if !awaits_documents(state.stage) {
                Err(ResolveError::UnexpectedEvent)
            } else if documents.len() != state.pending.len() {
                Err(ResolveError::DocumentCount)
            } else {
                Ok(after_documents(with_documents(state, documents)))
            },
        }
    }
}

/// A copy of a string that may be missing.
fn clone_optional(text: &Option<String>) -> (copy: Option<String>)
    ensures
        optional_text(copy) == optional_text(*text),
{
    match text {
        Some(t) => Some(t.clone()),
        None => None,
    }
}

/// The owner that an entity type is.
fn entity_owner(entity_type: EntityType) -> (owner: Owner)
    ensures
        owner == owner_of(entity_type),
{
    match entity_type {
        EntityType::User => Owner::User,
        EntityType::Role => Owner::Role,
    }
}

/// The document requests for a listing of managed policies.
fn managed_document_requests(policies: &Vec<AttachedPolicy>) -> (requests: Vec<Request>)
    ensures
        requests_view(requests@) == managed_requests(attached_view(policies@)),
{
    let mut requests: Vec<Request> = Vec::new();
    let mut i: usize = 0;
    while i < policies.len()
        invariant
            i <= policies.len(),
            requests@.len() == i,
            forall|k: int|
                0 <= k < i ==> (#[trigger] requests@[k])@ == managed_requests(
                    attached_view(policies@),
                )[k],
        decreases policies.len() - i,
    {
        requests.push(Request::ManagedDocument { policy_arn: clone_optional(&policies[i].policy_arn) });
        i += 1;
    }
    assert(requests_view(requests@) =~= managed_requests(attached_view(policies@)));
    requests
}

/// The document requests for the inline policies of `name`.
fn inline_document_requests(owner: Owner, name: &String, policy_names: &Vec<String>) -> (requests:
    Vec<Request>)
    ensures
        requests_view(requests@) == inline_requests(owner, name@, texts(policy_names@)),
{
    let mut requests: Vec<Request> = Vec::new();
    let mut i: usize = 0;
    while i < policy_names.len()
        invariant
            i <= policy_names.len(),
            requests@.len() == i,
            forall|k: int|
                0 <= k < i ==> (#[trigger] requests@[k])@ == inline_requests(
                    owner,
                    name@,
                    texts(policy_names@),
                )[k],
        decreases policy_names.len() - i,
    {
        requests.push(
            Request::InlineDocument {
                owner,
                name: name.clone(),
                policy_name: policy_names[i].clone(),
            },
        );
        i += 1;
    }
    assert(requests_view(requests@) =~= inline_requests(owner, name@, texts(policy_names@)));
    requests
}

impl View for Resolver {
    type V = ResolverView;

    closed spec fn view(&self) -> ResolverView {
        ResolverView {
            entity_type: self.entity_type,
            entity_name: self.entity_name@,
            stage: self.stage,
            names: texts(self.names@),
            documents: texts(self.documents@),
            pending: texts(self.pending@),
            queued: requests_view(self.queued@),
            groups: texts(self.groups@),
        }
    }
}

impl Resolver {
    /// There is a document for every name, and a stage that speaks of a
    /// group speaks of one that the user has.
    #[verifier::type_invariant]
    spec fn well_formed(self) -> bool {
        &&& self.names@.len() == self.documents@.len()
        &&& match self.stage {
            Stage::GroupManagedList(index) => index < self.groups@.len(),
            Stage::GroupInlineList(index) => index < self.groups@.len(),
            Stage::GroupInlineDocuments(index) => index < self.groups@.len(),
            _ => true,
        }
    }

    /// Begins the resolution of `entity`: the first step asks for its
    /// managed policies.
    pub fn start(entity: Entity) -> (begun: (Resolver, Step))
        ensures
            (begun.0@, begun.1@) == started(entity.entity_type, entity.name@),
    {
        let request = Request::AttachedPolicies {
            owner: entity_owner(entity.entity_type),
            name: entity.name.clone(),
        };
        let resolver = Resolver {
            entity_type: entity.entity_type,
            entity_name: entity.name,
            stage: Stage::ManagedList,
            names: Vec::new(),
            documents: Vec::new(),
            pending: Vec::new(),
            queued: Vec::new(),
            groups: Vec::new(),
        };
        assert(resolver@.names =~= Seq::empty());
        assert(resolver@.documents =~= Seq::empty());
        assert(resolver@.pending =~= Seq::empty());
        assert(resolver@.queued =~= Seq::empty());
        assert(resolver@.groups =~= Seq::empty());
        (resolver, Step::List(request))
    }

    /// What the resolution is waiting for.
    pub fn stage(&self) -> (stage: Stage)
        ensures
            stage == self@.stage,
    {
        self.stage
    }

    /// Takes the answer to the last step and says what comes next.
    ///
    /// It fails, and the resolution with it, where the event is not the kind
    /// of answer that the stage waits for, where a managed policy comes
    /// without a name, where the documents are not as many as were asked
    /// for, and after the end.
    pub fn step(self, event: Event) -> (result: Result<(Resolver, Step), ResolveError>)
        ensures
            result matches Ok(next) ==> stepped(self@, event@) == Ok::<
                (ResolverView, StepView),
                ResolveError,
            >((next.0@, next.1@)),
            result matches Err(error) ==> stepped(self@, event@) == Err::<
                (ResolverView, StepView),
                ResolveError,
            >(error),
    {
        match self.stage {
            Stage::Finished => {
                return Err(ResolveError::Finished);
            },
            _ => {},
        }
        match event {
            Event::AttachedPolicies(policies) => self.attached(policies),
            Event::Names(names) => self.named(names),
            Event::Documents(documents) => self.documented(documents),
        }
    }

    /// Ends the resolution with every name beside its document.
    fn finish(self) -> (ended: (Resolver, Step))
        ensures
            (ended.0@, ended.1@) == finished(self@),
    {
        proof {
            use_type_invariant(&self);
        }
        let pairs = pair_policies(&self.names, &self.documents);
        let resolver = Resolver { stage: Stage::Finished, ..self };
        (resolver, Step::Done(pairs))
    }

    /// Goes on with the managed policies of the group at `index`.
    fn group_managed(self, index: usize) -> (next: (Resolver, Step))
        ensures
            (next.0@, next.1@) == group_managed_from(self@, index),
    {
        proof {
            use_type_invariant(&self);
        }
        if index < self.groups.len() {
            let request = Request::AttachedPolicies {
                owner: Owner::Group,
                name: self.groups[index].clone(),
            };
            let resolver = Resolver { stage: Stage::GroupManagedList(index), ..self };
            (resolver, Step::List(request))
        } else {
            let resolver = Resolver {
                stage: Stage::GroupManagedDocuments,
                queued: Vec::new(),
                ..self
            };
            assert(resolver@.queued =~= Seq::empty());
            (resolver, Step::Fetch(self.queued))
        }
    }

    /// Goes on with the inline policies of the group at `index`.
    fn group_inline(self, index: usize) -> (next: (Resolver, Step))
        ensures
            (next.0@, next.1@) == group_inline_from(self@, index),
    {
        proof {
            use_type_invariant(&self);
        }
        if index < self.groups.len() {
            let request = Request::PolicyNames {
                owner: Owner::Group,
                name: self.groups[index].clone(),
            };
            let resolver = Resolver { stage: Stage::GroupInlineList(index), ..self };
            (resolver, Step::List(request))
        } else {
            self.finish()
        }
    }

    /// Takes a listing of managed policies.
    fn attached(self, policies: Vec<AttachedPolicy>) -> (result: Result<
        (Resolver, Step),
        ResolveError,
    >)
        requires
            !(self@.stage is Finished),
        ensures
            result matches Ok(next) ==> stepped(
                self@,
                EventView::AttachedPolicies(attached_view(policies@)),
            ) == Ok::<(ResolverView, StepView), ResolveError>((next.0@, next.1@)),
            result matches Err(error) ==> stepped(
                self@,
                EventView::AttachedPolicies(attached_view(policies@)),
            ) == Err::<(ResolverView, StepView), ResolveError>(error),
    {
        proof {
            use_type_invariant(&self);
        }
        let group_count: usize = self.groups.len();
        let group: Option<usize> = match self.stage {
            Stage::ManagedList => None,
            Stage::GroupManagedList(index) => Some(index),
            _ => {
                return Err(ResolveError::UnexpectedEvent);
            },
        };
        let mut names = match attached_policy_names(&policies) {
            None => {
                return Err(ResolveError::MissingPolicyName);
            },
            Some(names) => names,
        };
        let mut requests = managed_document_requests(&policies);
        match group {
            None => {
                let resolver = Resolver { stage: Stage::ManagedDocuments, pending: names, ..self };
                Ok((resolver, Step::Fetch(requests)))
            },
            Some(index) => {
                let ghost listed = names_of(attached_view(policies@));
                let ghost asked = managed_requests(attached_view(policies@));
                let ghost before = self@;
                let mut pending = self.pending;
                let mut queued = self.queued;
                pending.append(&mut names);
                queued.append(&mut requests);
                assert(texts(pending@) =~= before.pending + listed);
                assert(requests_view(queued@) =~= before.queued + asked);
                let resolver = Resolver {
                    pending,
                    queued,
                    ..self
                };
                assert(index < group_count);
                Ok(resolver.group_managed(index + 1))
            },
        }
    }

    /// Takes a listing of names.
    fn named(self, names: Vec<String>) -> (result: Result<(Resolver, Step), ResolveError>)
        requires
            !(self@.stage is Finished),
        ensures
            result matches Ok(next) ==> stepped(self@, EventView::Names(texts(names@))) == Ok::<
                (ResolverView, StepView),
                ResolveError,
            >((next.0@, next.1@)),
            result matches Err(error) ==> stepped(self@, EventView::Names(texts(names@))) == Err::<
                (ResolverView, StepView),
                ResolveError,
            >(error),
    {
        proof {
            use_type_invariant(&self);
        }
        match self.stage {
            Stage::InlineList => {
                let requests = inline_document_requests(
                    entity_owner(self.entity_type),
                    &self.entity_name,
                    &names,
                );
                let resolver = Resolver { stage: Stage::InlineDocuments, pending: names, ..self };
                Ok((resolver, Step::Fetch(requests)))
            },
            Stage::GroupList => {
                let resolver = Resolver { stage: Stage::GroupList, groups: names, ..self };
                Ok(resolver.group_managed(0))
            },
            Stage::GroupInlineList(index) => {
                let requests = inline_document_requests(Owner::Group, &self.groups[index], &names);
                let resolver = Resolver {
                    stage: Stage::GroupInlineDocuments(index),
                    pending: names,
                    ..self
                };
                Ok((resolver, Step::Fetch(requests)))
            },
            _ => Err(ResolveError::UnexpectedEvent),
        }
    }

    /// Takes the documents of the pending policies.
    fn documented(self, documents: Vec<String>) -> (result: Result<
        (Resolver, Step),
        ResolveError,
    >)
        requires
            !(self@.stage is Finished),
        ensures
            result matches Ok(next) ==> stepped(self@, EventView::Documents(texts(documents@)))
                == Ok::<(ResolverView, StepView), ResolveError>((next.0@, next.1@)),
            result matches Err(error) ==> stepped(self@, EventView::Documents(texts(documents@)))
                == Err::<(ResolverView, StepView), ResolveError>(error),
    {
        proof {
            use_type_invariant(&self);
        }
        match self.stage {
            Stage::ManagedDocuments => {},
            Stage::InlineDocuments => {},
            Stage::GroupManagedDocuments => {},
            Stage::GroupInlineDocuments(_) => {},
            _ => {
                return Err(ResolveError::UnexpectedEvent);
            },
        }
        if documents.len() != self.pending.len() {
            return Err(ResolveError::DocumentCount);
        }
        let ghost before = self@;
        let ghost arrived = texts(documents@);
        let group_count: usize = self.groups.len();
        let stage = self.stage;
        let entity_type = self.entity_type;
        let mut names = self.names;
        let mut pending = self.pending;
        let mut all_documents = self.documents;
        let mut documents = documents;
        names.append(&mut pending);
        all_documents.append(&mut documents);
        assert(texts(names@) =~= before.names + before.pending);
        assert(texts(all_documents@) =~= before.documents + arrived);
        assert(texts(pending@) =~= Seq::empty());
        let resolver = Resolver {
            entity_type,
            stage,
            names,
            documents: all_documents,
            pending,
            ..self
        };
        assert(resolver@ == with_documents(before, arrived));
        match stage {
            Stage::ManagedDocuments => {
                let request = Request::PolicyNames {
                    owner: entity_owner(entity_type),
                    name: resolver.entity_name.clone(),
                };
                let next = Resolver { stage: Stage::InlineList, ..resolver };
                Ok((next, Step::List(request)))
            },
            Stage::InlineDocuments => match entity_type {
                EntityType::Role => Ok(resolver.finish()),
                EntityType::User => {
                    let request = Request::GroupsForUser {
                        user_name: resolver.entity_name.clone(),
                    };
                    let next = Resolver { stage: Stage::GroupList, ..resolver };
                    Ok((next, Step::List(request)))
                },
            },
            Stage::GroupManagedDocuments => Ok(resolver.group_inline(0)),
            Stage::GroupInlineDocuments(index) => {
                assert(index < group_count);
                Ok(resolver.group_inline(index + 1))
            },
            _ => Ok(resolver.finish()),
        }
    }
}

/// What follows `event` once `reached` has been reached; a resolution that
/// has failed stays failed.
pub open spec fn and_then_event(
    reached: Result<(ResolverView, StepView), ResolveError>,
    event: EventView,
) -> Result<(ResolverView, StepView), ResolveError> {
    match reached {
        Ok(so_far) => stepped(so_far.0, event),
        Err(error) => Err(error),
    }
}

/// No step loses or moves a pair: where every name has its document before
/// a step, every name has its document after it, and the names and the
/// documents that were there stand where they stood. What a step hands out
/// as done is every name with the document at its place.
pub proof fn lemma_step_keeps_pairs(state: ResolverView, event: EventView)
    requires
        state.names.len() == state.documents.len(),
        stepped(state, event) is Ok,
    ensures
        ({
            let next = stepped(state, event).unwrap();
            &&& next.0.names.len() == next.0.documents.len()
            &&& state.names.len() <= next.0.names.len()
            &&& next.0.names.subrange(0, state.names.len() as int) == state.names
            &&& next.0.documents.subrange(0, state.names.len() as int) == state.documents
            &&& next.1 matches StepView::Done(pairs) ==> pairs == paired(
                next.0.names,
                next.0.documents,
            )
        }),
{
    let next = stepped(state, event).unwrap();
    assert(next.0.names.subrange(0, state.names.len() as int) =~= state.names);
    assert(next.0.documents.subrange(0, state.names.len() as int) =~= state.documents);
}

/// The policies of a role are its managed policies followed by its inline
/// policies, each name with the document that was handed in at its place.
pub proof fn lemma_role_policies(
    role_name: Seq<char>,
    managed: Seq<AttachedPolicyView>,
    managed_documents: Seq<Seq<char>>,
    inline_names: Seq<Seq<char>>,
    inline_documents: Seq<Seq<char>>,
)
    requires
        all_named(managed),
        managed_documents.len() == managed.len(),
        inline_documents.len() == inline_names.len(),
    ensures
        and_then_event(
            and_then_event(
                and_then_event(
                    stepped(
                        started(EntityType::Role, role_name).0,
                        EventView::AttachedPolicies(managed),
                    ),
                    EventView::Documents(managed_documents),
                ),
                EventView::Names(inline_names),
            ),
            EventView::Documents(inline_documents),
        ) matches Ok(end) && end.1 == StepView::Done(
            paired(names_of(managed) + inline_names, managed_documents + inline_documents),
        ),
{
    let begun = started(EntityType::Role, role_name).0;
    let listed = stepped(begun, EventView::AttachedPolicies(managed));
    let fetched = and_then_event(listed, EventView::Documents(managed_documents));
    assert(fetched is Ok);
    let named = and_then_event(fetched, EventView::Names(inline_names));
    assert(named is Ok);
    let end = and_then_event(named, EventView::Documents(inline_documents));
    assert(end is Ok);
    assert(end.unwrap().0.names =~= names_of(managed) + inline_names);
    assert(end.unwrap().0.documents =~= managed_documents + inline_documents);
}

/// The policies of a user that belongs to no group are its managed policies
/// followed by its inline policies, each name with the document that was
/// handed in at its place.
pub proof fn lemma_user_without_groups(
    user_name: Seq<char>,
    managed: Seq<AttachedPolicyView>,
    managed_documents: Seq<Seq<char>>,
    inline_names: Seq<Seq<char>>,
    inline_documents: Seq<Seq<char>>,
)
    requires
        all_named(managed),
        managed_documents.len() == managed.len(),
        inline_documents.len() == inline_names.len(),
    ensures
        and_then_event(
            and_then_event(
                and_then_event(
                    and_then_event(
                        and_then_event(
                            stepped(
                                started(EntityType::User, user_name).0,
                                EventView::AttachedPolicies(managed),
                            ),
                            EventView::Documents(managed_documents),
                        ),
                        EventView::Names(inline_names),
                    ),
                    EventView::Documents(inline_documents),
                ),
                EventView::Names(Seq::empty()),
            ),
            EventView::Documents(Seq::empty()),
        ) matches Ok(end) && end.1 == StepView::Done(
            paired(names_of(managed) + inline_names, managed_documents + inline_documents),
        ),
{
    let begun = started(EntityType::User, user_name).0;
    let listed = stepped(begun, EventView::AttachedPolicies(managed));
    let fetched = and_then_event(listed, EventView::Documents(managed_documents));
    assert(fetched is Ok);
    let named = and_then_event(fetched, EventView::Names(inline_names));
    assert(named is Ok);
    let inlined = and_then_event(named, EventView::Documents(inline_documents));
    assert(inlined is Ok);
    assert(inlined.unwrap().0.stage is GroupList);
    assert(inlined.unwrap().0.names =~= names_of(managed) + inline_names);
    assert(inlined.unwrap().0.documents =~= managed_documents + inline_documents);
    let grouped = and_then_event(inlined, EventView::Names(Seq::empty()));
    assert(grouped is Ok);
    assert(grouped.unwrap().0.stage is GroupManagedDocuments);
    assert(grouped.unwrap().0.pending =~= Seq::<Seq<char>>::empty());
    let end = and_then_event(grouped, EventView::Documents(Seq::empty()));
    assert(end is Ok);
    assert(end.unwrap().0.names =~= names_of(managed) + inline_names);
    assert(end.unwrap().0.documents =~= managed_documents + inline_documents);
}

} // verus!
