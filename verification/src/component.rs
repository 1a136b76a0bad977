//! The automatic memory component: what it does before and after a managed LLM call.
//!
//! The component decides; its owner runs the provider, encodes requests and emits evidence.

use vstd::prelude::*;
use crate::automatic::{
    config_error, content_text, inject_memory_block, injected, message_content_text, message_views,
    opt_namespace, original_user, original_user_text, select_matches, selection, total_estimate,
    user_words_have_a_message, AutomaticMemoryConfig, ConfigView, FailurePolicy, Message,
    MessageContent, MessageView, WriteDelivery, WriteProjection,
};
use crate::error::ErrorView;
use crate::evidence::{
    error_evidence, error_evidence_of, errors_evidence, errors_of, items_evidence, items_of,
    namespace_ref, namespace_reference, DataView, OperationData, OperationEvidence, OperationView,
};
use crate::json::{json_models, no_members, Json, JsonModel, JsonObject};
use crate::memory::{
    error_views, match_views, no_filter, outcome, ContentView, ContextView, MatchView,
    MemoryContent, MemoryErrorCode, MemoryFilter, MemoryMatch, MemoryNamespace,
    MemoryOperationError, MemoryProvenance, MemoryRequestContext, MemorySearchRequest,
    MemorySearchResult, MemoryStoreRequest, MemoryStoreResult, NamespaceView, ProvenanceView,
    SearchRequestView, SearchResultView, StoreRequestView, StoreResultView,
};
use crate::metadata::{
    declared, decoded_view, enabled, flow_error, resolve_enabled, resolve_namespace, resolved,
    stage_failure, FlowError, FlowView,
};
use crate::text::{concat, concat3, opt_text, texts};
use crate::time::{later, representable, Timestamp};
use crate::wire::{opt_text_json, opt_text_model};
use crate::work::{MemoryWorkTransition, TransitionView};
use crate::work_queue::{fresh_queue, MemoryWorkQueue};

verus! {

/// The identifier of an operation of a managed call.
pub open spec fn operation_id_of(llm_id: Seq<char>, stage: Seq<char>) -> Seq<char> {
    llm_id + ":"@ + stage
}

fn operation_id(llm_id: &str, stage: &str) -> (r: String)
    ensures
        r@ == operation_id_of(llm_id@, stage@),
{
    concat3(llm_id, ":", stage)
}

/// The content that a completed turn is stored as.
pub open spec fn projection(
    kind: WriteProjection,
    user: Seq<char>,
    assistant: Option<Seq<char>>,
) -> JsonModel {
    let base = no_members().insert("version"@, JsonModel::Text("0.1"@)).insert(
        "user"@,
        JsonModel::Text(user),
    );
    JsonModel::Object(
        match kind {
            WriteProjection::User => base,
            WriteProjection::UserAndAssistant => base.insert(
                "assistant"@,
                opt_text_model(assistant),
            ),
        },
    )
}

/// The content that a completed turn is stored as.
pub fn projection_content(
    kind: WriteProjection,
    user: &str,
    assistant: &Option<String>,
) -> (r: Json)
    ensures
        r@ == projection(kind, user@, opt_text(*assistant)),
{
    let mut object = JsonObject::new();
    object.insert("version", Json::text("0.1"));
    object.insert("user", Json::text(user));
    if matches!(kind, WriteProjection::UserAndAssistant) {
        object.insert("assistant", opt_text_json(assistant));
    }
    Json::object(object)
}

/// A failed stage of a call that went on.
#[derive(Debug, PartialEq)]
pub struct StageFailure {
    stage: &'static str,
    policy: FailurePolicy,
    error: MemoryOperationError,
}

/// A failed stage of a call that went on.
pub struct FailureView {
    pub stage: Seq<char>,
    pub policy: FailurePolicy,
    pub error: ErrorView,
}

impl View for StageFailure {
    type V = FailureView;

    closed spec fn view(&self) -> FailureView {
        FailureView { stage: self.stage@, policy: self.policy, error: self.error@ }
    }
}

/// What is remembered of a call until it completes.
#[derive(Debug, PartialEq)]
pub struct TurnState {
    namespace: Option<MemoryNamespace>,
    original_user: Option<String>,
    candidates: Vec<MemoryMatch>,
    selected: Vec<MemoryMatch>,
    estimated_tokens: usize,
    partial_errors: Vec<MemoryOperationError>,
    failure: Option<StageFailure>,
    search_latency_ms: u64,
}

/// What is remembered of a call until it completes.
pub struct TurnView {
    pub namespace: Option<NamespaceView>,
    pub original_user: Option<Seq<char>>,
    pub candidates: Seq<MatchView>,
    pub selected: Seq<MatchView>,
    pub partial_errors: Seq<ErrorView>,
    pub failure: Option<FailureView>,
    pub search_latency_ms: nat,
}

impl View for TurnState {
    type V = TurnView;

    closed spec fn view(&self) -> TurnView {
        TurnView {
            namespace: opt_namespace(self.namespace),
            original_user: opt_text(self.original_user),
            candidates: match_views(self.candidates@),
            selected: match_views(self.selected@),
            partial_errors: error_views(self.partial_errors@),
            failure: match self.failure {
                Some(failure) => Some(failure@),
                None => None,
            },
            search_latency_ms: self.search_latency_ms as nat,
        }
    }
}

impl TurnState {
    #[verifier::type_invariant]
    spec fn counted(&self) -> bool {
        self.estimated_tokens == total_estimate(match_views(self.selected@))
    }
}

/// The turn of a call whose preparation failed and which goes on without memory.
pub open spec fn failed_turn(
    stage: Seq<char>,
    policy: FailurePolicy,
    error: ErrorView,
) -> TurnView {
    TurnView {
        namespace: None,
        original_user: None,
        candidates: Seq::empty(),
        selected: Seq::empty(),
        partial_errors: Seq::empty(),
        failure: Some(FailureView { stage, policy, error }),
        search_latency_ms: 0,
    }
}

/// What a component holds.
pub struct ComponentView {
    pub provider: Seq<char>,
    pub config: ConfigView,
    pub turns: Map<Seq<char>, TurnView>,
}

impl ComponentView {
    /// The component with one more call under way.
    pub open spec fn with_turn(self, llm_id: Seq<char>, turn: TurnView) -> ComponentView {
        ComponentView { turns: self.turns.insert(llm_id, turn), ..self }
    }

    /// The component with one call fewer under way.
    pub open spec fn without_turn(self, llm_id: Seq<char>) -> ComponentView {
        ComponentView { turns: self.turns.remove(llm_id), ..self }
    }
}

struct TurnEntry {
    llm_id: String,
    turn: TurnState,
}

spec fn turn_map(entries: Seq<TurnEntry>) -> Map<Seq<char>, TurnView>
    decreases entries.len(),
{
    if entries.len() == 0 {
        Map::empty()
    } else {
        turn_map(entries.drop_last()).insert(entries.last().llm_id@, entries.last().turn@)
    }
}

spec fn distinct_turns(entries: Seq<TurnEntry>) -> bool {
    forall|i: int, j: int|
        0 <= i < j < entries.len() ==> (#[trigger] entries[i]).llm_id@ != (
        #[trigger] entries[j]).llm_id@
}

proof fn turn_map_holds(entries: Seq<TurnEntry>)
    requires
        distinct_turns(entries),
    ensures
        turn_map(entries).dom().finite(),
        turn_map(entries).dom().len() == entries.len(),
        forall|key: Seq<char>|
            turn_map(entries).dom().contains(key) <==> exists|i: int|
                0 <= i < entries.len() && (#[trigger] entries[i]).llm_id@ == key,
    decreases entries.len(),
{
    if entries.len() > 0 {
        let rest = entries.drop_last();
        assert(distinct_turns(rest)) by {
            assert forall|i: int, j: int| 0 <= i < j < rest.len() implies (
            #[trigger] rest[i]).llm_id@ != (#[trigger] rest[j]).llm_id@ by {
                assert(entries[i].llm_id@ != entries[j].llm_id@);
            }
        }
        turn_map_holds(rest);
        let last = entries.last().llm_id@;
        if turn_map(rest).dom().contains(last) {
            let i = choose|i: int| 0 <= i < rest.len() && (#[trigger] rest[i]).llm_id@ == last;
            assert(entries[i].llm_id@ != entries[entries.len() - 1].llm_id@);
        }
        assert(turn_map(entries).dom() =~= turn_map(rest).dom().insert(last));
        assert forall|key: Seq<char>|
            turn_map(entries).dom().contains(key) <==> exists|i: int|
                0 <= i < entries.len() && (#[trigger] entries[i]).llm_id@ == key by {
            if exists|i: int| 0 <= i < entries.len() && (#[trigger] entries[i]).llm_id@ == key {
                let i = choose|i: int|
                    0 <= i < entries.len() && (#[trigger] entries[i]).llm_id@ == key;
                if i < rest.len() {
                    assert(rest[i].llm_id@ == key);
                }
            }
            if turn_map(entries).dom().contains(key) {
                if key == last {
                    assert(entries[entries.len() - 1].llm_id@ == key);
                } else {
                    let i = choose|i: int| 0 <= i < rest.len() && (#[trigger] rest[i]).llm_id@ == key;
                    assert(entries[i].llm_id@ == key);
                }
            }
        }
    }
}

proof fn turn_map_remove(entries: Seq<TurnEntry>, at: int)
    requires
        distinct_turns(entries),
        0 <= at < entries.len(),
    ensures
        turn_map(entries.remove(at)) == turn_map(entries).remove(entries[at].llm_id@),
        turn_map(entries).dom().contains(entries[at].llm_id@),
        turn_map(entries)[entries[at].llm_id@] == entries[at].turn@,
        distinct_turns(entries.remove(at)),
    decreases entries.len(),
{
    let key = entries[at].llm_id@;
    let rest = entries.drop_last();
    let next = entries.remove(at);
    assert(distinct_turns(rest)) by {
        assert forall|i: int, j: int| 0 <= i < j < rest.len() implies (#[trigger] rest[i]).llm_id@
            != (#[trigger] rest[j]).llm_id@ by {
            assert(entries[i].llm_id@ != entries[j].llm_id@);
        }
    }
    assert(distinct_turns(next)) by {
        assert forall|i: int, j: int| 0 <= i < j < next.len() implies (#[trigger] next[i]).llm_id@
            != (#[trigger] next[j]).llm_id@ by {
            let a = if i < at { i } else { i + 1 };
            let b = if j < at { j } else { j + 1 };
            assert(entries[a].llm_id@ != entries[b].llm_id@);
        }
    }
    if at == entries.len() - 1 {
        assert(next =~= rest);
        turn_map_holds(rest);
        if turn_map(rest).dom().contains(key) {
            let i = choose|i: int| 0 <= i < rest.len() && (#[trigger] rest[i]).llm_id@ == key;
            assert(entries[i].llm_id@ != entries[at].llm_id@);
        }
        assert(turn_map(next) =~= turn_map(entries).remove(key));
    } else {
        turn_map_remove(rest, at);
        assert(next.drop_last() =~= rest.remove(at));
        assert(next.last() == entries.last());
        assert(entries[at].llm_id@ != entries[entries.len() - 1].llm_id@);
        assert(turn_map(next) =~= turn_map(entries).remove(key));
    }
}

/// The automatic memory component over one provider.
pub struct MemoryComponent {
    provider: String,
    config: AutomaticMemoryConfig,
    turns: Vec<TurnEntry>,
}

impl View for MemoryComponent {
    type V = ComponentView;

    closed spec fn view(&self) -> ComponentView {
        ComponentView {
            provider: self.provider@,
            config: self.config@,
            turns: turn_map(self.turns@),
        }
    }
}

/// A component without calls under way.
pub open spec fn fresh_component(provider: Seq<char>, config: ConfigView) -> ComponentView {
    ComponentView { provider, config, turns: Map::empty() }
}

/// The failure of a call that names no identity.
pub open spec fn identity_missing(llm_id: Seq<char>, provider: Seq<char>) -> ErrorView {
    ErrorView::invalid_request("automatic memory requires tenant_id and subject_id"@).of(
        operation_id_of(llm_id, "identity"@),
        provider,
    )
}

/// The failure of a call whose request cannot be read.
pub open spec fn codec_missing(llm_id: Seq<char>, provider: Seq<char>) -> ErrorView {
    ErrorView::new(
        MemoryErrorCode::Unsupported,
        "automatic memory requires a request codec"@,
        false,
    ).of(operation_id_of(llm_id, "injection"@), provider)
}

/// Evidence of a failed stage.
pub open spec fn failure_evidence(
    provider: Seq<char>,
    llm_id: Seq<char>,
    stage: Seq<char>,
    policy: FailurePolicy,
    error: ErrorView,
) -> OperationView {
    OperationView {
        operation_id: match error.operation_id {
            Some(id) => id,
            None => operation_id_of(llm_id, stage),
        },
        llm_id,
        provider,
        data: DataView::Failure { stage, policy, error: error_evidence_of(error) },
    }
}

/// The search for the memories of a call.
pub open spec fn recall_request(
    config: ConfigView,
    llm_id: Seq<char>,
    namespace: NamespaceView,
    user: Seq<char>,
    now: Timestamp,
) -> SearchRequestView {
    SearchRequestView {
        context: ContextView {
            operation_id: operation_id_of(llm_id, "search"@),
            deadline: Some(later(now, config.operation_timeout_millis)),
        },
        namespace,
        query: user,
        scope: config.search_scope,
        filter: no_filter(),
        limit: config.max_candidates,
    }
}

/// A call whose memories are being searched for.
#[derive(Debug, PartialEq)]
pub struct PendingTurn {
    namespace: MemoryNamespace,
    original_user: String,
    messages: Vec<Message>,
}

/// A call whose memories are being searched for.
pub struct PendingView {
    pub namespace: NamespaceView,
    pub original_user: Seq<char>,
    pub messages: Seq<MessageView>,
}

impl View for PendingTurn {
    type V = PendingView;

    closed spec fn view(&self) -> PendingView {
        PendingView {
            namespace: self.namespace@,
            original_user: self.original_user@,
            messages: message_views(self.messages@),
        }
    }
}

impl PendingTurn {
    #[verifier::type_invariant]
    spec fn says_something(&self) -> bool {
        original_user(message_views(self.messages@)) is Some
    }
}

/// What is to be done before a managed call.
#[derive(Debug, PartialEq)]
pub enum PrepareStep {
    /// The call goes on with its request as it is.
    PassThrough,
    /// The call fails.
    Fail {
        /// The evidence to emit.
        evidence: Option<OperationEvidence>,
        /// The failure.
        error: FlowError,
    },
    /// The provider is to be searched.
    Search {
        /// The search.
        request: MemorySearchRequest,
        /// The call to go on with.
        pending: PendingTurn,
    },
}

/// What is to be done before a managed call.
pub enum PrepareView {
    PassThrough,
    Fail { evidence: Option<OperationView>, error: FlowView },
    Search { request: SearchRequestView, pending: PendingView },
}

/// The view of optional evidence.
pub open spec fn opt_evidence(evidence: Option<OperationEvidence>) -> Option<OperationView> {
    match evidence {
        Some(evidence) => Some(evidence@),
        None => None,
    }
}

impl View for PrepareStep {
    type V = PrepareView;

    open spec fn view(&self) -> PrepareView {
        match self {
            PrepareStep::PassThrough => PrepareView::PassThrough,
            PrepareStep::Fail { evidence, error } => PrepareView::Fail {
                evidence: opt_evidence(*evidence),
                error: error@,
            },
            PrepareStep::Search { request, pending } => PrepareView::Search {
                request: request@,
                pending: pending@,
            },
        }
    }
}

/// What becomes of a call whose preparation failed: under a closed policy it fails with evidence,
/// under an open one it goes on and the failure is remembered.
pub open spec fn prepare_failed(
    state: ComponentView,
    llm_id: Seq<char>,
    stage: Seq<char>,
    policy: FailurePolicy,
    error: ErrorView,
) -> (ComponentView, PrepareView) {
    match policy {
        FailurePolicy::FailClosed => (
            state,
            PrepareView::Fail {
                evidence: Some(failure_evidence(state.provider, llm_id, stage, policy, error)),
                error: stage_failure("automatic memory preparation"@, error),
            },
        ),
        FailurePolicy::FailOpen => (
            state.with_turn(llm_id, failed_turn(stage, policy, error)),
            PrepareView::PassThrough,
        ),
    }
}

/// What is to be done before a managed call.
pub open spec fn prepared_turn(
    state: ComponentView,
    llm_id: Seq<char>,
    layers: Seq<JsonModel>,
    decoded: Option<Result<NamespaceView, Seq<char>>>,
    messages: Option<Seq<MessageView>>,
    now: Timestamp,
) -> (ComponentView, PrepareView) {
    let config = state.config;
    match enabled(layers) {
        Err(message) => (
            state,
            PrepareView::Fail { evidence: None, error: FlowView::InvalidArgument(message) },
        ),
        Ok(false) => (state, PrepareView::PassThrough),
        Ok(true) => match resolved(decoded, config.namespace) {
            Err(error) => prepare_failed(
                state,
                llm_id,
                "identity"@,
                config.identity_policy,
                error,
            ),
            Ok(None) => prepare_failed(
                state,
                llm_id,
                "identity"@,
                config.identity_policy,
                identity_missing(llm_id, state.provider),
            ),
            Ok(Some(namespace)) => match messages {
                None => prepare_failed(
                    state,
                    llm_id,
                    "injection"@,
                    config.retrieval_policy,
                    codec_missing(llm_id, state.provider),
                ),
                Some(messages) => match original_user(messages) {
                    None => (state, PrepareView::PassThrough),
                    Some(user) => (
                        state,
                        PrepareView::Search {
                            request: recall_request(config, llm_id, namespace, user, now),
                            pending: PendingView { namespace, original_user: user, messages },
                        },
                    ),
                },
            },
        },
    }
}

/// The view of the messages of a request.
pub open spec fn opt_messages(messages: Option<Vec<Message>>) -> Option<Seq<MessageView>> {
    match messages {
        Some(messages) => Some(message_views(messages@)),
        None => None,
    }
}

fn failure_mark(
    provider: &String,
    llm_id: &str,
    stage: &str,
    policy: FailurePolicy,
    error: &MemoryOperationError,
) -> (r: OperationEvidence)
    ensures
        r@ == failure_evidence(provider@, llm_id@, stage@, policy, error@),
{
    OperationEvidence {
        operation_id: match &error.operation_id {
            Some(id) => id.clone(),
            None => operation_id(llm_id, stage),
        },
        llm_id: llm_id.to_owned(),
        provider: provider.clone(),
        data: OperationData::Failure {
            stage: stage.to_owned(),
            policy,
            error: error_evidence(error),
        },
    }
}

impl MemoryComponent {
    /// The configuration is valid and the calls under way are distinct.
    pub closed spec fn wf(&self) -> bool {
        &&& config_error(self.config@) is None
        &&& distinct_turns(self.turns@)
    }

    /// The configuration of a well-formed component is valid.
    pub proof fn wf_is_valid(&self)
        requires
            self.wf(),
        ensures
            config_error(self@.config) is None,
    {
    }

    /// Create a component over a provider.
    pub fn new(provider: &str, config: AutomaticMemoryConfig) -> (r: Result<
        Self,
        MemoryOperationError,
    >)
        ensures
            match config_error(config@) {
                Some(failure) => r matches Err(error) && error@ == failure,
                None => r matches Ok(component) && component.wf() && component@ == fresh_component(
                    provider@,
                    config@,
                ),
            },
    {
        config.validate()?;
        let component = MemoryComponent {
            provider: provider.to_owned(),
            config,
            turns: Vec::new(),
        };
        assert(component@.turns =~= Map::empty());
        Ok(component)
    }

    /// Return the configured provider name.
    pub fn provider_name(&self) -> (r: &str)
        ensures
            r@ == self@.provider,
    {
        self.provider.as_str()
    }

    /// The configuration.
    pub fn config(&self) -> (r: &AutomaticMemoryConfig)
        ensures
            r@ == self@.config,
    {
        &self.config
    }

    /// Return the number of prepared calls awaiting completion.
    pub fn active_turns(&self) -> (r: usize)
        requires
            self.wf(),
        ensures
            self@.turns.dom().finite(),
            r == self@.turns.dom().len(),
    {
        proof {
            turn_map_holds(self.turns@);
        }
        self.turns.len()
    }

    fn remove_turn(&mut self, llm_id: &str) -> (r: Option<TurnState>)
        requires
            old(self).wf(),
        ensures
            final(self).wf(),
            final(self)@ == old(self)@.without_turn(llm_id@),
            match r {
                Some(turn) => old(self)@.turns.dom().contains(llm_id@) && turn@ == old(
                    self,
                )@.turns[llm_id@],
                None => !old(self)@.turns.dom().contains(llm_id@),
            },
    {
        let wanted = llm_id.to_owned();
        let mut i: usize = 0;
        while i < self.turns.len()
            invariant
                i <= self.turns@.len(),
                self.wf(),
                *self == *old(self),
                wanted@ == llm_id@,
                forall|j: int| 0 <= j < i ==> (#[trigger] self.turns@[j]).llm_id@ != llm_id@,
            decreases self.turns@.len() - i,
        {
            if self.turns[i].llm_id == wanted {
                proof {
                    turn_map_remove(self.turns@, i as int);
                }
                let entry = self.turns.remove(i);
                return Some(entry.turn);
            }
            i += 1;
        }
        proof {
            turn_map_holds(self.turns@);
            assert(self@.turns.remove(llm_id@) =~= self@.turns);
        }
        None
    }

    fn insert_turn(&mut self, llm_id: &str, turn: TurnState)
        requires
            old(self).wf(),
        ensures
            final(self).wf(),
            final(self)@ == old(self)@.with_turn(llm_id@, turn@),
    {
        let ghost before = self@;
        let _replaced = self.remove_turn(llm_id);
        let ghost entries = self.turns@;
        proof {
            turn_map_holds(entries);
        }
        self.turns.push(TurnEntry { llm_id: llm_id.to_owned(), turn });
        proof {
            assert(self.turns@.drop_last() =~= entries);
            assert(self@.turns =~= before.turns.insert(llm_id@, turn@));
            assert(distinct_turns(self.turns@)) by {
                assert forall|i: int, j: int| 0 <= i < j < self.turns@.len() implies (
                #[trigger] self.turns@[i]).llm_id@ != (#[trigger] self.turns@[j]).llm_id@ by {
                    if j < entries.len() {
                        assert(entries[i].llm_id@ != entries[j].llm_id@);
                    } else {
                        assert(self.turns@[i] == entries[i]);
                        assert(!turn_map(entries).dom().contains(llm_id@));
                    }
                }
            }
        }
    }

    fn handle_prepare_failure(
        &mut self,
        llm_id: &str,
        stage: &'static str,
        error: MemoryOperationError,
        policy: FailurePolicy,
    ) -> (r: PrepareStep)
        requires
            old(self).wf(),
        ensures
            final(self).wf(),
            (final(self)@, r@) == prepare_failed(old(self)@, llm_id@, stage@, policy, error@),
    {
        if matches!(policy, FailurePolicy::FailClosed) {
            return PrepareStep::Fail {
                evidence: Some(failure_mark(&self.provider, llm_id, stage, policy, &error)),
                error: flow_error("automatic memory preparation", &error),
            };
        }
        let candidates: Vec<MemoryMatch> = Vec::new();
        let selected: Vec<MemoryMatch> = Vec::new();
        let partial_errors: Vec<MemoryOperationError> = Vec::new();
        assert(match_views(selected@) =~= Seq::empty());
        assert(match_views(candidates@) =~= Seq::empty());
        assert(error_views(partial_errors@) =~= Seq::empty());
        let turn = TurnState {
            namespace: None,
            original_user: None,
            candidates,
            selected,
            estimated_tokens: 0,
            partial_errors,
            failure: Some(StageFailure { stage, policy, error }),
            search_latency_ms: 0,
        };
        assert(turn@ == failed_turn(stage@, policy, error@));
        self.insert_turn(llm_id, turn);
        PrepareStep::PassThrough
    }

    /// Prepare a call. `layers` is the metadata that governs it, `decoded` what decoding the
    /// namespace declared there gave, and `messages` those of its request, where a codec can read
    /// it.
    pub fn prepare(
        &mut self,
        llm_id: &str,
        layers: &Vec<Json>,
        decoded: Option<Result<MemoryNamespace, String>>,
        messages: Option<Vec<Message>>,
        now: Timestamp,
    ) -> (r: PrepareStep)
        requires
            old(self).wf(),
            decoded is Some <==> declared(json_models(layers@)) is Some,
            representable(now, old(self)@.config.operation_timeout_millis),
        ensures
            final(self).wf(),
            (final(self)@, r@) == prepared_turn(
                old(self)@,
                llm_id@,
                json_models(layers@),
                decoded_view(decoded),
                opt_messages(messages),
                now,
            ),
    {
        match resolve_enabled(layers) {
            Err(error) => {
                return PrepareStep::Fail { evidence: None, error };
            },
            Ok(false) => {
                return PrepareStep::PassThrough;
            },
            Ok(true) => {},
        }
        let namespace = match resolve_namespace(decoded, &self.config.namespace) {
            Ok(Some(namespace)) => namespace,
            Ok(None) => {
                let error = MemoryOperationError::invalid_request(
                    "automatic memory requires tenant_id and subject_id",
                ).with_operation_id(operation_id(llm_id, "identity").as_str()).with_provider(
                    self.provider.as_str(),
                );
                return self.handle_prepare_failure(
                    llm_id,
                    "identity",
                    error,
                    self.config.identity_policy,
                );
            },
            Err(error) => {
                return self.handle_prepare_failure(
                    llm_id,
                    "identity",
                    error,
                    self.config.identity_policy,
                );
            },
        };
        let messages = match messages {
            Some(messages) => messages,
            None => {
                let error = MemoryOperationError::new(
                    MemoryErrorCode::Unsupported,
                    "automatic memory requires a request codec",
                    false,
                ).with_operation_id(operation_id(llm_id, "injection").as_str()).with_provider(
                    self.provider.as_str(),
                );
                return self.handle_prepare_failure(
                    llm_id,
                    "injection",
                    error,
                    self.config.retrieval_policy,
                );
            },
        };
        let user = match original_user_text(&messages) {
            Some(user) => user,
            None => {
                return PrepareStep::PassThrough;
            },
        };
        let request = MemorySearchRequest {
            context: MemoryRequestContext {
                operation_id: operation_id(llm_id, "search"),
                deadline: Some(now.plus_millis(self.config.operation_timeout_millis)),
            },
            namespace: namespace.clone(),
            query: user.clone(),
            scope: self.config.search_scope,
            filter: MemoryFilter::default(),
            limit: self.config.max_candidates,
        };
        PrepareStep::Search {
            request,
            pending: PendingTurn { namespace, original_user: user, messages },
        }
    }
}

/// What is to be done once the provider was searched.
#[derive(Debug, PartialEq)]
pub enum RecallStep {
    /// The call goes on with its request as it is.
    Ready,
    /// The call fails.
    Fail {
        /// The evidence to emit.
        evidence: OperationEvidence,
        /// The failure.
        error: FlowError,
    },
    /// The request is to be encoded with new messages.
    Inject {
        /// The messages, with the selected memories.
        messages: Vec<Message>,
        /// The call to go on with.
        turn: TurnState,
    },
}

/// What is to be done once the provider was searched.
pub enum RecallView {
    Ready,
    Fail { evidence: OperationView, error: FlowView },
    Inject { messages: Seq<MessageView>, turn: TurnView },
}

impl View for RecallStep {
    type V = RecallView;

    open spec fn view(&self) -> RecallView {
        match self {
            RecallStep::Ready => RecallView::Ready,
            RecallStep::Fail { evidence, error } => RecallView::Fail {
                evidence: evidence@,
                error: error@,
            },
            RecallStep::Inject { messages, turn } => RecallView::Inject {
                messages: message_views(messages@),
                turn: turn@,
            },
        }
    }
}

/// The turn of a call after a search, with the memories selected from what was found.
pub open spec fn searched_turn(
    config: ConfigView,
    pending: PendingView,
    result: Result<SearchResultView, ErrorView>,
    latency_ms: nat,
) -> TurnView {
    TurnView {
        namespace: Some(pending.namespace),
        original_user: Some(pending.original_user),
        candidates: match result {
            Ok(found) => found.matches,
            Err(_) => Seq::empty(),
        },
        selected: match result {
            Ok(found) => selection(found.matches, config.max_items, config.max_estimated_tokens),
            Err(_) => Seq::empty(),
        },
        partial_errors: match result {
            Ok(found) => found.partial_errors,
            Err(_) => Seq::empty(),
        },
        failure: match result {
            Ok(_) => None,
            Err(error) => Some(
                FailureView { stage: "retrieval"@, policy: config.retrieval_policy, error },
            ),
        },
        search_latency_ms: latency_ms,
    }
}

/// What is to be done once the provider was searched.
pub open spec fn recalled(
    state: ComponentView,
    llm_id: Seq<char>,
    pending: PendingView,
    result: Result<SearchResultView, ErrorView>,
    latency_ms: nat,
) -> (ComponentView, RecallView) {
    let policy = state.config.retrieval_policy;
    let turn = searched_turn(state.config, pending, result, latency_ms);
    if result is Err && policy is FailClosed {
        (
            state,
            RecallView::Fail {
                evidence: failure_evidence(
                    state.provider,
                    llm_id,
                    "retrieval"@,
                    policy,
                    result->Err_0,
                ),
                error: stage_failure("automatic memory retrieval"@, result->Err_0),
            },
        )
    } else if turn.selected.len() == 0 {
        (state.with_turn(llm_id, turn), RecallView::Ready)
    } else {
        (
            state,
            RecallView::Inject { messages: injected(pending.messages, turn.selected), turn },
        )
    }
}

/// The failure of an injection.
pub open spec fn injection_failure(
    llm_id: Seq<char>,
    provider: Seq<char>,
    text: Seq<char>,
) -> ErrorView {
    ErrorView::new(
        MemoryErrorCode::Internal,
        "failed to inject selected memory: "@ + text,
        false,
    ).of(operation_id_of(llm_id, "inject"@), provider)
}

/// What is to be done once the injected request was encoded, or could not be.
pub open spec fn encoded_turn(
    state: ComponentView,
    llm_id: Seq<char>,
    turn: TurnView,
    failure: Option<Seq<char>>,
) -> (ComponentView, RecallView) {
    let policy = state.config.retrieval_policy;
    match failure {
        None => (state.with_turn(llm_id, turn), RecallView::Ready),
        Some(text) => {
            let error = injection_failure(llm_id, state.provider, text);
            match policy {
                FailurePolicy::FailClosed => (
                    state,
                    RecallView::Fail {
                        evidence: failure_evidence(
                            state.provider,
                            llm_id,
                            "injection"@,
                            policy,
                            error,
                        ),
                        error: stage_failure("automatic memory injection"@, error),
                    },
                ),
                FailurePolicy::FailOpen => (
                    state.with_turn(
                        llm_id,
                        TurnView {
                            selected: Seq::empty(),
                            failure: Some(FailureView { stage: "injection"@, policy, error }),
                            ..turn
                        },
                    ),
                    RecallView::Ready,
                ),
            }
        },
    }
}

impl MemoryComponent {
    /// Go on with a call once the provider was searched.
    pub fn recall(
        &mut self,
        llm_id: &str,
        pending: PendingTurn,
        result: Result<MemorySearchResult, MemoryOperationError>,
        latency_ms: u64,
    ) -> (r: RecallStep)
        requires
            old(self).wf(),
        ensures
            final(self).wf(),
            (final(self)@, r@) == recalled(
                old(self)@,
                llm_id@,
                pending@,
                outcome(result),
                latency_ms as nat,
            ),
    {
        proof {
            use_type_invariant(&pending);
            user_words_have_a_message(message_views(pending.messages@));
        }
        let ghost expected = searched_turn(
            self@.config,
            pending@,
            outcome(result),
            latency_ms as nat,
        );
        let policy = self.config.retrieval_policy;
        let PendingTurn { namespace, original_user, messages } = pending;
        match result {
            Err(error) => {
                if matches!(policy, FailurePolicy::FailClosed) {
                    return RecallStep::Fail {
                        evidence: failure_mark(&self.provider, llm_id, "retrieval", policy, &error),
                        error: flow_error("automatic memory retrieval", &error),
                    };
                }
                let candidates: Vec<MemoryMatch> = Vec::new();
                let selected: Vec<MemoryMatch> = Vec::new();
                let partial_errors: Vec<MemoryOperationError> = Vec::new();
                assert(match_views(selected@) =~= Seq::empty());
                assert(match_views(candidates@) =~= Seq::empty());
                assert(error_views(partial_errors@) =~= Seq::empty());
                let turn = TurnState {
                    namespace: Some(namespace),
                    original_user: Some(original_user),
                    candidates,
                    selected,
                    estimated_tokens: 0,
                    partial_errors,
                    failure: Some(StageFailure { stage: "retrieval", policy, error }),
                    search_latency_ms: latency_ms,
                };
                assert(turn@ == expected);
                self.insert_turn(llm_id, turn);
                RecallStep::Ready
            },
            Ok(found) => {
                let (selected, estimated_tokens) = select_matches(
                    &found.matches,
                    self.config.max_items,
                    self.config.max_estimated_tokens,
                );
                let none = selected.len() == 0;
                let MemorySearchResult { matches, partial_errors } = found;
                let mut messages = messages;
                if !none {
                    let _done = inject_memory_block(&mut messages, &selected);
                }
                let turn = TurnState {
                    namespace: Some(namespace),
                    original_user: Some(original_user),
                    candidates: matches,
                    selected,
                    estimated_tokens,
                    partial_errors,
                    failure: None,
                    search_latency_ms: latency_ms,
                };
                assert(turn@ == expected);
                if none {
                    self.insert_turn(llm_id, turn);
                    return RecallStep::Ready;
                }
                RecallStep::Inject { messages, turn }
            },
        }
    }

    /// Go on with a call once its request was encoded with the selected memories, or could not
    /// be.
    pub fn finish_injection(
        &mut self,
        llm_id: &str,
        turn: TurnState,
        failure: Option<String>,
    ) -> (r: RecallStep)
        requires
            old(self).wf(),
        ensures
            final(self).wf(),
            (final(self)@, r@) == encoded_turn(old(self)@, llm_id@, turn@, opt_text(failure)),
    {
        match failure {
            None => {
                self.insert_turn(llm_id, turn);
                RecallStep::Ready
            },
            Some(text) => {
                let policy = self.config.retrieval_policy;
                let message = concat("failed to inject selected memory: ", text.as_str());
                let error = MemoryOperationError::new(
                    MemoryErrorCode::Internal,
                    message.as_str(),
                    false,
                ).with_operation_id(operation_id(llm_id, "inject").as_str()).with_provider(
                    self.provider.as_str(),
                );
                if matches!(policy, FailurePolicy::FailClosed) {
                    return RecallStep::Fail {
                        evidence: failure_mark(&self.provider, llm_id, "injection", policy, &error),
                        error: flow_error("automatic memory injection", &error),
                    };
                }
                let selected: Vec<MemoryMatch> = Vec::new();
                assert(match_views(selected@) =~= Seq::empty());
                let turn = TurnState {
                    namespace: turn.namespace,
                    original_user: turn.original_user,
                    candidates: turn.candidates,
                    selected,
                    estimated_tokens: 0,
                    partial_errors: turn.partial_errors,
                    failure: Some(StageFailure { stage: "injection", policy, error }),
                    search_latency_ms: turn.search_latency_ms,
                };
                self.insert_turn(llm_id, turn);
                RecallStep::Ready
            },
        }
    }
}

/// How a managed call ended.
#[derive(Debug, PartialEq, Eq)]
pub enum CallOutcome {
    /// It succeeded.
    Success {
        /// What the assistant says, where the response can be read.
        assistant: Option<MessageContent>,
    },
    /// It failed.
    Failure,
}

/// What the assistant says.
pub open spec fn assistant_text(assistant: Option<MessageContent>) -> Option<Seq<char>> {
    match assistant {
        Some(content) => Some(content_text(content)),
        None => None,
    }
}

/// What is to be done after a managed call.
#[derive(Debug, PartialEq)]
pub enum CompleteAction {
    /// Nothing more.
    Done,
    /// The turn is to be stored before the call completes.
    Store {
        /// The store.
        request: MemoryStoreRequest,
    },
    /// The turn is to be submitted to the queue.
    Enqueue {
        /// The store.
        request: MemoryStoreRequest,
    },
}

/// What is to be done after a managed call.
pub enum ActionView {
    Done,
    Store { request: StoreRequestView },
    Enqueue { request: StoreRequestView },
}

impl View for CompleteAction {
    type V = ActionView;

    open spec fn view(&self) -> ActionView {
        match self {
            CompleteAction::Done => ActionView::Done,
            CompleteAction::Store { request } => ActionView::Store { request: request@ },
            CompleteAction::Enqueue { request } => ActionView::Enqueue { request: request@ },
        }
    }
}

/// The views of evidence.
pub open spec fn evidence_views(evidence: Seq<OperationEvidence>) -> Seq<OperationView> {
    evidence.map_values(|item: OperationEvidence| item@)
}

/// Evidence of the search and the injection of a turn. There is none without a namespace.
pub open spec fn recall_evidence(state: ComponentView, llm_id: Seq<char>, turn: TurnView) -> Seq<
    OperationView,
> {
    match turn.namespace {
        None => Seq::empty(),
        Some(namespace) => seq![
            OperationView {
                operation_id: operation_id_of(llm_id, "search"@),
                llm_id,
                provider: state.provider,
                data: DataView::Retrieval {
                    namespace_ref: namespace_ref(namespace),
                    failed: turn.failure is Some && turn.failure->0.stage == "retrieval"@,
                    policy: state.config.retrieval_policy,
                    latency_ms: turn.search_latency_ms,
                    items: items_of(turn.candidates),
                    partial_errors: errors_of(turn.partial_errors),
                },
            },
            OperationView {
                operation_id: operation_id_of(llm_id, "inject"@),
                llm_id,
                provider: state.provider,
                data: DataView::Injection {
                    namespace_ref: namespace_ref(namespace),
                    policy: state.config.retrieval_policy,
                    items: items_of(turn.selected),
                    estimated_tokens: total_estimate(turn.selected),
                },
            },
        ],
    }
}

/// Evidence of the failed stage of a turn.
pub open spec fn stage_evidence(state: ComponentView, llm_id: Seq<char>, turn: TurnView) -> Seq<
    OperationView,
> {
    match turn.failure {
        None => Seq::empty(),
        Some(failure) => seq![
            failure_evidence(
                state.provider,
                llm_id,
                failure.stage,
                failure.policy,
                failure.error,
            ),
        ],
    }
}

/// Evidence of a store that is not made.
pub open spec fn skip_evidence(
    state: ComponentView,
    llm_id: Seq<char>,
    reason: Seq<char>,
) -> OperationView {
    OperationView {
        operation_id: operation_id_of(llm_id, "store"@),
        llm_id,
        provider: state.provider,
        data: DataView::StorageSkipped { reason },
    }
}

/// The identifiers of matched records.
pub open spec fn matched_ids(matches: Seq<MatchView>) -> Seq<Seq<char>> {
    matches.map_values(|item: MatchView| item.record.id)
}

/// The store of a completed turn.
pub open spec fn write_back(
    config: ConfigView,
    llm_id: Seq<char>,
    namespace: NamespaceView,
    user: Seq<char>,
    assistant: Option<Seq<char>>,
    selected: Seq<MatchView>,
    now: Timestamp,
) -> StoreRequestView {
    StoreRequestView {
        context: ContextView {
            operation_id: operation_id_of(llm_id, "store"@),
            deadline: Some(later(now, config.operation_timeout_millis)),
        },
        namespace,
        content: ContentView::Json { value: projection(config.write_projection, user, assistant) },
        event_timestamp: now,
        provenance: ProvenanceView {
            source: "llm_turn"@,
            source_ids: seq![llm_id],
            parent_memory_ids: matched_ids(selected),
            metadata: no_members().insert("projection_version"@, JsonModel::Text("0.1"@)),
        },
        metadata: no_members().insert("relay_automatic"@, JsonModel::Bool(true)),
        idempotency_key: Some("llm-turn:"@ + llm_id),
    }
}

/// What is to be done after a managed call that was prepared, and the evidence to emit first.
pub open spec fn completed_turn(
    state: ComponentView,
    llm_id: Seq<char>,
    turn: TurnView,
    success: bool,
    assistant: Option<Seq<char>>,
    now: Timestamp,
) -> (Seq<OperationView>, ActionView) {
    let told = recall_evidence(state, llm_id, turn) + stage_evidence(state, llm_id, turn);
    if !success {
        (told.push(skip_evidence(state, llm_id, "callback_failed"@)), ActionView::Done)
    } else if turn.namespace is None || turn.original_user is None {
        (told.push(skip_evidence(state, llm_id, "missing_identity_or_content"@)), ActionView::Done)
    } else {
        let request = write_back(
            state.config,
            llm_id,
            turn.namespace->0,
            turn.original_user->0,
            assistant,
            turn.selected,
            now,
        );
        (
            told,
            match state.config.write_delivery {
                WriteDelivery::Inline => ActionView::Store { request },
                WriteDelivery::Background => ActionView::Enqueue { request },
            },
        )
    }
}

impl MemoryComponent {
    fn skip_mark(&self, llm_id: &str, reason: &str) -> (r: OperationEvidence)
        ensures
            r@ == skip_evidence(self@, llm_id@, reason@),
    {
        OperationEvidence {
            operation_id: operation_id(llm_id, "store"),
            llm_id: llm_id.to_owned(),
            provider: self.provider.clone(),
            data: OperationData::StorageSkipped { reason: reason.to_owned() },
        }
    }

    fn retrieval_and_injection_marks(&self, llm_id: &str, turn: &TurnState) -> (r: Vec<
        OperationEvidence,
    >)
        ensures
            evidence_views(r@) == recall_evidence(self@, llm_id@, turn@),
    {
        proof {
            use_type_invariant(turn);
        }
        let mut marks: Vec<OperationEvidence> = Vec::new();
        let namespace = match &turn.namespace {
            Some(namespace) => namespace,
            None => {
                assert(evidence_views(marks@) =~= Seq::empty());
                return marks;
            },
        };
        let reference = namespace_reference(namespace);
        let failed = match &turn.failure {
            Some(failure) => failure.stage.to_owned() == "retrieval".to_owned(),
            None => false,
        };
        marks.push(
            OperationEvidence {
                operation_id: operation_id(llm_id, "search"),
                llm_id: llm_id.to_owned(),
                provider: self.provider.clone(),
                data: OperationData::Retrieval {
                    namespace_ref: reference.clone(),
                    failed,
                    policy: self.config.retrieval_policy,
                    latency_ms: turn.search_latency_ms,
                    items: items_evidence(&turn.candidates),
                    partial_errors: errors_evidence(&turn.partial_errors),
                },
            },
        );
        marks.push(
            OperationEvidence {
                operation_id: operation_id(llm_id, "inject"),
                llm_id: llm_id.to_owned(),
                provider: self.provider.clone(),
                data: OperationData::Injection {
                    namespace_ref: reference,
                    policy: self.config.retrieval_policy,
                    items: items_evidence(&turn.selected),
                    estimated_tokens: turn.estimated_tokens,
                },
            },
        );
        assert(evidence_views(marks@) =~= recall_evidence(self@, llm_id@, turn@));
        marks
    }

    /// Complete a call at an instant. A call that was not prepared leaves nothing to do.
    pub fn complete(&mut self, llm_id: &str, ended: &CallOutcome, now: Timestamp) -> (r: (
        Vec<OperationEvidence>,
        CompleteAction,
    ))
        requires
            old(self).wf(),
            representable(now, old(self)@.config.operation_timeout_millis),
        ensures
            final(self).wf(),
            final(self)@ == old(self)@.without_turn(llm_id@),
            if old(self)@.turns.dom().contains(llm_id@) {
                (evidence_views(r.0@), r.1@) == completed_turn(
                    old(self)@,
                    llm_id@,
                    old(self)@.turns[llm_id@],
                    ended is Success,
                    match *ended {
                        CallOutcome::Success { assistant } => assistant_text(assistant),
                        CallOutcome::Failure => None,
                    },
                    now,
                )
            } else {
                r.0@.len() == 0 && r.1@ is Done
            },
    {
        let ghost state = self@;
        let turn = match self.remove_turn(llm_id) {
            Some(turn) => turn,
            None => {
                return (Vec::new(), CompleteAction::Done);
            },
        };
        let ghost view = turn@;
        let mut marks = self.retrieval_and_injection_marks(llm_id, &turn);
        let ghost told = recall_evidence(state, llm_id@, view);
        assert(evidence_views(marks@) =~= told);
        if let Some(failure) = &turn.failure {
            marks.push(
                failure_mark(&self.provider, llm_id, failure.stage, failure.policy, &failure.error),
            );
        }
        let ghost all = told + stage_evidence(state, llm_id@, view);
        assert(evidence_views(marks@) =~= all);
        let assistant = match ended {
            CallOutcome::Success { assistant } => match assistant {
                Some(content) => Some(message_content_text(content)),
                None => None,
            },
            CallOutcome::Failure => {
                marks.push(self.skip_mark(llm_id, "callback_failed"));
                assert(evidence_views(marks@) =~= all.push(
                    skip_evidence(state, llm_id@, "callback_failed"@),
                ));
                return (marks, CompleteAction::Done);
            },
        };
        let mut parent_memory_ids: Vec<String> = Vec::new();
        let mut i: usize = 0;
        while i < turn.selected.len()
            invariant
                i <= turn.selected@.len(),
                parent_memory_ids@.len() == i,
                forall|j: int|
                    0 <= j < i ==> (#[trigger] parent_memory_ids@[j])@ == turn.selected@[j]@.record.id,
            decreases turn.selected@.len() - i,
        {
            parent_memory_ids.push(turn.selected[i].record.id.clone());
            i += 1;
        }
        assert(texts(parent_memory_ids@) =~= matched_ids(view.selected));
        let TurnState { namespace, original_user, .. } = turn;
        match (namespace, original_user) {
            (Some(namespace), Some(user)) => {
                let content = projection_content(
                    self.config.write_projection,
                    user.as_str(),
                    &assistant,
                );
                let mut provenance_metadata = JsonObject::new();
                provenance_metadata.insert("projection_version", Json::text("0.1"));
                let mut metadata = JsonObject::new();
                metadata.insert("relay_automatic", Json::boolean(true));
                let source_ids: Vec<String> = vec![llm_id.to_owned()];
                assert(texts(source_ids@) =~= seq![llm_id@]);
                let request = MemoryStoreRequest {
                    context: MemoryRequestContext {
                        operation_id: operation_id(llm_id, "store"),
                        deadline: Some(now.plus_millis(self.config.operation_timeout_millis)),
                    },
                    namespace,
                    content: MemoryContent::Json { value: content },
                    event_timestamp: now,
                    provenance: MemoryProvenance {
                        source: "llm_turn".to_owned(),
                        source_ids,
                        parent_memory_ids,
                        metadata: provenance_metadata,
                    },
                    metadata,
                    idempotency_key: Some(concat("llm-turn:", llm_id)),
                };
                assert(request@ == write_back(
                    state.config,
                    llm_id@,
                    view.namespace->0,
                    view.original_user->0,
                    opt_text(assistant),
                    view.selected,
                    now,
                ));
                match self.config.write_delivery {
                    WriteDelivery::Inline => (marks, CompleteAction::Store { request }),
                    WriteDelivery::Background => (marks, CompleteAction::Enqueue { request }),
                }
            },
            _ => {
                marks.push(self.skip_mark(llm_id, "missing_identity_or_content"));
                assert(evidence_views(marks@) =~= all.push(
                    skip_evidence(state, llm_id@, "missing_identity_or_content"@),
                ));
                (marks, CompleteAction::Done)
            },
        }
    }
}

/// Evidence of a store and what the call comes to: a failure counts under a closed policy only.
pub open spec fn stored_turn(
    state: ComponentView,
    llm_id: Seq<char>,
    namespace: NamespaceView,
    result: Result<StoreResultView, ErrorView>,
    latency_ms: nat,
) -> (OperationView, Option<FlowView>) {
    let policy = state.config.storage_policy;
    match result {
        Ok(stored) => (
            OperationView {
                operation_id: operation_id_of(llm_id, "store"@),
                llm_id,
                provider: state.provider,
                data: DataView::Stored {
                    namespace_ref: namespace_ref(namespace),
                    policy,
                    latency_ms,
                    memory_id: stored.record.id,
                    disposition: stored.disposition,
                },
            },
            None,
        ),
        Err(error) => (
            failure_evidence(state.provider, llm_id, "storage"@, policy, error),
            match policy {
                FailurePolicy::FailOpen => None,
                FailurePolicy::FailClosed => Some(
                    stage_failure("automatic memory storage"@, error),
                ),
            },
        ),
    }
}

/// Evidence of a refused admission and what the call comes to.
pub open spec fn refused_turn(state: ComponentView, llm_id: Seq<char>, error: ErrorView) -> (
    OperationView,
    Option<FlowView>,
) {
    let policy = state.config.storage_policy;
    (
        failure_evidence(state.provider, llm_id, "storage"@, policy, error),
        match policy {
            FailurePolicy::FailOpen => None,
            FailurePolicy::FailClosed => Some(
                stage_failure("automatic memory storage admission"@, error),
            ),
        },
    )
}

/// Evidence of a transition of a queued store.
pub open spec fn job_evidence(
    state: ComponentView,
    llm_id: Seq<char>,
    namespace: NamespaceView,
    transition: TransitionView,
) -> OperationView {
    OperationView {
        operation_id: operation_id_of(llm_id, "store"@),
        llm_id,
        provider: state.provider,
        data: DataView::StorageJob {
            namespace_ref: namespace_ref(namespace),
            policy: state.config.storage_policy,
            job_id: transition.status.job_id,
            sequence: transition.status.sequence,
            state: transition.status.state,
            attempts: transition.status.attempts,
            latency_ms: transition.elapsed_millis,
            memory_ids: match transition.status.outcome {
                Some(outcome) => outcome.memory_ids,
                None => Seq::empty(),
            },
            failure: match transition.status.error {
                Some(error) => Some(error_evidence_of(error)),
                None => None,
            },
        },
    }
}

/// The view of an optional failure of a call.
pub open spec fn opt_flow(error: Option<FlowError>) -> Option<FlowView> {
    match error {
        Some(error) => Some(error@),
        None => None,
    }
}

impl MemoryComponent {
    /// Finish a call once its turn was stored, or could not be.
    pub fn finish_store(
        &self,
        llm_id: &str,
        namespace: &MemoryNamespace,
        result: Result<MemoryStoreResult, MemoryOperationError>,
        latency_ms: u64,
    ) -> (r: (OperationEvidence, Option<FlowError>))
        ensures
            (r.0@, opt_flow(r.1)) == stored_turn(
                self@,
                llm_id@,
                namespace@,
                outcome(result),
                latency_ms as nat,
            ),
    {
        let policy = self.config.storage_policy;
        match result {
            Ok(stored) => (
                OperationEvidence {
                    operation_id: operation_id(llm_id, "store"),
                    llm_id: llm_id.to_owned(),
                    provider: self.provider.clone(),
                    data: OperationData::Stored {
                        namespace_ref: namespace_reference(namespace),
                        policy,
                        latency_ms,
                        memory_id: stored.record.id,
                        disposition: stored.disposition,
                    },
                },
                None,
            ),
            Err(error) => (
                failure_mark(&self.provider, llm_id, "storage", policy, &error),
                match policy {
                    FailurePolicy::FailOpen => None,
                    FailurePolicy::FailClosed => Some(
                        flow_error("automatic memory storage", &error),
                    ),
                },
            ),
        }
    }

    /// Finish a call whose turn the queue refused.
    pub fn finish_refused(&self, llm_id: &str, error: &MemoryOperationError) -> (r: (
        OperationEvidence,
        Option<FlowError>,
    ))
        ensures
            (r.0@, opt_flow(r.1)) == refused_turn(self@, llm_id@, error@),
    {
        let policy = self.config.storage_policy;
        (
            failure_mark(&self.provider, llm_id, "storage", policy, error),
            match policy {
                FailurePolicy::FailOpen => None,
                FailurePolicy::FailClosed => Some(
                    flow_error("automatic memory storage admission", error),
                ),
            },
        )
    }

    /// Evidence of a transition of a queued store.
    pub fn job_mark(
        &self,
        llm_id: &str,
        namespace: &MemoryNamespace,
        transition: &MemoryWorkTransition,
    ) -> (r: OperationEvidence)
        ensures
            r@ == job_evidence(self@, llm_id@, namespace@, transition@),
    {
        let memory_ids = match &transition.outcome {
            Some(outcome) => {
                let ids = outcome.memory_ids.clone();
                assert(texts(ids@) =~= texts(outcome.memory_ids@));
                ids
            },
            None => Vec::new(),
        };
        assert(transition.outcome is None ==> texts(memory_ids@) =~= Seq::empty());
        OperationEvidence {
            operation_id: operation_id(llm_id, "store"),
            llm_id: llm_id.to_owned(),
            provider: self.provider.clone(),
            data: OperationData::StorageJob {
                namespace_ref: namespace_reference(namespace),
                policy: self.config.storage_policy,
                job_id: transition.job_id.clone(),
                sequence: transition.sequence,
                state: transition.state,
                attempts: transition.attempts,
                latency_ms: transition.elapsed_millis,
                memory_ids,
                failure: match &transition.error {
                    Some(error) => Some(error_evidence(error)),
                    None => None,
                },
            },
        }
    }

    /// A queue for the component's write-back. There is one for background delivery only.
    pub fn background_queue(&self) -> (r: Option<MemoryWorkQueue>)
        requires
            self.wf(),
        ensures
            match self@.config.write_delivery {
                WriteDelivery::Inline => r is None,
                WriteDelivery::Background => r matches Some(queue) && queue.wf() && queue@
                    == fresh_queue(self@.config.background_queue),
            },
    {
        match self.config.write_delivery {
            WriteDelivery::Inline => None,
            WriteDelivery::Background => match MemoryWorkQueue::new(self.config.background_queue) {
                Ok(queue) => Some(queue),
                Err(_) => None,
            },
        }
    }
}

} // verus!
