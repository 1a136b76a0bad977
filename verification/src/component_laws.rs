//! What holds of automatic memory around managed calls.

use vstd::prelude::*;
use crate::automatic::{
    config_error, content_text, injected, original_user, selection, total_estimate, ConfigView,
    FailurePolicy, MessageContent, MessageView, WriteProjection,
};
use crate::component::{
    assistant_text, codec_missing, completed_turn, encoded_turn, fresh_component, identity_missing,
    injection_failure, job_evidence, operation_id_of, prepare_failed,
    prepared_turn, projection, recall_evidence, recall_request, recalled, refused_turn,
    stage_evidence, stored_turn, write_back, ActionView, ComponentView, PendingView, PrepareView,
    RecallView, TurnView,
};
use crate::error::ErrorView;
use crate::evidence::{error_evidence_of, errors_of, items_of, namespace_ref, DataView};
use crate::json::{json_member, JsonModel};
use crate::memory::{
    namespace_fault, no_filter, scope_fault, search_fault, store_fault, ContentView, MatchView,
    NamespaceView, SearchResultView, StoreResultView,
};
use crate::metadata::{enabled, stage_failure};
use crate::text::{blank, white_space};
use crate::time::{later, Timestamp};
use crate::work::TransitionView;

verus! {

/// A call that opts out is left alone: nothing is searched and nothing is remembered of it, so
/// that nothing is stored when it completes.
pub proof fn opted_out_call_is_left_alone(
    state: ComponentView,
    llm_id: Seq<char>,
    layers: Seq<JsonModel>,
    decoded: Option<Result<NamespaceView, Seq<char>>>,
    messages: Option<Seq<MessageView>>,
    now: Timestamp,
)
    requires
        enabled(layers) == Ok::<bool, Seq<char>>(false),
    ensures
        prepared_turn(state, llm_id, layers, decoded, messages, now) == (
            state,
            PrepareView::PassThrough,
        ),
{
}

/// A layer that says whether memory is on overrules all layers behind it.
pub proof fn inner_layers_overrule(layers: Seq<JsonModel>, memory: JsonModel, value: bool)
    requires
        layers.len() > 0,
        json_member(layers[0], "memory"@) == Some(memory),
        json_member(memory, "enabled"@) == Some(JsonModel::Bool(value)),
    ensures
        enabled(layers) == Ok::<bool, Seq<char>>(value),
{
}

/// Under open policies no memory failure before a call fails the call. Only malformed metadata
/// does.
pub proof fn open_policies_never_fail_a_call(
    state: ComponentView,
    llm_id: Seq<char>,
    layers: Seq<JsonModel>,
    decoded: Option<Result<NamespaceView, Seq<char>>>,
    messages: Option<Seq<MessageView>>,
    now: Timestamp,
    pending: PendingView,
    result: Result<SearchResultView, ErrorView>,
    latency_ms: nat,
    turn: TurnView,
    failure: Option<Seq<char>>,
)
    requires
        state.config.identity_policy is FailOpen,
        state.config.retrieval_policy is FailOpen,
    ensures
        enabled(layers) is Ok ==> !(prepared_turn(
            state,
            llm_id,
            layers,
            decoded,
            messages,
            now,
        ).1 is Fail),
        !(recalled(state, llm_id, pending, result, latency_ms).1 is Fail),
        !(encoded_turn(state, llm_id, turn, failure).1 is Fail),
{
}

/// Under a closed policy a failed stage fails the call with evidence, and nothing is remembered of
/// the call.
pub proof fn closed_policy_fails_the_call(
    state: ComponentView,
    llm_id: Seq<char>,
    stage: Seq<char>,
    error: ErrorView,
    pending: PendingView,
    latency_ms: nat,
    turn: TurnView,
    text: Seq<char>,
)
    requires
        state.config.retrieval_policy is FailClosed,
    ensures
        prepare_failed(state, llm_id, stage, FailurePolicy::FailClosed, error).1 is Fail,
        prepare_failed(state, llm_id, stage, FailurePolicy::FailClosed, error).0 == state,
        recalled(state, llm_id, pending, Err(error), latency_ms).1 is Fail,
        recalled(state, llm_id, pending, Err(error), latency_ms).0 == state,
        encoded_turn(state, llm_id, turn, Some(text)).1 is Fail,
        encoded_turn(state, llm_id, turn, Some(text)).0 == state,
{
}

/// Calls do not see each other: what happens in one leaves what is remembered of another.
pub proof fn calls_are_isolated(
    state: ComponentView,
    llm_id: Seq<char>,
    other: Seq<char>,
    layers: Seq<JsonModel>,
    decoded: Option<Result<NamespaceView, Seq<char>>>,
    messages: Option<Seq<MessageView>>,
    now: Timestamp,
    pending: PendingView,
    result: Result<SearchResultView, ErrorView>,
    latency_ms: nat,
    turn: TurnView,
    failure: Option<Seq<char>>,
)
    requires
        other != llm_id,
    ensures
        same_turn(
            state,
            prepared_turn(state, llm_id, layers, decoded, messages, now).0,
            other,
        ),
        same_turn(state, recalled(state, llm_id, pending, result, latency_ms).0, other),
        same_turn(state, encoded_turn(state, llm_id, turn, failure).0, other),
        same_turn(state, state.without_turn(llm_id), other),
{
}

/// Two states of a component remember the same of a call.
pub open spec fn same_turn(left: ComponentView, right: ComponentView, llm_id: Seq<char>) -> bool {
    &&& left.turns.dom().contains(llm_id) == right.turns.dom().contains(llm_id)
    &&& left.turns.dom().contains(llm_id) ==> left.turns[llm_id] == right.turns[llm_id]
}

/// A text with a visible character is not blank.
proof fn visible_is_not_blank(value: Seq<char>, at: int)
    requires
        0 <= at < value.len(),
        !white_space(value[at]),
    ensures
        !blank(value),
{
}

/// The search of a call is valid, where its namespace has what the search scope asks for.
pub proof fn recall_request_is_valid(
    config: ConfigView,
    llm_id: Seq<char>,
    namespace: NamespaceView,
    user: Seq<char>,
    now: Timestamp,
)
    requires
        config_error(config) is None,
        scope_fault(config.search_scope, namespace) is None,
        !blank(user),
    ensures
        search_fault(recall_request(config, llm_id, namespace, user, now)) is None,
{
    reveal_strlit(":");
    let id = operation_id_of(llm_id, "search"@);
    assert(id[llm_id.len() as int] == ':');
    visible_is_not_blank(id, llm_id.len() as int);
}

/// The store of a completed turn is valid.
pub proof fn write_back_is_valid(
    config: ConfigView,
    llm_id: Seq<char>,
    namespace: NamespaceView,
    user: Seq<char>,
    assistant: Option<Seq<char>>,
    selected: Seq<MatchView>,
    now: Timestamp,
)
    requires
        namespace_fault(namespace) is None,
    ensures
        store_fault(write_back(config, llm_id, namespace, user, assistant, selected, now)) is None,
{
    reveal_strlit(":");
    reveal_strlit("llm_turn");
    reveal_strlit("llm-turn:");
    let id = operation_id_of(llm_id, "store"@);
    assert(id[llm_id.len() as int] == ':');
    visible_is_not_blank(id, llm_id.len() as int);
    assert("llm_turn"@[0] == 'l');
    visible_is_not_blank("llm_turn"@, 0);
    let key = "llm-turn:"@ + llm_id;
    assert(key[0] == 'l');
    visible_is_not_blank(key, 0);
}

/// A pending call is valid: its namespace is, and its user says something.
pub proof fn pending_call_is_valid(
    state: ComponentView,
    llm_id: Seq<char>,
    layers: Seq<JsonModel>,
    decoded: Option<Result<NamespaceView, Seq<char>>>,
    messages: Seq<MessageView>,
    now: Timestamp,
)
    requires
        config_error(state.config) is None,
        prepared_turn(state, llm_id, layers, decoded, Some(messages), now).1 is Search,
    ensures
        prepared_turn(state, llm_id, layers, decoded, Some(messages), now).1 matches PrepareView::Search {
            pending,
            ..
        } && namespace_fault(pending.namespace) is None && !blank(pending.original_user),
{
    original_user_is_visible(messages);
}

proof fn original_user_is_visible(messages: Seq<MessageView>)
    ensures
        original_user(messages) matches Some(user) ==> !blank(user),
    decreases messages.len(),
{
    if messages.len() > 0 {
        original_user_is_visible(messages.drop_last());
    }
}

/// A call that is prepared for a search is searched for with the user's latest words, in its own
/// namespace, with the scope and the number of candidates of the configuration, without a filter, and
/// until the configured time is up.
pub proof fn calls_search_for_the_latest_words(
    state: ComponentView,
    llm_id: Seq<char>,
    layers: Seq<JsonModel>,
    decoded: Option<Result<NamespaceView, Seq<char>>>,
    messages: Seq<MessageView>,
    now: Timestamp,
)
    ensures
        prepared_turn(state, llm_id, layers, decoded, Some(messages), now) matches (
            next,
            PrepareView::Search { request, pending },
        ) ==> {
            &&& next == state
            &&& Some(request.query) == original_user(messages)
            &&& pending.original_user == request.query
            &&& pending.messages == messages
            &&& pending.namespace == request.namespace
            &&& decoded is None ==> Some(request.namespace) == state.config.namespace
            &&& decoded is Some ==> decoded == Some(
                Ok::<NamespaceView, Seq<char>>(request.namespace),
            )
            &&& request.scope == state.config.search_scope
            &&& request.limit == state.config.max_candidates
            &&& request.filter == no_filter()
            &&& request.context.operation_id == llm_id + ":search"@
            &&& request.context.deadline == Some(
                later(now, state.config.operation_timeout_millis),
            )
        },
{
    reveal_strlit(":");
    reveal_strlit("search");
    reveal_strlit(":search");
    assert(llm_id + ":"@ + "search"@ =~= llm_id + ":search"@);
}

/// A call is searched for exactly where memory is on, a valid namespace is declared or configured,
/// its request can be read and the user says something.
pub proof fn calls_are_searched_when_they_can_be(
    state: ComponentView,
    llm_id: Seq<char>,
    layers: Seq<JsonModel>,
    decoded: Option<Result<NamespaceView, Seq<char>>>,
    messages: Option<Seq<MessageView>>,
    now: Timestamp,
)
    ensures
        prepared_turn(state, llm_id, layers, decoded, messages, now).1 is Search <==> {
            &&& enabled(layers) == Ok::<bool, Seq<char>>(true)
            &&& match decoded {
                Some(Ok(namespace)) => namespace_fault(namespace) is None,
                Some(Err(_)) => false,
                None => state.config.namespace is Some,
            }
            &&& messages matches Some(messages) && original_user(messages) is Some
        },
{
}

/// A call without an identity, and one whose request cannot be read, follow their policies: a closed
/// one fails the call, an open one lets it go on with the failure remembered and without memory.
pub proof fn unprepared_calls_follow_their_policy(
    state: ComponentView,
    llm_id: Seq<char>,
    layers: Seq<JsonModel>,
    namespace: NamespaceView,
    messages: Option<Seq<MessageView>>,
    now: Timestamp,
)
    requires
        enabled(layers) == Ok::<bool, Seq<char>>(true),
        namespace_fault(namespace) is None,
    ensures
        state.config.namespace is None ==> ({
            let (next, step) = prepared_turn(state, llm_id, layers, None, messages, now);
            match state.config.identity_policy {
                FailurePolicy::FailClosed => step is Fail && next == state,
                FailurePolicy::FailOpen => step is PassThrough && next.turns.dom().contains(llm_id)
                    && next.turns[llm_id].namespace is None
                    && next.turns[llm_id].original_user is None
                    && (next.turns[llm_id].failure matches Some(failure) && failure.stage
                    == "identity"@ && failure.policy is FailOpen && failure.error.code
                    is InvalidRequest),
            }
        }),
        ({
            let (next, step) = prepared_turn(
                state,
                llm_id,
                layers,
                Some(Ok(namespace)),
                None,
                now,
            );
            match state.config.retrieval_policy {
                FailurePolicy::FailClosed => step is Fail && next == state,
                FailurePolicy::FailOpen => step is PassThrough && next.turns.dom().contains(llm_id)
                    && next.turns[llm_id].namespace is None
                    && (next.turns[llm_id].failure matches Some(failure) && failure.stage
                    == "injection"@ && failure.error.code is Unsupported),
            }
        }),
{
}

/// What a search found is what a call remembers and selects from, and what is selected is what is
/// injected into its own messages. With nothing to inject the call is ready.
pub proof fn found_memories_are_selected_and_injected(
    state: ComponentView,
    llm_id: Seq<char>,
    pending: PendingView,
    found: SearchResultView,
    latency_ms: nat,
)
    ensures
        ({
            let (next, step) = recalled(state, llm_id, pending, Ok(found), latency_ms);
            let chosen = selection(
                found.matches,
                state.config.max_items,
                state.config.max_estimated_tokens,
            );
            let turn = TurnView {
                namespace: Some(pending.namespace),
                original_user: Some(pending.original_user),
                candidates: found.matches,
                selected: chosen,
                partial_errors: found.partial_errors,
                failure: None,
                search_latency_ms: latency_ms,
            };
            &&& chosen.len() > 0 ==> step == (RecallView::Inject {
                messages: injected(pending.messages, chosen),
                turn,
            }) && next == state
            &&& chosen.len() == 0 ==> step is Ready && next == (ComponentView {
                turns: state.turns.insert(llm_id, turn),
                ..state
            })
        }),
{
}

/// A call whose search failed goes on under an open policy: it remembers the failure, its namespace
/// and the user's words, so that the turn is still written back, and injects nothing.
pub proof fn failed_search_keeps_the_turn(
    state: ComponentView,
    llm_id: Seq<char>,
    pending: PendingView,
    error: ErrorView,
    latency_ms: nat,
)
    requires
        state.config.retrieval_policy is FailOpen,
    ensures
        ({
            let (next, step) = recalled(state, llm_id, pending, Err(error), latency_ms);
            let turn = next.turns[llm_id];
            &&& step is Ready
            &&& next.turns.dom().contains(llm_id)
            &&& turn.namespace == Some(pending.namespace)
            &&& turn.original_user == Some(pending.original_user)
            &&& turn.candidates.len() == 0 && turn.selected.len() == 0
            &&& turn.partial_errors.len() == 0
            &&& turn.failure matches Some(failure) && failure.stage == "retrieval"@ && failure.error
                == error && failure.policy is FailOpen
        }),
{
}

/// An injected call remembers its turn once its request is encoded. Where that fails it goes on under
/// an open policy with the memories taken out of the turn and all else kept.
pub proof fn encoded_calls_remember_their_turn(
    state: ComponentView,
    llm_id: Seq<char>,
    turn: TurnView,
    text: Seq<char>,
)
    ensures
        encoded_turn(state, llm_id, turn, None) == (
            ComponentView { turns: state.turns.insert(llm_id, turn), ..state },
            RecallView::Ready,
        ),
        state.config.retrieval_policy is FailOpen ==> ({
            let (next, step) = encoded_turn(state, llm_id, turn, Some(text));
            let kept = next.turns[llm_id];
            &&& step is Ready
            &&& next.turns.dom().contains(llm_id)
            &&& kept.selected.len() == 0
            &&& kept.namespace == turn.namespace && kept.original_user == turn.original_user
            &&& kept.candidates == turn.candidates
            &&& kept.failure matches Some(failure) && failure.stage == "injection"@
                && failure.error.code is Internal && !failure.error.retryable
        }),
{
}

/// A completed turn is written back exactly where the call succeeded and its namespace and the user's
/// words are known: at once or through the queue, as configured. The store holds this turn: its
/// namespace, the user's and the assistant's words, and the memories that were injected.
pub proof fn completed_turns_are_written_back(
    state: ComponentView,
    llm_id: Seq<char>,
    turn: TurnView,
    success: bool,
    assistant: Option<Seq<char>>,
    now: Timestamp,
)
    ensures
        ({
            let (told, action) = completed_turn(state, llm_id, turn, success, assistant, now);
            let due = success && turn.namespace is Some && turn.original_user is Some;
            &&& !(action is Done) <==> due
            &&& due ==> (action is Store <==> state.config.write_delivery is Inline)
            &&& action matches ActionView::Store { request } ==> request == write_back(
                state.config,
                llm_id,
                turn.namespace->0,
                turn.original_user->0,
                assistant,
                turn.selected,
                now,
            )
            &&& action matches ActionView::Enqueue { request } ==> request == write_back(
                state.config,
                llm_id,
                turn.namespace->0,
                turn.original_user->0,
                assistant,
                turn.selected,
                now,
            )
            &&& !due ==> told.len() > 0 && told.last().operation_id == llm_id + ":store"@
                && told.last().data == (DataView::StorageSkipped {
                reason: if !success {
                    "callback_failed"@
                } else {
                    "missing_identity_or_content"@
                },
            })
        }),
{
    reveal_strlit(":");
    reveal_strlit("store");
    reveal_strlit(":store");
    assert(llm_id + ":"@ + "store"@ =~= llm_id + ":store"@);
}

/// The store of a turn: under the call's own key in its namespace, happening now, derived from the
/// injected memories in their order, until the configured time is up.
pub proof fn write_back_holds_the_turn(
    config: ConfigView,
    llm_id: Seq<char>,
    namespace: NamespaceView,
    user: Seq<char>,
    assistant: Option<Seq<char>>,
    selected: Seq<MatchView>,
    now: Timestamp,
    i: int,
)
    ensures
        ({
            let request = write_back(config, llm_id, namespace, user, assistant, selected, now);
            &&& request.namespace == namespace
            &&& request.content == (ContentView::Json {
                value: projection(config.write_projection, user, assistant),
            })
            &&& request.event_timestamp == now
            &&& request.idempotency_key == Some("llm-turn:"@ + llm_id)
            &&& request.context.operation_id == llm_id + ":store"@
            &&& request.context.deadline == Some(later(now, config.operation_timeout_millis))
            &&& request.provenance.source == "llm_turn"@
            &&& request.provenance.source_ids == seq![llm_id]
            &&& request.provenance.parent_memory_ids.len() == selected.len()
            &&& 0 <= i < selected.len() ==> request.provenance.parent_memory_ids[i]
                == selected[i].record.id
            &&& json_member(JsonModel::Object(request.metadata), "relay_automatic"@) == Some(
                JsonModel::Bool(true),
            )
        }),
{
    reveal_strlit(":");
    reveal_strlit("store");
    reveal_strlit(":store");
    assert(llm_id + ":"@ + "store"@ =~= llm_id + ":store"@);
}

/// A turn is stored with the user's words, and with the assistant's exactly where they are projected:
/// `null` where the response could not be read.
pub proof fn projections_hold_the_words(
    kind: WriteProjection,
    user: Seq<char>,
    assistant: Option<Seq<char>>,
)
    ensures
        ({
            let stored = projection(kind, user, assistant);
            &&& json_member(stored, "user"@) == Some(JsonModel::Text(user))
            &&& json_member(stored, "version"@) == Some(JsonModel::Text("0.1"@))
            &&& kind is User ==> json_member(stored, "assistant"@) is None
            &&& kind is UserAndAssistant ==> json_member(stored, "assistant"@) == Some(
                match assistant {
                    Some(text) => JsonModel::Text(text),
                    None => JsonModel::Null,
                },
            )
        }),
{
    reveal_strlit("user");
    reveal_strlit("version");
    reveal_strlit("assistant");
    assert("user"@.len() == 4 && "version"@.len() == 7 && "assistant"@.len() == 9);
}

/// What a call comes to once its turn was stored, or could not be: a failure fails it under a closed
/// policy only, and is told in any case.
pub proof fn stores_follow_their_policy(
    state: ComponentView,
    llm_id: Seq<char>,
    namespace: NamespaceView,
    stored: StoreResultView,
    error: ErrorView,
    latency_ms: nat,
)
    ensures
        ({
            let (told, failed) = stored_turn(state, llm_id, namespace, Ok(stored), latency_ms);
            &&& failed is None
            &&& told.llm_id == llm_id && told.provider == state.provider
            &&& told.operation_id == llm_id + ":store"@
            &&& told.data == (DataView::Stored {
                namespace_ref: namespace_ref(namespace),
                policy: state.config.storage_policy,
                latency_ms,
                memory_id: stored.record.id,
                disposition: stored.disposition,
            })
        }),
        ({
            let (told, failed) = stored_turn(state, llm_id, namespace, Err(error), latency_ms);
            let (refused, fails) = refused_turn(state, llm_id, error);
            &&& failed is Some <==> state.config.storage_policy is FailClosed
            &&& fails is Some <==> state.config.storage_policy is FailClosed
            &&& told.data matches DataView::Failure { stage, policy, error: shown } && stage
                == "storage"@ && policy == state.config.storage_policy && shown
                == error_evidence_of(error)
            &&& refused == told
            &&& failed matches Some(flow) ==> flow == stage_failure(
                "automatic memory storage"@,
                error,
            )
            &&& fails matches Some(flow) ==> flow == stage_failure(
                "automatic memory storage admission"@,
                error,
            )
        }),
{
    reveal_strlit(":");
    reveal_strlit("store");
    reveal_strlit(":store");
    assert(llm_id + ":"@ + "store"@ =~= llm_id + ":store"@);
}

/// A transition of a queued store is told with the job's state, sequence, attempts, time, records and
/// failure, as part of the call that stored it.
pub proof fn queued_stores_are_told(
    state: ComponentView,
    llm_id: Seq<char>,
    namespace: NamespaceView,
    transition: TransitionView,
)
    ensures
        ({
            let told = job_evidence(state, llm_id, namespace, transition);
            &&& told.llm_id == llm_id && told.provider == state.provider
            &&& told.operation_id == llm_id + ":store"@
            &&& told.data matches DataView::StorageJob {
                namespace_ref: reference,
                policy,
                job_id,
                sequence,
                state: shown,
                attempts,
                latency_ms,
                memory_ids,
                failure,
            } && reference == namespace_ref(namespace) && policy == state.config.storage_policy
                && job_id == transition.status.job_id && sequence == transition.status.sequence
                && shown == transition.status.state && attempts == transition.status.attempts
                && latency_ms == transition.elapsed_millis && (
            transition.status.outcome matches Some(outcome) ==> memory_ids == outcome.memory_ids)
                && (transition.status.outcome is None ==> memory_ids.len() == 0) && (
            transition.status.error matches Some(error) ==> failure == Some(
                error_evidence_of(error),
            )) && (transition.status.error is None ==> failure is None)
        }),
{
    reveal_strlit(":");
    reveal_strlit("store");
    reveal_strlit(":store");
    assert(llm_id + ":"@ + "store"@ =~= llm_id + ":store"@);
}

/// A completed call tells of its search with every candidate and of its injection with every injected
/// memory, and of a failed stage with its failure. A turn without a namespace has neither searched
/// nor injected.
pub proof fn turns_are_told(state: ComponentView, llm_id: Seq<char>, turn: TurnView)
    ensures
        turn.namespace is None ==> recall_evidence(state, llm_id, turn).len() == 0,
        turn.namespace matches Some(namespace) ==> ({
            let told = recall_evidence(state, llm_id, turn);
            &&& told.len() == 2
            &&& told[0].operation_id == llm_id + ":search"@
            &&& told[1].operation_id == llm_id + ":inject"@
            &&& told[0].llm_id == llm_id && told[1].llm_id == llm_id
            &&& told[0].provider == state.provider && told[1].provider == state.provider
            &&& told[0].data == (DataView::Retrieval {
                namespace_ref: namespace_ref(namespace),
                failed: turn.failure matches Some(failure) && failure.stage == "retrieval"@,
                policy: state.config.retrieval_policy,
                latency_ms: turn.search_latency_ms,
                items: items_of(turn.candidates),
                partial_errors: errors_of(turn.partial_errors),
            })
            &&& told[1].data == (DataView::Injection {
                namespace_ref: namespace_ref(namespace),
                policy: state.config.retrieval_policy,
                items: items_of(turn.selected),
                estimated_tokens: total_estimate(turn.selected),
            })
        }),
        turn.failure is None ==> stage_evidence(state, llm_id, turn).len() == 0,
        turn.failure matches Some(failure) ==> ({
            let told = stage_evidence(state, llm_id, turn);
            &&& told.len() == 1
            &&& told[0].llm_id == llm_id && told[0].provider == state.provider
            &&& told[0].data == (DataView::Failure {
                stage: failure.stage,
                policy: failure.policy,
                error: error_evidence_of(failure.error),
            })
            &&& failure.error.operation_id matches Some(id) ==> told[0].operation_id == id
            &&& failure.error.operation_id is None ==> told[0].operation_id == llm_id + ":"@
                + failure.stage
        }),
{
    reveal_strlit(":");
    reveal_strlit("search");
    reveal_strlit(":search");
    reveal_strlit("inject");
    reveal_strlit(":inject");
    assert(llm_id + ":"@ + "search"@ =~= llm_id + ":search"@);
    assert(llm_id + ":"@ + "inject"@ =~= llm_id + ":inject"@);
}

/// A completed call is told in order: first its search and injection, then its failed stage, then
/// why nothing is stored, where nothing is.
pub proof fn evidence_comes_in_order(
    state: ComponentView,
    llm_id: Seq<char>,
    turn: TurnView,
    success: bool,
    assistant: Option<Seq<char>>,
    now: Timestamp,
)
    ensures
        ({
            let (told, action) = completed_turn(state, llm_id, turn, success, assistant, now);
            let first = recall_evidence(state, llm_id, turn) + stage_evidence(state, llm_id, turn);
            &&& !(action is Done) ==> told == first
            &&& action is Done ==> told.len() == first.len() + 1 && told.drop_last() == first
        }),
{
    let first = recall_evidence(state, llm_id, turn) + stage_evidence(state, llm_id, turn);
    let (told, action) = completed_turn(state, llm_id, turn, success, assistant, now);
    if action is Done {
        assert(told.drop_last() =~= first);
    }
}

/// A new component remembers no call, and completing one forgets it alone.
pub proof fn components_start_empty(provider: Seq<char>, config: ConfigView, llm_id: Seq<char>)
    ensures
        fresh_component(provider, config).provider == provider,
        fresh_component(provider, config).config == config,
        !fresh_component(provider, config).turns.dom().contains(llm_id),
        !fresh_component(provider, config).without_turn(llm_id).turns.dom().contains(llm_id),
{
}

/// What the assistant says is the text of its message, where there is one.
pub proof fn the_assistant_says_its_text(content: MessageContent)
    ensures
        assistant_text(Some(content)) == Some(content_text(content)),
        assistant_text(None) is None,
{
}

/// Failures before a call name the stage as its operation, and the provider.
pub proof fn preparation_failures_are_named(
    llm_id: Seq<char>,
    provider: Seq<char>,
    text: Seq<char>,
)
    ensures
        identity_missing(llm_id, provider).code is InvalidRequest,
        identity_missing(llm_id, provider).operation_id == Some(llm_id + ":"@ + "identity"@),
        identity_missing(llm_id, provider).provider == Some(provider),
        codec_missing(llm_id, provider).code is Unsupported,
        codec_missing(llm_id, provider).operation_id == Some(llm_id + ":"@ + "injection"@),
        injection_failure(llm_id, provider, text).code is Internal,
        injection_failure(llm_id, provider, text).operation_id == Some(llm_id + ":"@ + "inject"@),
        injection_failure(llm_id, provider, text).message == "failed to inject selected memory: "@
            + text,
{
}

} // verus!
