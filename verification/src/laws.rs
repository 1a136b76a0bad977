//! What holds across the parts of the library.

use vstd::prelude::*;
use crate::automatic::{
    latest_words_count, user_text, without_memory_block, ConfigView, MessageView,
};
use crate::component::{
    completed_turn, prepared_turn, projection, recall_request, searched_turn, write_back,
    ActionView, ComponentView, PrepareView,
};
use crate::component_laws::projections_hold_the_words;
use crate::conformance::{
    agreement_objection, capability_name, deadline_objection, idempotency_objection,
    isolation_objection, match_with, order_objection, partial_objection, partial_result,
    preservation_objection, run_context, run_namespace, run_search, search_objection, seed_store,
    store_objection, Capability,
};
use crate::double::quotient_is_finite;
use crate::equality::{failure_equal, match_equal, object_equal, record_equal, result_equal};
use crate::error::ErrorView;
use crate::in_memory::{
    best_matches, caller_key_is_idempotent, candidate, candidate_count, context_does_not_matter,
    creates, grown, key_conflict, matched_records, new_record, other_records_do_not_matter, overlap,
    overlap_is_bounded, replay_of, replayed, request_payload, same_payload,
    search_grows_by_the_stored_record, search_is_deterministic, store_keeps_invariant,
    store_outcome, stored_record_is_recalled, tokens, used_key_is_known, word_at, words_are_few,
    ProviderView,
};
use crate::json::{
    json_equal, json_equals_itself, json_member, no_members, object_contained, JsonModel,
};
use crate::maintainer::{
    derivation, derivation_goes_by_record, derived_memories_are_not_sources, derived_store,
    source_search, sources, sources_go_by_record, MaintenanceStepView, PlanView,
};
use crate::memory::{
    namespace_fault, no_filter, positive_score, store_fault, ContentView, ContextView, MatchView, MemorySearchScope,
    MemoryStoreDisposition, NamespaceView, RecordView, SearchRequestView, SearchResultView,
    StoreRequestView, StoreResultView,
};
use crate::metadata::enabled;
use crate::provider::unsupported_failure;
use crate::queue_laws::queued_stores_keep_their_key;
use crate::runtime::deadline_failure;
use crate::text::{blank, lower_case};
use crate::time::Timestamp;
use crate::wire::{payload_model, payload_model_is_injective};
use crate::work::PayloadView;
use crate::work_queue::{queued_store, with_deadline};

verus! {

/// A turn that was written back is recalled: a later call of the same tenant and subject that
/// shares a word with it gets it from the reference provider, in any session, where the limit
/// leaves room for every candidate.
pub proof fn completed_turn_is_recalled(
    state: ProviderView,
    config: ConfigView,
    llm_id: Seq<char>,
    namespace: NamespaceView,
    user: Seq<char>,
    assistant: Option<Seq<char>>,
    selected: Seq<MatchView>,
    stored_at: Timestamp,
    next_id: Seq<char>,
    next_namespace: NamespaceView,
    next_user: Seq<char>,
    now: Timestamp,
    matches: Seq<MatchView>,
)
    requires
        state.inv(),
        config.search_scope == MemorySearchScope::Subject,
        next_namespace.tenant_id == namespace.tenant_id,
        next_namespace.subject_id == namespace.subject_id,
        ({
            let turn = write_back(config, llm_id, namespace, user, assistant, selected, stored_at);
            let request = recall_request(config, next_id, next_namespace, next_user, now);
            &&& creates(store_outcome(state, turn, stored_at))
            &&& overlap(next_user, turn.content) > 0
            &&& candidate_count(grown(state, turn, stored_at).records, request) <= request.limit
            &&& best_matches(grown(state, turn, stored_at).records, request, matches)
        }),
    ensures
        exists|i: int|
            0 <= i < matches.len() && (#[trigger] matches[i]).record.content == (
            ContentView::Json { value: projection(config.write_projection, user, assistant) })
                && matches[i].record.namespace == namespace,
{
    let turn = write_back(config, llm_id, namespace, user, assistant, selected, stored_at);
    let request = recall_request(config, next_id, next_namespace, next_user, now);
    let record = new_record(state.next_id + 1, turn, stored_at);
    assert(object_contained(no_members(), record.metadata));
    assert(candidate(record, request));
    stored_record_is_recalled(state, turn, stored_at, request, matches);
    let i = choose|i: int| 0 <= i < matches.len() && (#[trigger] matches[i]).record == record;
    assert(matches[i].record.content == turn.content);
}

/// What a call recalls belongs to its own tenant and subject.
pub proof fn recall_stays_with_the_subject(
    state: ProviderView,
    config: ConfigView,
    llm_id: Seq<char>,
    namespace: NamespaceView,
    user: Seq<char>,
    now: Timestamp,
    matches: Seq<MatchView>,
)
    requires
        best_matches(
            state.records,
            recall_request(config, llm_id, namespace, user, now),
            matches,
        ),
    ensures
        forall|i: int|
            0 <= i < matches.len() ==> (#[trigger] matches[i]).record.namespace.tenant_id
                == namespace.tenant_id && matches[i].record.namespace.subject_id
                == namespace.subject_id,
{
}

/// A queued store creates at most one record: an attempt after one that stored, with a fresh
/// deadline, is answered with the record that is there.
pub proof fn retried_store_creates_once(
    state: ProviderView,
    request: StoreRequestView,
    first_deadline: Timestamp,
    second_deadline: Timestamp,
    first_now: Timestamp,
    second_now: Timestamp,
)
    requires
        state.inv(),
        ({
            let work = PayloadView::Store(queued_store(request));
            let first = with_deadline(work, first_deadline)->Store_0;
            creates(store_outcome(state, first, first_now))
        }),
    ensures
        ({
            let work = PayloadView::Store(queued_store(request));
            let first = with_deadline(work, first_deadline)->Store_0;
            let second = with_deadline(work, second_deadline)->Store_0;
            store_outcome(grown(state, first, first_now), second, second_now) == Ok::<
                StoreResultView,
                ErrorView,
            >(
                StoreResultView {
                    record: new_record(state.next_id + 1, first, first_now),
                    disposition: MemoryStoreDisposition::Existing,
                },
            )
        }),
{
    let work = PayloadView::Store(queued_store(request));
    let first = with_deadline(work, first_deadline)->Store_0;
    let second = with_deadline(work, second_deadline)->Store_0;
    assert(store_fault(second) == store_fault(first));
    caller_key_is_idempotent(state, first, first_now, second, second_now);
}

/// Maintenance that is repeated over the same source records derives one record: the reference
/// provider answers the second time with the record that is there, whatever operation asks and
/// however the sources rank.
pub proof fn repeated_maintenance_creates_once(
    state: ProviderView,
    first: PlanView,
    second: PlanView,
    found: Seq<MatchView>,
    again: Seq<MatchView>,
    first_now: Timestamp,
    second_now: Timestamp,
)
    requires
        state.inv(),
        matched_records(again) == matched_records(found),
        creates(store_outcome(state, derived_store(first, found), first_now)),
        second.namespace == first.namespace,
        second.action == first.action,
        second.window.checkpoint_id == first.window.checkpoint_id,
        second.window.previous_checkpoint_id == first.window.previous_checkpoint_id,
    ensures
        store_outcome(
            grown(state, derived_store(first, found), first_now),
            derived_store(second, again),
            second_now,
        ) == Ok::<StoreResultView, ErrorView>(
            StoreResultView {
                record: new_record(state.next_id + 1, derived_store(first, found), first_now),
                disposition: MemoryStoreDisposition::Existing,
            },
        ),
{
    let one = derived_store(first, found);
    let two = derived_store(second, again);
    derivation_goes_by_record(second, found, again);
    reveal_strlit(":");
    assert(two.context.operation_id[second.context.operation_id.len() as int] == ':');
    assert(!blank(two.context.operation_id));
    assert(store_fault(two) is None);
    caller_key_is_idempotent(state, one, first_now, two, second_now);
}

/// The provider after a store request.
pub open spec fn after_store(
    state: ProviderView,
    request: StoreRequestView,
    now: Timestamp,
) -> ProviderView {
    if creates(store_outcome(state, request, now)) {
        grown(state, request, now)
    } else {
        state
    }
}

/// A conflict changes nothing: a request that reuses a caller key with another payload is refused,
/// the provider stays as it was, and the request that the key stands for is still answered with
/// its record.
pub proof fn conflict_changes_nothing(
    state: ProviderView,
    record: RecordView,
    known: StoreRequestView,
    other: StoreRequestView,
    now: Timestamp,
    later: Timestamp,
)
    requires
        store_fault(known) is None,
        replayed(state, known) == Some(record),
        same_payload(record, known),
        store_fault(other) is None,
        replayed(state, other) == Some(record),
        !same_payload(record, other),
    ensures
        store_outcome(state, other, now) == Err::<StoreResultView, ErrorView>(key_conflict(other)),
        after_store(state, other, now) == state,
        store_outcome(after_store(state, other, now), known, later) == Ok::<
            StoreResultView,
            ErrorView,
        >(StoreResultView { record, disposition: MemoryStoreDisposition::Existing }),
{
    used_key_is_known(state, other, record, now);
    used_key_is_known(state, known, record, later);
}

/// Maintenance may be repeated: over the reference provider, where nothing else was stored since
/// and the limit leaves room for every match, it finds the same sources in spite of its own
/// output, and is answered with the record that it derived before. Nothing more is created.
pub proof fn maintenance_is_replayed(
    state: ProviderView,
    first: PlanView,
    second: PlanView,
    first_now: Timestamp,
    second_now: Timestamp,
    before: Seq<MatchView>,
    after: Seq<MatchView>,
)
    requires
        state.inv(),
        second == (PlanView { context: second.context, ..first }),
        best_matches(state.records, source_search(first), before),
        sources(before).len() > 0,
        ({
            let derived = derived_store(first, sources(before));
            let next = after_store(state, derived, first_now);
            &&& store_outcome(state, derived, first_now) is Ok
            &&& best_matches(next.records, source_search(second), after)
            &&& candidate_count(next.records, source_search(second)) <= source_search(second).limit
        }),
    ensures
        ({
            let derived = derived_store(first, sources(before));
            let next = after_store(state, derived, first_now);
            let record = store_outcome(state, derived, first_now)->Ok_0.record;
            let repeated = derived_store(second, sources(after));
            &&& matched_records(sources(after)) == matched_records(sources(before))
            &&& derivation(
                second,
                SearchResultView { matches: after, partial_errors: Seq::empty() },
            ) == (MaintenanceStepView::Store { request: repeated, partial_errors: Seq::empty() })
            &&& store_outcome(next, repeated, second_now) == Ok::<StoreResultView, ErrorView>(
                StoreResultView { record, disposition: MemoryStoreDisposition::Existing },
            )
            &&& after_store(next, repeated, second_now) == next
        }),
{
    let used = sources(before);
    let derived = derived_store(first, used);
    let next = after_store(state, derived, first_now);
    let request = source_search(first);
    context_does_not_matter(next.records, source_search(second), request, after);
    if creates(store_outcome(state, derived, first_now)) {
        let record = new_record(state.next_id + 1, derived, first_now);
        if candidate(record, request) {
            search_grows_by_the_stored_record(state, derived, first_now, request, before, after);
            let at = choose|at: int|
                0 <= at <= before.len() && matched_records(after) == #[trigger] matched_records(
                    before,
                ).insert(at, record);
            let item = MatchView { record, score: before[0].score, rank: 0 };
            assert(matched_records(before.insert(at, item)) =~= matched_records(before).insert(
                at,
                record,
            ));
            sources_go_by_record(after, before.insert(at, item));
            derived_memories_are_not_sources(before, at, item);
        } else {
            other_records_do_not_matter(state.records, record, request, after);
            search_is_deterministic(state, request, before, after);
        }
    } else {
        search_is_deterministic(state, request, before, after);
    }
    let again = sources(after);
    assert(matched_records(again).len() == again.len());
    assert(matched_records(used).len() == used.len());
    derivation_goes_by_record(second, used, again);
    let repeated = derived_store(second, again);
    assert(repeated == (StoreRequestView { context: repeated.context, ..derived }));
    reveal_strlit(":");
    assert(repeated.context.operation_id[second.context.operation_id.len() as int] == ':');
    assert(!blank(repeated.context.operation_id));
    assert(store_fault(repeated) is None);
    if creates(store_outcome(state, derived, first_now)) {
        caller_key_is_idempotent(state, derived, first_now, repeated, second_now);
    } else {
        used_key_is_known(state, repeated, replayed(state, derived)->0, second_now);
    }
}

/// A provider that refuses an optional operation as unsupported agrees with not advertising it.
pub proof fn default_operations_agree(
    provider: Seq<char>,
    capability: Capability,
    operation_id: Seq<char>,
)
    ensures
        agreement_objection(
            capability_name(capability),
            false,
            Some(unsupported_failure(provider, capability, operation_id)),
        ) is None,
{
}

/// The runtime keeps what a conformance run asks of it: a partial result that comes back as it
/// was, and a deadline that drops the one operation that was started, raise no objection.
pub proof fn runtime_probes_pass(context: ContextView, provider: Seq<char>)
    ensures
        partial_objection(Ok(partial_result())) is None,
        deadline_objection(Some(deadline_failure(context, provider)), 1, true) is None,
{
    let result = partial_result();
    assert(failure_equal(result.partial_errors[0], result.partial_errors[0]));
    assert(result_equal(result, result));
}

/// No record and no caller key of a tenant is held.
pub open spec fn tenant_is_new(state: ProviderView, tenant_id: Seq<char>) -> bool {
    &&& forall|i: int|
        0 <= i < state.records.len() ==> (#[trigger] state.records[i]).namespace.tenant_id
            != tenant_id
    &&& forall|i: int|
        0 <= i < state.replays.len() ==> (#[trigger] state.replays[i]).namespace.tenant_id
            != tenant_id
}

proof fn new_tenant_has_no_keys(
    state: ProviderView,
    namespace: NamespaceView,
    key: Seq<char>,
    n: nat,
)
    requires
        tenant_is_new(state, namespace.tenant_id),
        n <= state.replays.len(),
    ensures
        replay_of(state.replays.take(n as int), namespace, key) is None,
    decreases n,
{
    if n > 0 {
        let some = state.replays.take(n as int);
        assert(some.drop_last() =~= state.replays.take(n - 1));
        assert(some.last() == state.replays[n - 1]);
        new_tenant_has_no_keys(state, namespace, key, (n - 1) as nat);
    }
}

/// The requests of a conformance run are valid.
pub proof fn conformance_requests_are_valid(run_id: Seq<char>)
    ensures
        store_fault(seed_store(run_id)) is None,
        store_fault(
            StoreRequestView {
                context: run_context(run_id, "idempotent-replay"@),
                ..seed_store(run_id)
            },
        ) is None,
        store_fault(
            StoreRequestView {
                context: run_context(run_id, "idempotent-conflict"@),
                content: ContentView::Text { text: "different conformance payload"@ },
                ..seed_store(run_id)
            },
        ) is None,
{
    reveal_strlit("-");
    reveal_strlit("conformance-");
    reveal_strlit("conformance");
    reveal_strlit("subject");
    reveal_strlit("session-a");
    reveal_strlit("assistant");
    reveal_strlit("conformance solarized editor preference");
    reveal_strlit("different conformance payload");
    let n = run_id.len() as int;
    let a = run_context(run_id, "required-store"@).operation_id;
    let b = run_context(run_id, "idempotent-replay"@).operation_id;
    let c = run_context(run_id, "idempotent-conflict"@).operation_id;
    let key = run_id + "-"@ + "required-store-key"@;
    assert(a[n] == '-' && b[n] == '-' && c[n] == '-' && key[n] == '-');
    assert(!blank(a) && !blank(b) && !blank(c) && !blank(key));
    let tenant = "conformance-"@ + run_id;
    assert(tenant[0] == 'c');
    assert(!blank(tenant));
    assert("subject"@[0] == 's' && "session-a"@[0] == 's' && "assistant"@[0] == 'a');
    assert(!blank("subject"@) && !blank("session-a"@) && !blank("assistant"@));
    assert("conformance"@[0] == 'c');
    assert(!blank("conformance"@));
    assert("conformance solarized editor preference"@[0] == 'c');
    assert(!blank("conformance solarized editor preference"@));
    assert("different conformance payload"@[0] == 'd');
    assert(!blank("different conformance payload"@));
}

/// An object equals itself.
pub proof fn object_equals_itself(members: Map<Seq<char>, JsonModel>)
    ensures
        object_equal(members, members),
{
    assert forall|key: Seq<char>| #[trigger] members.dom().contains(key) implies json_equal(
        members[key],
        members[key],
    ) by {
        json_equals_itself(members[key]);
    }
}

/// A record equals itself.
pub proof fn record_equals_itself(record: RecordView)
    ensures
        record_equal(record, record),
{
    object_equals_itself(record.metadata);
    object_equals_itself(record.provider_metadata);
    object_equals_itself(record.provenance.metadata);
    if let ContentView::Json { value } = record.content {
        json_equals_itself(value);
    }
}

/// A search result equals itself, where its scores are overlaps.
pub proof fn overlap_result_equals_itself(result: SearchResultView)
    requires
        forall|i: int|
            0 <= i < result.matches.len() ==> (#[trigger] result.matches[i]).score is Overlap,
        result.partial_errors.len() == 0,
    ensures
        result_equal(result, result),
{
    assert forall|i: int| 0 <= i < result.matches.len() implies match_equal(
        #[trigger] result.matches[i],
        result.matches[i],
    ) by {
        record_equals_itself(result.matches[i].record);
        let score = result.matches[i].score;
        quotient_is_finite(score->matched as nat, score->total as nat);
    }
}

/// The reference provider meets every requirement on a provider: over a tenant that it has not
/// seen, whatever it holds of others, a run has nothing to object to in what it answers.
pub proof fn reference_provider_conforms(
    state: ProviderView,
    run_id: Seq<char>,
    seeded_at: Timestamp,
    later: Timestamp,
    found: Seq<MatchView>,
    isolated: Seq<MatchView>,
    first: Seq<MatchView>,
    second: Seq<MatchView>,
)
    requires
        state.inv(),
        state.next_id < u64::MAX,
        tenant_is_new(state, "conformance-"@ + run_id),
        ({
            let seed = seed_store(run_id);
            let conflict = ContentView::Text { text: "different conformance payload"@ };
            let query = "solarized editor preference"@;
            let here = run_namespace(run_id, "subject"@, "session-b"@, "assistant"@);
            let other = run_namespace(run_id, "other-subject"@, "session-b"@, "assistant"@);
            let next = grown(state, seed, seeded_at);
            &&& best_matches(next.records, run_search(run_id, "required-search"@, here, query), found)
            &&& best_matches(
                next.records,
                run_search(run_id, "isolated-search"@, other, query),
                isolated,
            )
            &&& best_matches(
                next.records,
                run_search(run_id, "deterministic-search"@, here, query),
                first,
            )
            &&& best_matches(
                next.records,
                run_search(run_id, "deterministic-search"@, here, query),
                second,
            )
        }),
    ensures
        ({
            let seed = seed_store(run_id);
            let stored = store_outcome(state, seed, seeded_at);
            let next = grown(state, seed, seeded_at);
            let record = new_record(state.next_id + 1, seed, seeded_at);
            let replay = StoreRequestView {
                context: run_context(run_id, "idempotent-replay"@),
                ..seed
            };
            let conflict = StoreRequestView {
                context: run_context(run_id, "idempotent-conflict"@),
                content: ContentView::Text { text: "different conformance payload"@ },
                ..seed
            };
            &&& stored matches Ok(result) && result.record == record
            &&& store_objection(stored) is None
            &&& search_objection(answered(found)) is None
            &&& preservation_objection(answered(found), record) is None
            &&& isolation_objection(answered(found), answered(isolated), record) is None
            &&& order_objection(answered(first), answered(second)) is None
            &&& idempotency_objection(
                store_outcome(next, replay, later),
                store_outcome(next, conflict, later),
                record,
            ) is None
        }),
{
    let seed = seed_store(run_id);
    let next = grown(state, seed, seeded_at);
    let record = new_record(state.next_id + 1, seed, seeded_at);
    let query = "solarized editor preference"@;
    let here = run_namespace(run_id, "subject"@, "session-b"@, "assistant"@);
    let other = run_namespace(run_id, "other-subject"@, "session-b"@, "assistant"@);
    conformance_requests_are_valid(run_id);
    new_tenant_has_no_keys(
        state,
        seed.namespace,
        seed.idempotency_key->0,
        state.replays.len(),
    );
    assert(state.replays.take(state.replays.len() as int) =~= state.replays);
    assert(creates(store_outcome(state, seed, seeded_at)));
    store_keeps_invariant(state, seed, seeded_at);
    let request = run_search(run_id, "required-search"@, here, query);
    seed_shares_a_word(run_id);
    seed_is_the_only_candidate(state, run_id, seeded_at, request);
    assert(found.len() == 1);
    assert(found[0].record == record);
    assert(match_with(found, record.id) == Some(found[0]));
    record_equals_itself(record);
    reveal_strlit("solarized editor preference");
    overlap_is_bounded(query, seed.content);
    assert(positive_score(found[0].score));
    let elsewhere = run_search(run_id, "isolated-search"@, other, query);
    reveal_strlit("subject");
    reveal_strlit("other-subject");
    assert("subject"@.len() != "other-subject"@.len());
    assert(isolated.len() == 0) by {
        if isolated.len() > 0 {
            let item = isolated[0].record;
            let k = choose|k: int| 0 <= k < next.records.len() && next.records[k] == item;
            assert(candidate(item, elsewhere));
            if k < state.records.len() {
                assert(next.records[k] == state.records[k]);
            }
        }
    }
    search_is_deterministic(
        next,
        run_search(run_id, "deterministic-search"@, here, query),
        first,
        second,
    );
    overlap_result_equals_itself(
        SearchResultView { matches: first, partial_errors: Seq::empty() },
    );
    let replay = StoreRequestView { context: run_context(run_id, "idempotent-replay"@), ..seed };
    let conflict = StoreRequestView {
        context: run_context(run_id, "idempotent-conflict"@),
        content: ContentView::Text { text: "different conformance payload"@ },
        ..seed
    };
    caller_key_is_idempotent(state, seed, seeded_at, replay, later);
    reveal_strlit("different conformance payload");
    reveal_strlit("conformance solarized editor preference");
    assert("different conformance payload"@[0] != "conformance solarized editor preference"@[0]);
    if request_payload(conflict) == request_payload(seed) {
        payload_model_is_injective(
            conflict.content,
            conflict.event_timestamp,
            conflict.provenance,
            conflict.metadata,
            seed.content,
            seed.event_timestamp,
            seed.provenance,
            seed.metadata,
        );
    }
    caller_key_is_idempotent(state, seed, seeded_at, conflict, later);
}

/// The seed of a run shares a word with the query of its searches.
proof fn seed_shares_a_word(run_id: Seq<char>)
    ensures
        overlap("solarized editor preference"@, seed_store(run_id).content) > 0,
{
    let query = "solarized editor preference"@;
    let text = "conformance solarized editor preference"@;
    reveal_strlit("solarized editor preference");
    reveal_strlit("conformance solarized editor preference");
    assert(query[0] == 's' && query[1] == 'o' && query[2] == 'l' && query[3] == 'a' && query[4]
        == 'r' && query[5] == 'i' && query[6] == 'z' && query[7] == 'e' && query[8] == 'd'
        && query[9] == ' ');
    assert(text[11] == ' ' && text[12] == 's' && text[13] == 'o' && text[14] == 'l' && text[15]
        == 'a' && text[16] == 'r' && text[17] == 'i' && text[18] == 'z' && text[19] == 'e'
        && text[20] == 'd' && text[21] == ' ');
    assert(word_at(query, 0, 9));
    assert(word_at(text, 12, 21));
    assert(query.subrange(0, 9) =~= text.subrange(12, 21));
    let word = lower_case(query.subrange(0, 9));
    assert(tokens(query).contains(word));
    assert(tokens(text).contains(word));
    words_are_few(query, query.len());
    let shared = tokens(query).intersect(tokens(text));
    assert(shared.contains(word));
    assert(shared.len() > 0) by {
        if shared.len() == 0 {
            shared.lemma_len0_is_empty();
        }
    }
}

/// A search that was answered without failures.
pub open spec fn answered(matches: Seq<MatchView>) -> Result<SearchResultView, ErrorView> {
    Ok(SearchResultView { matches, partial_errors: Seq::empty() })
}

/// Records none of which is a candidate have no candidates.
proof fn no_candidates(records: Seq<RecordView>, request: SearchRequestView)
    requires
        forall|k: int| 0 <= k < records.len() ==> !candidate(#[trigger] records[k], request),
    ensures
        records.filter(|item: RecordView| candidate(item, request)).len() == 0,
    decreases records.len(),
{
    reveal(Seq::filter);
    if records.len() > 0 {
        let rest = records.drop_last();
        assert forall|k: int| 0 <= k < rest.len() implies !candidate(#[trigger] rest[k], request) by {
            assert(rest[k] == records[k]);
        }
        no_candidates(rest, request);
        assert(!candidate(records[records.len() - 1], request));
    }
}

/// Over a tenant that was new, the seed is the only candidate of a search of its subject.
proof fn seed_is_the_only_candidate(
    state: ProviderView,
    run_id: Seq<char>,
    seeded_at: Timestamp,
    request: SearchRequestView,
)
    requires
        tenant_is_new(state, "conformance-"@ + run_id),
        request.namespace == run_namespace(run_id, "subject"@, "session-b"@, "assistant"@),
        request.scope == MemorySearchScope::Subject,
        request.filter == no_filter(),
        overlap(request.query, seed_store(run_id).content) > 0,
    ensures
        candidate_count(grown(state, seed_store(run_id), seeded_at).records, request) == 1,
        forall|k: int|
            0 <= k < state.records.len() ==> !candidate(#[trigger] state.records[k], request),
        candidate(new_record(state.next_id + 1, seed_store(run_id), seeded_at), request),
{
    let seed = seed_store(run_id);
    let next = grown(state, seed, seeded_at);
    let record = new_record(state.next_id + 1, seed, seeded_at);
    let eligible = |item: RecordView| candidate(item, request);
    assert(object_contained(no_members(), record.metadata));
    assert(candidate(record, request));
    let others = state.records.filter(eligible);
    no_candidates(state.records, request);
    assert(next.records.drop_last() =~= state.records);
    assert(next.records.filter(eligible) == others.push(record)) by {
        reveal(Seq::filter);
    }
}

/// Queued stores keep their caller key: two jobs with the same namespace, key and payload create one
/// record, whatever their identifiers. The second is answered with the record of the first.
pub proof fn queued_stores_with_one_key_create_once(
    state: ProviderView,
    first: StoreRequestView,
    second: StoreRequestView,
    first_now: Timestamp,
    second_now: Timestamp,
)
    requires
        state.inv(),
        first.idempotency_key is Some,
        second.idempotency_key == first.idempotency_key,
        second.namespace == first.namespace,
        second.content == first.content,
        second.event_timestamp == first.event_timestamp,
        second.provenance == first.provenance,
        second.metadata == first.metadata,
        store_fault(second) is None,
        creates(store_outcome(state, queued_store(first), first_now)),
    ensures
        ({
            let next = after_store(state, queued_store(first), first_now);
            let answer = store_outcome(next, queued_store(second), second_now);
            &&& answer == Ok::<StoreResultView, ErrorView>(
                StoreResultView {
                    record: store_outcome(state, queued_store(first), first_now)->Ok_0.record,
                    disposition: MemoryStoreDisposition::Existing,
                },
            )
            &&& after_store(next, queued_store(second), second_now) == next
        }),
{
    queued_stores_keep_their_key(first, second);
    queued_stores_keep_their_key(second, first);
    caller_key_is_idempotent(state, queued_store(first), first_now, queued_store(second), second_now);
}

/// What the user said last is what a call stores and what a later call finds it by: the words of a
/// turn whose last message is the user's are those that its store holds.
pub proof fn the_latest_words_are_stored(
    state: ComponentView,
    llm_id: Seq<char>,
    layers: Seq<JsonModel>,
    namespace: NamespaceView,
    messages: Seq<MessageView>,
    text: Seq<char>,
    found: SearchResultView,
    latency_ms: nat,
    assistant: Option<Seq<char>>,
    now: Timestamp,
)
    requires
        enabled(layers) == Ok::<bool, Seq<char>>(true),
        namespace_fault(namespace) is None,
        !blank(without_memory_block(text)),
    ensures
        ({
            let all = messages.push(MessageView::UserText(text));
            let words = without_memory_block(text);
            let step = prepared_turn(
                state,
                llm_id,
                layers,
                Some(Ok(namespace)),
                Some(all),
                now,
            ).1;
            &&& step matches PrepareView::Search { request, pending } && request.query == words
                && pending.original_user == words && ({
                let turn = searched_turn(state.config, pending, Ok(found), latency_ms);
                completed_turn(state, llm_id, turn, true, assistant, now).1 matches ActionView::Store {
                    request: stored,
                } ==> stored.namespace == namespace && (
                stored.content matches ContentView::Json { value } && json_member(value, "user"@)
                    == Some(JsonModel::Text(words)))
            })
        }),
{
    latest_words_count(messages, text, Seq::empty(), user_text(MessageView::UserParts(Seq::empty()))->0);
    projections_hold_the_words(
        state.config.write_projection,
        without_memory_block(text),
        assistant,
    );
}

} // verus!
