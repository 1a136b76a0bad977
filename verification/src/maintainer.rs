//! Provider-neutral memory derivation policy.

use vstd::prelude::*;
use crate::error::ErrorView;
use crate::in_memory::{
    best_matches, candidate, candidate_count, every_candidate_is_found, filter_selected,
    filters_select_by_bounds, matched_records, matches_lie_in_the_scope, namespace_selected, overlap,
    ProviderView,
};
use crate::json::{json_member, json_models, no_members, Json, JsonModel, JsonObject};
use crate::memory::{
    error_views, maintenance_fault, match_views, outcome, record_views, search_fault, store_fault,
    ContentView, ContextView, MaintenanceRequestView, MaintenanceResultView, MatchView,
    MemoryContent, MemoryMaintenanceAction, MemoryMaintenanceRequest, MemoryMaintenanceResult,
    MemoryMaintenanceWindow, MemoryMatch, MemoryNamespace, MemoryOperationError, MemoryProvenance,
    MemoryRequestContext, MemorySearchRequest, MemorySearchResult, MemoryStoreRequest,
    MemoryStoreResult, NamespaceView, ProvenanceView, RecordView, SearchRequestView,
    SearchResultView, StoreRequestView, WindowView,
};
use crate::text::{blank, concat3, texts};
use crate::time::{earlier, Timestamp};
use crate::wire::{
    action_name, action_text, content_json, content_model, opt_text_json, opt_text_model,
};

verus! {

/// Artifact format emitted by [`ReferenceMaintainer`].
pub const REFERENCE_ARTIFACT_VERSION: &'static str = "0.1";

/// The name of the reference maintainer.
pub const REFERENCE_MAINTAINER: &'static str = "reference";

/// The source classification of derived memories.
pub const MAINTENANCE_SOURCE: &'static str = "maintenance";

/// Deterministic maintainer for tests, examples, and zero-service operation.
///
/// The reference transform preserves source contents in a versioned JSON artifact. It is not an
/// LLM summary. Records previously derived by a maintainer are excluded so replay cannot
/// recursively consolidate its own output.
#[derive(Debug, Clone, Copy)]
pub struct ReferenceMaintainer;

impl Default for ReferenceMaintainer {
    fn default() -> (r: Self)
        ensures
            r == ReferenceMaintainer,
    {
        ReferenceMaintainer
    }
}

/// A maintenance request with its source window.
#[derive(Debug, PartialEq)]
pub struct MaintenancePlan {
    context: MemoryRequestContext,
    namespace: MemoryNamespace,
    action: MemoryMaintenanceAction,
    window: MemoryMaintenanceWindow,
}

/// A maintenance request with its source window.
pub struct PlanView {
    pub context: ContextView,
    pub namespace: NamespaceView,
    pub action: MemoryMaintenanceAction,
    pub window: WindowView,
}

impl View for MaintenancePlan {
    type V = PlanView;

    closed spec fn view(&self) -> PlanView {
        PlanView {
            context: self.context@,
            namespace: self.namespace@,
            action: self.action,
            window: self.window@,
        }
    }
}

/// The context of a stage of maintenance.
pub open spec fn stage_context(context: ContextView, stage: Seq<char>) -> ContextView {
    ContextView {
        operation_id: context.operation_id + ":"@ + stage,
        deadline: context.deadline,
    }
}

fn child_context(context: &MemoryRequestContext, stage: &str) -> (r: MemoryRequestContext)
    ensures
        r@ == stage_context(context@, stage@),
{
    MemoryRequestContext {
        operation_id: concat3(context.operation_id.as_str(), ":", stage),
        deadline: context.deadline,
    }
}

/// What planning a maintenance request comes to.
pub open spec fn planned(request: MaintenanceRequestView) -> Result<PlanView, ErrorView> {
    match maintenance_fault(request) {
        Some(message) => Err(ErrorView::invalid_request(message)),
        None => match request.window {
            None => Err(
                ErrorView::invalid_request("reference maintenance requires a source window"@).of(
                    request.context.operation_id,
                    REFERENCE_MAINTAINER@,
                ),
            ),
            Some(window) => Ok(
                PlanView {
                    context: request.context,
                    namespace: request.namespace,
                    action: request.action,
                    window,
                },
            ),
        },
    }
}

/// The search for the sources of a plan.
pub open spec fn source_search(plan: PlanView) -> SearchRequestView {
    SearchRequestView {
        context: stage_context(plan.context, "search"@),
        namespace: plan.namespace,
        query: plan.window.query,
        scope: plan.window.scope,
        filter: plan.window.filter,
        limit: plan.window.limit,
    }
}

/// One of the matches has the record identifier.
pub open spec fn has_record(matches: Seq<MatchView>, id: Seq<char>) -> bool {
    exists|i: int| 0 <= i < matches.len() && (#[trigger] matches[i]).record.id == id
}

/// The sources among matches: in their order, each record once, and none that a maintainer
/// derived.
pub open spec fn sources(matches: Seq<MatchView>) -> Seq<MatchView>
    decreases matches.len(),
{
    if matches.len() == 0 {
        Seq::empty()
    } else {
        let before = sources(matches.drop_last());
        let item = matches.last();
        if item.record.provenance.source == MAINTENANCE_SOURCE@ || has_record(
            before,
            item.record.id,
        ) {
            before
        } else {
            before.push(item)
        }
    }
}

/// The latest event among matches, of which there is at least one.
pub open spec fn latest_event(matches: Seq<MatchView>) -> Timestamp
    decreases matches.len(),
{
    if matches.len() <= 1 {
        matches[0].record.event_timestamp
    } else {
        let before = latest_event(matches.drop_last());
        let own = matches.last().record.event_timestamp;
        if earlier(own, before) {
            before
        } else {
            own
        }
    }
}

/// A source in the artifact.
pub open spec fn source_model(item: MatchView) -> JsonModel {
    JsonModel::Object(
        no_members().insert("memory_id"@, JsonModel::Text(item.record.id)).insert(
            "content"@,
            content_model(item.record.content),
        ),
    )
}

/// The artifact that is derived from sources.
pub open spec fn artifact(plan: PlanView, found: Seq<MatchView>) -> JsonModel {
    JsonModel::Object(
        no_members().insert("kind"@, JsonModel::Text("derived_memory"@)).insert(
            "artifact_version"@,
            JsonModel::Text(REFERENCE_ARTIFACT_VERSION@),
        ).insert("maintainer"@, JsonModel::Text(REFERENCE_MAINTAINER@)).insert(
            "action"@,
            JsonModel::Text(action_name(plan.action)),
        ).insert("checkpoint_id"@, JsonModel::Text(plan.window.checkpoint_id)).insert(
            "sources"@,
            JsonModel::Array(found.map_values(|item: MatchView| source_model(item))),
        ),
    )
}

/// The caller key of a derived memory: one per action and checkpoint.
pub open spec fn derivation_key(plan: PlanView) -> Seq<char> {
    "maintenance:reference:"@ + action_name(plan.action) + ":"@ + (plan.window.checkpoint_id + ":"@
        + REFERENCE_ARTIFACT_VERSION@)
}

/// The store of a memory that is derived from sources, of which there is at least one.
pub open spec fn derived_store(plan: PlanView, found: Seq<MatchView>) -> StoreRequestView {
    StoreRequestView {
        context: stage_context(plan.context, "store"@),
        namespace: plan.namespace,
        content: ContentView::Json { value: artifact(plan, found) },
        event_timestamp: latest_event(found),
        provenance: ProvenanceView {
            source: MAINTENANCE_SOURCE@,
            source_ids: seq![plan.window.checkpoint_id],
            parent_memory_ids: found.map_values(|item: MatchView| item.record.id),
            metadata: no_members().insert(
                "action"@,
                JsonModel::Text(action_name(plan.action)),
            ).insert("artifact_version"@, JsonModel::Text(REFERENCE_ARTIFACT_VERSION@)).insert(
                "maintainer"@,
                JsonModel::Text(REFERENCE_MAINTAINER@),
            ).insert(
                "previous_checkpoint_id"@,
                opt_text_model(plan.window.previous_checkpoint_id),
            ),
        },
        metadata: no_members().insert("relay_derived"@, JsonModel::Bool(true)).insert(
            "artifact_version"@,
            JsonModel::Text(REFERENCE_ARTIFACT_VERSION@),
        ),
        idempotency_key: Some(derivation_key(plan)),
    }
}

/// What is to be done with the sources of a plan.
#[derive(Debug, PartialEq)]
pub enum MaintenanceStep {
    /// There is nothing to derive from.
    Finished(MemoryMaintenanceResult),
    /// A derived memory is to be stored.
    Store {
        /// The store.
        request: MemoryStoreRequest,
        /// Failures of the search that did not prevent all results.
        partial_errors: Vec<MemoryOperationError>,
    },
}

/// What is to be done with the sources of a plan.
pub enum MaintenanceStepView {
    Finished(MaintenanceResultView),
    Store { request: StoreRequestView, partial_errors: Seq<ErrorView> },
}

impl View for MaintenanceStep {
    type V = MaintenanceStepView;

    open spec fn view(&self) -> MaintenanceStepView {
        match self {
            MaintenanceStep::Finished(result) => MaintenanceStepView::Finished(result@),
            MaintenanceStep::Store { request, partial_errors } => MaintenanceStepView::Store {
                request: request@,
                partial_errors: error_views(partial_errors@),
            },
        }
    }
}

/// What is to be done with what a plan's search found.
pub open spec fn derivation(plan: PlanView, found: SearchResultView) -> MaintenanceStepView {
    let used = sources(found.matches);
    if used.len() == 0 {
        MaintenanceStepView::Finished(
            MaintenanceResultView {
                job_id: None,
                records: Seq::empty(),
                partial_errors: found.partial_errors,
            },
        )
    } else {
        MaintenanceStepView::Store {
            request: derived_store(plan, used),
            partial_errors: found.partial_errors,
        }
    }
}

fn holds_record(matches: &Vec<MemoryMatch>, id: &String) -> (r: bool)
    ensures
        r == has_record(match_views(matches@), id@),
{
    let mut i: usize = 0;
    while i < matches.len()
        invariant
            i <= matches@.len(),
            forall|j: int| 0 <= j < i ==> (#[trigger] match_views(matches@)[j]).record.id != id@,
        decreases matches@.len() - i,
    {
        assert(match_views(matches@)[i as int] == matches@[i as int]@);
        if matches[i].record.id == *id {
            return true;
        }
        i += 1;
    }
    false
}

fn select_sources(matches: &Vec<MemoryMatch>) -> (r: Vec<MemoryMatch>)
    ensures
        match_views(r@) == sources(match_views(matches@)),
{
    let ghost views = match_views(matches@);
    let maintenance = MAINTENANCE_SOURCE.to_owned();
    let mut found: Vec<MemoryMatch> = Vec::new();
    let mut i: usize = 0;
    assert(match_views(found@) =~= sources(views.take(0)));
    while i < matches.len()
        invariant
            i <= matches@.len(),
            views == match_views(matches@),
            maintenance@ == MAINTENANCE_SOURCE@,
            match_views(found@) == sources(views.take(i as int)),
        decreases matches@.len() - i,
    {
        let item = &matches[i];
        let ghost before = match_views(found@);
        proof {
            assert(views.take(i + 1).drop_last() =~= views.take(i as int));
            assert(views.take(i + 1).last() == item@);
        }
        if item.record.provenance.source != maintenance && !holds_record(&found, &item.record.id) {
            found.push(item.clone());
            assert(match_views(found@) =~= before.push(item@));
        }
        i += 1;
    }
    assert(views.take(i as int) =~= views);
    found
}

impl ReferenceMaintainer {
    /// Stable maintainer identifier used in provenance and idempotency keys.
    pub fn name(&self) -> (r: &'static str)
        ensures
            r@ == REFERENCE_MAINTAINER@,
    {
        REFERENCE_MAINTAINER
    }

    /// Validate a request, which must have a source window.
    pub fn plan(&self, request: MemoryMaintenanceRequest) -> (r: Result<
        MaintenancePlan,
        MemoryOperationError,
    >)
        ensures
            outcome(r) == planned(request@),
    {
        request.validate()?;
        let MemoryMaintenanceRequest { context, namespace, action, window, .. } = request;
        match window {
            Some(window) => Ok(MaintenancePlan { context, namespace, action, window }),
            None => Err(
                MemoryOperationError::invalid_request(
                    "reference maintenance requires a source window",
                ).with_operation_id(context.operation_id.as_str()).with_provider(
                    REFERENCE_MAINTAINER,
                ),
            ),
        }
    }

    /// Finish maintenance once the derived memory is stored.
    pub fn finish(
        &self,
        stored: MemoryStoreResult,
        partial_errors: Vec<MemoryOperationError>,
    ) -> (r: MemoryMaintenanceResult)
        ensures
            r@ == (MaintenanceResultView {
                job_id: None,
                records: seq![stored@.record],
                partial_errors: error_views(partial_errors@),
            }),
    {
        let records = vec![stored.record];
        assert(record_views(records@) =~= seq![stored@.record]);
        MemoryMaintenanceResult { job_id: None, records, partial_errors }
    }
}

impl MaintenancePlan {
    /// The search for the sources.
    pub fn search_request(&self) -> (r: MemorySearchRequest)
        ensures
            r@ == source_search(self@),
    {
        MemorySearchRequest {
            context: child_context(&self.context, "search"),
            namespace: self.namespace.clone(),
            query: self.window.query.clone(),
            scope: self.window.scope,
            filter: self.window.filter.clone(),
            limit: self.window.limit,
        }
    }

    /// Go on with what came of the search: a failure comes back as it is, and nothing is stored.
    pub fn go_on(&self, found: Result<MemorySearchResult, MemoryOperationError>) -> (r: Result<
        MaintenanceStep,
        MemoryOperationError,
    >)
        ensures
            match found {
                Ok(result) => r matches Ok(step) && step@ == derivation(self@, result@),
                Err(error) => r == Err::<MaintenanceStep, MemoryOperationError>(error),
            },
    {
        match found {
            Ok(result) => Ok(self.derive(result)),
            Err(error) => Err(error),
        }
    }

    /// Derive a memory from what the search found.
    pub fn derive(&self, found: MemorySearchResult) -> (r: MaintenanceStep)
        ensures
            r@ == derivation(self@, found@),
    {
        let used = select_sources(&found.matches);
        let ghost views = match_views(used@);
        let MemorySearchResult { matches: _, partial_errors } = found;
        if used.len() == 0 {
            let records: Vec<crate::memory::MemoryRecord> = Vec::new();
            assert(record_views(records@) =~= Seq::empty());
            return MaintenanceStep::Finished(
                MemoryMaintenanceResult { job_id: None, records, partial_errors },
            );
        }
        let mut parent_memory_ids: Vec<String> = Vec::new();
        let mut listed: Vec<Json> = Vec::new();
        let mut event_timestamp: Timestamp = used[0].record.event_timestamp;
        let mut i: usize = 0;
        while i < used.len()
            invariant
                i <= used@.len(),
                used@.len() > 0,
                views == match_views(used@),
                parent_memory_ids@.len() == i,
                listed@.len() == i,
                event_timestamp == latest_event(views.take(if i == 0 { 1 } else { i as int })),
                forall|j: int| 0 <= j < i ==> (#[trigger] parent_memory_ids@[j])@ == views[j].record.id,
                forall|j: int| 0 <= j < i ==> (#[trigger] listed@[j])@ == source_model(views[j]),
            decreases used@.len() - i,
        {
            let record = &used[i].record;
            parent_memory_ids.push(record.id.clone());
            let mut source = JsonObject::new();
            source.insert("memory_id", Json::text(record.id.as_str()));
            source.insert("content", content_json(&record.content));
            listed.push(Json::object(source));
            proof {
                let next = views.take(i + 1);
                assert(next.last() == used@[i as int]@);
                assert(next.drop_last() =~= views.take(i as int));
            }
            if i > 0 && !record.event_timestamp.is_before(&event_timestamp) {
                event_timestamp = record.event_timestamp;
            }
            i += 1;
        }
        proof {
            assert(views.take(used@.len() as int) =~= views);
            assert(texts(parent_memory_ids@) =~= views.map_values(
                |item: MatchView| item.record.id,
            ));
            assert(json_models(listed@) =~= views.map_values(|item: MatchView| source_model(item)));
        }
        let action = action_text(self.action);
        let mut content = JsonObject::new();
        content.insert("kind", Json::text("derived_memory"));
        content.insert("artifact_version", Json::text(REFERENCE_ARTIFACT_VERSION));
        content.insert("maintainer", Json::text(REFERENCE_MAINTAINER));
        content.insert("action", Json::text(action));
        content.insert("checkpoint_id", Json::text(self.window.checkpoint_id.as_str()));
        content.insert("sources", Json::array(listed));
        let mut provenance_metadata = JsonObject::new();
        provenance_metadata.insert("action", Json::text(action));
        provenance_metadata.insert("artifact_version", Json::text(REFERENCE_ARTIFACT_VERSION));
        provenance_metadata.insert("maintainer", Json::text(REFERENCE_MAINTAINER));
        provenance_metadata.insert(
            "previous_checkpoint_id",
            opt_text_json(&self.window.previous_checkpoint_id),
        );
        let mut metadata = JsonObject::new();
        metadata.insert("relay_derived", Json::boolean(true));
        metadata.insert("artifact_version", Json::text(REFERENCE_ARTIFACT_VERSION));
        let tail = concat3(self.window.checkpoint_id.as_str(), ":", REFERENCE_ARTIFACT_VERSION);
        let mut key = concat3("maintenance:reference:", action, ":");
        key.append(tail.as_str());
        let source_ids: Vec<String> = vec![self.window.checkpoint_id.clone()];
        assert(texts(source_ids@) =~= seq![self@.window.checkpoint_id]);
        let request = MemoryStoreRequest {
            context: child_context(&self.context, "store"),
            namespace: self.namespace.clone(),
            content: MemoryContent::Json { value: Json::object(content) },
            event_timestamp,
            provenance: MemoryProvenance {
                source: MAINTENANCE_SOURCE.to_owned(),
                source_ids,
                parent_memory_ids,
                metadata: provenance_metadata,
            },
            metadata,
            idempotency_key: Some(key),
        };
        MaintenanceStep::Store { request, partial_errors }
    }
}

/// The sources are among the matches, each record once, and none of them is derived.
pub proof fn sources_are_original(matches: Seq<MatchView>)
    ensures
        ({
            let used = sources(matches);
            &&& forall|i: int|
                0 <= i < used.len() ==> matches.contains(#[trigger] used[i])
                    && used[i].record.provenance.source != MAINTENANCE_SOURCE@
            &&& forall|i: int, j: int|
                0 <= i < j < used.len() ==> (#[trigger] used[i]).record.id != (
                #[trigger] used[j]).record.id
        }),
    decreases matches.len(),
{
    if matches.len() > 0 {
        let rest = matches.drop_last();
        sources_are_original(rest);
        let before = sources(rest);
        let used = sources(matches);
        assert forall|i: int| 0 <= i < used.len() implies matches.contains(#[trigger] used[i])
            && used[i].record.provenance.source != MAINTENANCE_SOURCE@ by {
            if i < before.len() {
                assert(used[i] == before[i]);
                let k = choose|k: int| 0 <= k < rest.len() && rest[k] == before[i];
                assert(matches[k] == used[i]);
            } else {
                assert(matches[matches.len() - 1] == used[i]);
            }
        }
        assert forall|i: int, j: int| 0 <= i < j < used.len() implies (#[trigger] used[i]).record.id
            != (#[trigger] used[j]).record.id by {
            if j == before.len() {
                assert(used[i] == before[i]);
            }
        }
    }
}

/// A maintainer never consumes derived memories: a derived match adds nothing to the sources,
/// wherever it ranks.
pub proof fn derived_memories_are_not_sources(matches: Seq<MatchView>, at: int, derived: MatchView)
    requires
        0 <= at <= matches.len(),
        derived.record.provenance.source == MAINTENANCE_SOURCE@,
    ensures
        sources(matches.insert(at, derived)) == sources(matches),
    decreases matches.len(),
{
    let more = matches.insert(at, derived);
    if at == matches.len() {
        assert(more.drop_last() =~= matches);
    } else {
        assert(more.drop_last() =~= matches.drop_last().insert(at, derived));
        assert(more.last() == matches.last());
        derived_memories_are_not_sources(matches.drop_last(), at, derived);
    }
}

/// The sources depend on the records alone, not on ranks and scores.
pub proof fn sources_go_by_record(left: Seq<MatchView>, right: Seq<MatchView>)
    requires
        matched_records(left) == matched_records(right),
    ensures
        matched_records(sources(left)) == matched_records(sources(right)),
    decreases left.len(),
{
    assert(matched_records(left).len() == left.len());
    assert(matched_records(right).len() == right.len());
    if left.len() > 0 {
        let n = left.len() - 1;
        let a = left.drop_last();
        let b = right.drop_last();
        assert(matched_records(left)[n] == left[n].record);
        assert(matched_records(right)[n] == right[n].record);
        assert(matched_records(a) =~= matched_records(left).drop_last());
        assert(matched_records(b) =~= matched_records(right).drop_last());
        sources_go_by_record(a, b);
        let x = sources(a);
        let y = sources(b);
        let id = left.last().record.id;
        assert(matched_records(x).len() == x.len() && matched_records(y).len() == y.len());
        assert forall|i: int| 0 <= i < x.len() implies (#[trigger] x[i]).record == y[i].record by {
            assert(matched_records(x)[i] == x[i].record);
            assert(matched_records(y)[i] == y[i].record);
        }
        assert(has_record(x, id) == has_record(y, id)) by {
            if has_record(x, id) {
                let i = choose|i: int| 0 <= i < x.len() && (#[trigger] x[i]).record.id == id;
                assert(y[i].record.id == id);
            }
            if has_record(y, id) {
                let i = choose|i: int| 0 <= i < y.len() && (#[trigger] y[i]).record.id == id;
                assert(x[i].record == y[i].record);
            }
        }
        assert(matched_records(sources(left)) =~= matched_records(sources(right)));
    }
}

/// What is derived depends on the records of the sources alone, not on ranks and scores.
pub proof fn derivation_goes_by_record(plan: PlanView, left: Seq<MatchView>, right: Seq<MatchView>)
    requires
        matched_records(left) == matched_records(right),
    ensures
        derived_store(plan, left) == derived_store(plan, right),
{
    assert(matched_records(left).len() == left.len());
    assert(matched_records(right).len() == right.len());
    assert forall|i: int| 0 <= i < left.len() implies (#[trigger] left[i]).record
        == right[i].record by {
        assert(matched_records(left)[i] == left[i].record);
        assert(matched_records(right)[i] == right[i].record);
    }
    assert(left.map_values(|item: MatchView| source_model(item)) =~= right.map_values(
        |item: MatchView| source_model(item),
    ));
    assert(left.map_values(|item: MatchView| item.record.id) =~= right.map_values(
        |item: MatchView| item.record.id,
    ));
    if left.len() > 0 {
        latest_goes_by_record(left, right);
    } else {
        assert(left =~= right);
    }
}

proof fn latest_goes_by_record(left: Seq<MatchView>, right: Seq<MatchView>)
    requires
        left.len() == right.len(),
        left.len() > 0,
        forall|i: int| 0 <= i < left.len() ==> (#[trigger] left[i]).record == right[i].record,
    ensures
        latest_event(left) == latest_event(right),
    decreases left.len(),
{
    assert(left[left.len() - 1].record == right[left.len() - 1].record);
    if left.len() > 1 {
        latest_goes_by_record(left.drop_last(), right.drop_last());
    } else {
        assert(left[0].record == right[0].record);
    }
}

/// Maintenance stays in its partition: it searches and stores in the namespace of its request.
pub proof fn maintenance_stays_in_its_partition(plan: PlanView, found: SearchResultView)
    ensures
        source_search(plan).namespace == plan.namespace,
        derivation(plan, found) matches MaintenanceStepView::Store { request, .. }
            ==> request.namespace == plan.namespace,
{
}

/// The same action over the same checkpoint has the same caller key.
pub proof fn derivation_key_is_stable(left: PlanView, right: PlanView)
    requires
        left.action == right.action,
        left.window.checkpoint_id == right.window.checkpoint_id,
    ensures
        derivation_key(left) == derivation_key(right),
{
}

/// No source happened after the derived memory's event, which is that of one of the sources.
pub proof fn latest_event_is_latest(found: Seq<MatchView>)
    requires
        found.len() > 0,
    ensures
        forall|i: int|
            0 <= i < found.len() ==> !earlier(
                latest_event(found),
                (#[trigger] found[i]).record.event_timestamp,
            ),
        exists|i: int|
            0 <= i < found.len() && latest_event(found) == (#[trigger] found[i]).record.event_timestamp,
    decreases found.len(),
{
    if found.len() > 1 {
        let rest = found.drop_last();
        latest_event_is_latest(rest);
        let k = choose|k: int|
            0 <= k < rest.len() && latest_event(rest) == (#[trigger] rest[k]).record.event_timestamp;
        assert(found[k] == rest[k]);
        assert(found[found.len() - 1] == found.last());
        assert forall|i: int| 0 <= i < found.len() implies !earlier(
            latest_event(found),
            (#[trigger] found[i]).record.event_timestamp,
        ) by {
            if i < rest.len() {
                assert(rest[i] == found[i]);
                assert(!earlier(latest_event(rest), rest[i].record.event_timestamp));
            }
        }
    } else {
        assert(found[0].record.event_timestamp == latest_event(found));
    }
}

/// The search for the sources of a plan is valid.
pub proof fn source_search_is_valid(request: MaintenanceRequestView)
    requires
        planned(request) is Ok,
    ensures
        search_fault(source_search(planned(request)->Ok_0)) is None,
{
    let plan = planned(request)->Ok_0;
    reveal_strlit(":");
    let id = source_search(plan).context.operation_id;
    assert(id[plan.context.operation_id.len() as int] == ':');
    assert(!blank(id));
}

/// The store of a derived memory is valid.
pub proof fn derived_store_is_valid(request: MaintenanceRequestView, found: Seq<MatchView>)
    requires
        planned(request) is Ok,
    ensures
        store_fault(derived_store(planned(request)->Ok_0, found)) is None,
{
    let plan = planned(request)->Ok_0;
    reveal_strlit(":");
    reveal_strlit("maintenance");
    reveal_strlit("maintenance:reference:");
    let id = stage_context(plan.context, "store"@).operation_id;
    assert(id[plan.context.operation_id.len() as int] == ':');
    assert(!blank(id));
    assert("maintenance"@[0] == 'm');
    assert(!blank("maintenance"@));
    assert(derivation_key(plan)[0] == 'm');
    assert(!blank(derivation_key(plan)));
}

/// A plan is made exactly of a valid request with a source window, and holds what the request
/// says. Any other request is refused as invalid.
pub proof fn plans_hold_their_request(request: MaintenanceRequestView)
    ensures
        planned(request) is Ok <==> maintenance_fault(request) is None && request.window is Some,
        planned(request) matches Ok(plan) ==> plan.context == request.context && plan.namespace
            == request.namespace && plan.action == request.action && Some(plan.window)
            == request.window,
        planned(request) matches Err(error) ==> error.code is InvalidRequest && !error.retryable,
        maintenance_fault(request) is None && request.window is None ==> (planned(
            request,
        ) matches Err(error) && error.operation_id == Some(request.context.operation_id)
            && error.provider == Some("reference"@)),
{
}

/// The search for the sources asks for what the window says, under an operation of its own that
/// ends with the request.
pub proof fn source_search_asks_for_the_window(plan: PlanView)
    ensures
        ({
            let search = source_search(plan);
            &&& search.query == plan.window.query
            &&& search.scope == plan.window.scope
            &&& search.filter == plan.window.filter
            &&& search.limit == plan.window.limit
            &&& search.namespace == plan.namespace
            &&& search.context.operation_id == plan.context.operation_id + ":search"@
            &&& search.context.deadline == plan.context.deadline
        }),
{
    reveal_strlit(":");
    reveal_strlit("search");
    reveal_strlit(":search");
    assert(plan.context.operation_id + ":"@ + "search"@ =~= plan.context.operation_id
        + ":search"@);
}

/// Every source lies in the window: over the reference provider it has the identifiers that the
/// window's scope asks for, passes the window's filter and shares a word with its query, and there
/// are no more sources than its limit.
pub proof fn sources_lie_in_the_window(
    plan: PlanView,
    records: Seq<RecordView>,
    found: Seq<MatchView>,
    i: int,
)
    requires
        best_matches(records, source_search(plan), found),
        0 <= i < sources(found).len(),
    ensures
        ({
            let record = sources(found)[i].record;
            let namespace = plan.namespace;
            &&& records.contains(record)
            &&& record.namespace.tenant_id == namespace.tenant_id
            &&& record.namespace.subject_id == namespace.subject_id
            &&& plan.window.scope is Session ==> record.namespace.session_id
                == namespace.session_id
            &&& plan.window.scope is Agent ==> record.namespace.agent_id == namespace.agent_id
            &&& namespace_selected(record.namespace, namespace, plan.window.scope)
            &&& filter_selected(record, plan.window.filter)
            &&& plan.window.filter.event_after matches Some(after) ==> !earlier(
                record.event_timestamp,
                after,
            )
            &&& plan.window.filter.event_before matches Some(before) ==> !earlier(
                before,
                record.event_timestamp,
            )
            &&& overlap(plan.window.query, record.content) > 0
            &&& found.len() <= plan.window.limit
        }),
{
    sources_are_original(found);
    let item = sources(found)[i];
    assert(found.contains(item));
    let k = choose|k: int| 0 <= k < found.len() && found[k] == item;
    matches_lie_in_the_scope(records, source_search(plan), found, k);
    assert(candidate(found[k].record, source_search(plan)));
    filters_select_by_bounds(item.record, plan.window.filter);
}

/// Every record of the window that no maintainer derived is a source, where the limit leaves room
/// for every match.
pub proof fn the_window_is_used_up(plan: PlanView, state: ProviderView, found: Seq<MatchView>, k: int)
    requires
        state.inv(),
        best_matches(state.records, source_search(plan), found),
        candidate_count(state.records, source_search(plan)) <= plan.window.limit,
        0 <= k < state.records.len(),
        namespace_selected(state.records[k].namespace, plan.namespace, plan.window.scope),
        filter_selected(state.records[k], plan.window.filter),
        overlap(plan.window.query, state.records[k].content) > 0,
        state.records[k].provenance.source != "maintenance"@,
    ensures
        exists|i: int|
            0 <= i < sources(found).len() && (#[trigger] sources(found)[i]).record.id
                == state.records[k].id,
{
    every_candidate_is_found(state, source_search(plan), found);
    assert(candidate(state.records[k], source_search(plan)));
    let j = choose|j: int| 0 <= j < found.len() && (#[trigger] found[j]).record == state.records[k];
    sources_are_complete(found, j);
}

/// Every match that no maintainer derived is a source, or stands for a record that is one.
pub proof fn sources_are_complete(matches: Seq<MatchView>, k: int)
    requires
        0 <= k < matches.len(),
        matches[k].record.provenance.source != "maintenance"@,
    ensures
        exists|i: int|
            0 <= i < sources(matches).len() && (#[trigger] sources(matches)[i]).record.id
                == matches[k].record.id,
    decreases matches.len(),
{
    let rest = matches.drop_last();
    let before = sources(rest);
    let used = sources(matches);
    if k < rest.len() {
        sources_are_complete(rest, k);
        let i = choose|i: int|
            0 <= i < before.len() && (#[trigger] before[i]).record.id == rest[k].record.id;
        assert(used[i] == before[i]);
    } else if has_record(before, matches[k].record.id) {
        let i = choose|i: int|
            0 <= i < before.len() && (#[trigger] before[i]).record.id == matches[k].record.id;
        assert(used[i] == before[i]);
    } else {
        assert(used[before.len() as int] == matches[k]);
    }
}

/// The sources keep the order of the matches: one more match is a source exactly where no
/// maintainer derived it and no source before it has its identifier.
pub proof fn sources_keep_their_order(matches: Seq<MatchView>, item: MatchView)
    ensures
        sources(Seq::empty()).len() == 0,
        ({
            let before = sources(matches);
            let fresh = item.record.provenance.source != "maintenance"@ && forall|i: int|
                0 <= i < before.len() ==> (#[trigger] before[i]).record.id != item.record.id;
            &&& fresh ==> sources(matches.push(item)) == before.push(item)
            &&& !fresh ==> sources(matches.push(item)) == before
        }),
{
    assert(matches.push(item).drop_last() =~= matches);
}

/// A derived memory names its sources in their order, happened when the latest of them did, is
/// marked as derived, and stays in the namespace of its plan.
pub proof fn derived_memory_names_its_sources(plan: PlanView, found: Seq<MatchView>, i: int)
    requires
        0 <= i < found.len(),
    ensures
        ({
            let derived = derived_store(plan, found);
            &&& derived.namespace == plan.namespace
            &&& derived.context.operation_id == plan.context.operation_id + ":store"@
            &&& derived.context.deadline == plan.context.deadline
            &&& derived.provenance.source == "maintenance"@
            &&& derived.provenance.source_ids == seq![plan.window.checkpoint_id]
            &&& derived.provenance.parent_memory_ids.len() == found.len()
            &&& derived.provenance.parent_memory_ids[i] == found[i].record.id
            &&& !earlier(derived.event_timestamp, found[i].record.event_timestamp)
            &&& derived.content == (ContentView::Json { value: artifact(plan, found) })
            &&& derived.metadata.dom().contains("relay_derived"@)
            &&& derived.metadata["relay_derived"@] == JsonModel::Bool(true)
            &&& derived.metadata["artifact_version"@] == JsonModel::Text("0.1"@)
            &&& derived.provenance.metadata["action"@] == JsonModel::Text(action_name(plan.action))
            &&& derived.provenance.metadata["maintainer"@] == JsonModel::Text("reference"@)
            &&& derived.provenance.metadata["previous_checkpoint_id"@] == opt_text_model(
                plan.window.previous_checkpoint_id,
            )
            &&& derived.idempotency_key is Some
        }),
{
    reveal_strlit(":");
    reveal_strlit("store");
    reveal_strlit(":store");
    assert(plan.context.operation_id + ":"@ + "store"@ =~= plan.context.operation_id + ":store"@);
    latest_event_is_latest(found);
    reveal_strlit("relay_derived");
    reveal_strlit("artifact_version");
    reveal_strlit("action");
    reveal_strlit("maintainer");
    reveal_strlit("previous_checkpoint_id");
    assert("relay_derived"@.len() == 13 && "artifact_version"@.len() == 16 && "action"@.len() == 6
        && "maintainer"@.len() == 10 && "previous_checkpoint_id"@.len() == 22);
}

/// An artifact says what it is, who derived it how and at which checkpoint, and holds the
/// identifier and the content of each source in their order.
pub proof fn artifacts_hold_their_sources(plan: PlanView, found: Seq<MatchView>, i: int)
    requires
        0 <= i < found.len(),
    ensures
        artifact(plan, found) matches JsonModel::Object(members) && {
            &&& members["kind"@] == JsonModel::Text("derived_memory"@)
            &&& members["artifact_version"@] == JsonModel::Text("0.1"@)
            &&& members["maintainer"@] == JsonModel::Text("reference"@)
            &&& members["action"@] == JsonModel::Text(action_name(plan.action))
            &&& members["checkpoint_id"@] == JsonModel::Text(plan.window.checkpoint_id)
            &&& members["sources"@] matches JsonModel::Array(listed) && listed.len() == found.len()
                && json_member(listed[i], "memory_id"@) == Some(JsonModel::Text(found[i].record.id))
                && json_member(listed[i], "content"@) == Some(
                content_model(found[i].record.content),
            )
        },
{
    reveal_strlit("kind");
    reveal_strlit("artifact_version");
    reveal_strlit("maintainer");
    reveal_strlit("action");
    reveal_strlit("checkpoint_id");
    reveal_strlit("sources");
    reveal_strlit("memory_id");
    reveal_strlit("content");
    assert("kind"@.len() == 4 && "artifact_version"@.len() == 16 && "maintainer"@.len() == 10
        && "action"@.len() == 6 && "checkpoint_id"@.len() == 13 && "sources"@.len() == 7
        && "memory_id"@.len() == 9 && "content"@.len() == 7);
}

/// Derivation stores one memory from the sources of what was found, and nothing where there are
/// none. Partial failures of the search are handed on.
pub proof fn derivation_uses_what_was_found(plan: PlanView, found: SearchResultView)
    ensures
        match derivation(plan, found) {
            MaintenanceStepView::Finished(result) => sources(found.matches).len() == 0
                && result.records.len() == 0 && result.job_id is None && result.partial_errors
                == found.partial_errors,
            MaintenanceStepView::Store { request, partial_errors } => sources(found.matches).len()
                > 0 && request == derived_store(plan, sources(found.matches)) && partial_errors
                == found.partial_errors,
        },
{
}

/// Another action or another checkpoint has another caller key.
pub proof fn derivation_keys_are_distinct(left: PlanView, right: PlanView)
    requires
        derivation_key(left) == derivation_key(right),
    ensures
        left.action == right.action,
        left.window.checkpoint_id == right.window.checkpoint_id,
{
    let head = "maintenance:reference:"@;
    let tail = ":"@ + REFERENCE_ARTIFACT_VERSION@;
    reveal_strlit("reflect");
    reveal_strlit("consolidate");
    reveal_strlit(":");
    let a = derivation_key(left);
    let b = derivation_key(right);
    let n = head.len() as int;
    assert(a[n] == action_name(left.action)[0]);
    assert(b[n] == action_name(right.action)[0]);
    assert(left.action == right.action);
    let start = n + action_name(left.action).len() + 1;
    let end = a.len() - tail.len();
    assert(a.subrange(start, end) =~= left.window.checkpoint_id);
    assert(b.subrange(start, end) =~= right.window.checkpoint_id);
}

} // verus!
