//! JSON forms of the memory types.

use vstd::prelude::*;
use crate::json::{no_members, Json, JsonModel, JsonObject};
use crate::memory::{
    ContentView, ContextView, FilterView, MaintenanceRequestView, MemoryContent, MemoryFilter,
    MemoryMaintenanceAction, MemoryMaintenanceRequest, MemoryMaintenanceWindow, MemoryNamespace,
    MemoryProvenance, MemoryRequestContext, MemorySearchScope, MemoryStoreRequest, NamespaceView,
    ProvenanceView, StoreRequestView, WindowView,
};
use crate::text::{decimal, decimal_is_exact, opt_text, texts, to_decimal};
use crate::time::Timestamp;

verus! {

/// A list of texts as JSON.
pub open spec fn texts_model(values: Seq<Seq<char>>) -> JsonModel {
    JsonModel::Array(values.map_values(|value: Seq<char>| JsonModel::Text(value)))
}

/// An optional text as JSON: `null` where there is none.
pub open spec fn opt_text_model(value: Option<Seq<char>>) -> JsonModel {
    match value {
        Some(text) => JsonModel::Text(text),
        None => JsonModel::Null,
    }
}

/// A content as JSON: an object tagged with the kind of content.
pub open spec fn content_model(content: ContentView) -> JsonModel {
    JsonModel::Object(
        match content {
            ContentView::Text { text } => no_members().insert(
                "kind"@,
                JsonModel::Text("text"@),
            ).insert("text"@, JsonModel::Text(text)),
            ContentView::Json { value } => no_members().insert(
                "kind"@,
                JsonModel::Text("json"@),
            ).insert("value"@, value),
            ContentView::Reference { reference, preview } => {
                let named = no_members().insert("kind"@, JsonModel::Text("reference"@)).insert(
                    "reference"@,
                    JsonModel::Text(reference),
                );
                match preview {
                    Some(preview) => named.insert("preview"@, JsonModel::Text(preview)),
                    None => named,
                }
            },
        },
    )
}

/// An instant as JSON: its seconds and its nanoseconds.
pub open spec fn timestamp_model(timestamp: Timestamp) -> JsonModel {
    JsonModel::Array(
        seq![JsonModel::Integer(timestamp.seconds as int), JsonModel::Integer(timestamp.nanos as int)],
    )
}

/// A provenance as JSON: its parts in order.
pub open spec fn provenance_model(provenance: ProvenanceView) -> JsonModel {
    JsonModel::Array(
        seq![
            JsonModel::Text(provenance.source),
            texts_model(provenance.source_ids),
            texts_model(provenance.parent_memory_ids),
            JsonModel::Object(provenance.metadata),
        ],
    )
}

/// What a stored memory holds, as JSON.
pub open spec fn payload_model(
    content: ContentView,
    event_timestamp: Timestamp,
    provenance: ProvenanceView,
    metadata: Map<Seq<char>, JsonModel>,
) -> JsonModel {
    JsonModel::Array(
        seq![
            content_model(content),
            timestamp_model(event_timestamp),
            provenance_model(provenance),
            JsonModel::Object(metadata),
        ],
    )
}

/// The member names of a tagged content are distinct, and so are its kinds.
pub proof fn content_names_are_distinct()
    ensures
        "kind"@ != "text"@,
        "kind"@ != "value"@,
        "kind"@ != "reference"@,
        "kind"@ != "preview"@,
        "reference"@ != "preview"@,
        "text"@ != "json"@,
        "text"@ != "reference"@,
        "json"@ != "reference"@,
{
    reveal_strlit("kind");
    reveal_strlit("text");
    reveal_strlit("json");
    reveal_strlit("value");
    reveal_strlit("reference");
    reveal_strlit("preview");
    assert("kind"@[0] != "text"@[0]);
    assert("kind"@[0] != "value"@[0]);
    assert("kind"@[0] != "reference"@[0]);
    assert("kind"@[0] != "preview"@[0]);
    assert("reference"@[0] != "preview"@[0]);
    assert("text"@[0] != "json"@[0]);
    assert("text"@[0] != "reference"@[0]);
    assert("json"@[0] != "reference"@[0]);
}

/// Different contents have different JSON.
pub proof fn content_model_is_injective(left: ContentView, right: ContentView)
    requires
        content_model(left) == content_model(right),
    ensures
        left == right,
{
    content_names_are_distinct();
    let a = content_model(left)->Object_0;
    let b = content_model(right)->Object_0;
    assert(a["kind"@] == b["kind"@]);
    match (left, right) {
        (ContentView::Text { text }, ContentView::Text { text: other }) => {
            assert(a["text"@] == JsonModel::Text(text));
            assert(b["text"@] == JsonModel::Text(other));
        },
        (ContentView::Json { value }, ContentView::Json { value: other }) => {
            assert(a["value"@] == value);
            assert(b["value"@] == other);
        },
        (
            ContentView::Reference { reference, preview },
            ContentView::Reference { reference: other_reference, preview: other_preview },
        ) => {
            assert(a["reference"@] == JsonModel::Text(reference));
            assert(b["reference"@] == JsonModel::Text(other_reference));
            assert(a.dom().contains("preview"@) == (preview is Some));
            assert(b.dom().contains("preview"@) == (other_preview is Some));
            if preview is Some {
                assert(a["preview"@] == JsonModel::Text(preview->0));
                assert(b["preview"@] == JsonModel::Text(other_preview->0));
            }
        },
        _ => {},
    }
}

/// Different lists of texts have different JSON.
pub proof fn texts_model_is_injective(left: Seq<Seq<char>>, right: Seq<Seq<char>>)
    requires
        texts_model(left) == texts_model(right),
    ensures
        left == right,
{
    let a = texts_model(left)->Array_0;
    let b = texts_model(right)->Array_0;
    assert(left.len() == a.len() && right.len() == b.len());
    assert forall|i: int| 0 <= i < left.len() implies left[i] == right[i] by {
        assert(a[i] == JsonModel::Text(left[i]));
        assert(b[i] == JsonModel::Text(right[i]));
    }
    assert(left =~= right);
}

/// Different provenances have different JSON.
pub proof fn provenance_model_is_injective(left: ProvenanceView, right: ProvenanceView)
    requires
        provenance_model(left) == provenance_model(right),
    ensures
        left == right,
{
    let a = provenance_model(left)->Array_0;
    let b = provenance_model(right)->Array_0;
    assert(a[0] == b[0]);
    assert(a[1] == b[1]);
    assert(a[2] == b[2]);
    assert(a[3] == b[3]);
    texts_model_is_injective(left.source_ids, right.source_ids);
    texts_model_is_injective(left.parent_memory_ids, right.parent_memory_ids);
}

/// Different payloads have different JSON.
pub proof fn payload_model_is_injective(
    content: ContentView,
    event_timestamp: Timestamp,
    provenance: ProvenanceView,
    metadata: Map<Seq<char>, JsonModel>,
    other_content: ContentView,
    other_timestamp: Timestamp,
    other_provenance: ProvenanceView,
    other_metadata: Map<Seq<char>, JsonModel>,
)
    requires
        payload_model(content, event_timestamp, provenance, metadata) == payload_model(
            other_content,
            other_timestamp,
            other_provenance,
            other_metadata,
        ),
    ensures
        content == other_content,
        event_timestamp == other_timestamp,
        provenance == other_provenance,
        metadata == other_metadata,
{
    let a = payload_model(content, event_timestamp, provenance, metadata)->Array_0;
    let b = payload_model(
        other_content,
        other_timestamp,
        other_provenance,
        other_metadata,
    )->Array_0;
    assert(a[0] == b[0]);
    assert(a[1] == b[1]);
    assert(a[2] == b[2]);
    assert(a[3] == b[3]);
    content_model_is_injective(content, other_content);
    provenance_model_is_injective(provenance, other_provenance);
    let s = timestamp_model(event_timestamp)->Array_0;
    let t = timestamp_model(other_timestamp)->Array_0;
    assert(s[0] == t[0]);
    assert(s[1] == t[1]);
}

/// A list of texts as JSON.
pub fn texts_json(values: &Vec<String>) -> (r: Json)
    ensures
        r@ == texts_model(texts(values@)),
{
    let mut items: Vec<Json> = Vec::new();
    let mut i: usize = 0;
    while i < values.len()
        invariant
            i <= values@.len(),
            items@.len() == i,
            forall|j: int| 0 <= j < i ==> (#[trigger] items@[j])@ == JsonModel::Text(values@[j]@),
        decreases values@.len() - i,
    {
        items.push(Json::text(values[i].as_str()));
        i += 1;
    }
    let r = Json::array(items);
    assert(r@->Array_0 =~= texts_model(texts(values@))->Array_0);
    r
}

/// An optional text as JSON.
pub fn opt_text_json(value: &Option<String>) -> (r: Json)
    ensures
        r@ == opt_text_model(opt_text(*value)),
{
    match value {
        Some(text) => Json::text(text.as_str()),
        None => Json::null(),
    }
}

/// A content as JSON.
pub fn content_json(content: &MemoryContent) -> (r: Json)
    ensures
        r@ == content_model(content@),
{
    let mut object = JsonObject::new();
    match content {
        MemoryContent::Text { text } => {
            object.insert("kind", Json::text("text"));
            object.insert("text", Json::text(text.as_str()));
        },
        MemoryContent::Json { value } => {
            object.insert("kind", Json::text("json"));
            object.insert("value", value.clone());
        },
        MemoryContent::Reference { reference, preview } => {
            object.insert("kind", Json::text("reference"));
            object.insert("reference", Json::text(reference.as_str()));
            if let Some(preview) = preview {
                object.insert("preview", Json::text(preview.as_str()));
            }
        },
    }
    Json::object(object)
}

/// An instant as JSON.
pub fn timestamp_json(timestamp: &Timestamp) -> (r: Json)
    ensures
        r@ == timestamp_model(*timestamp),
{
    let items: Vec<Json> = vec![
        Json::integer(timestamp.seconds),
        Json::integer(timestamp.nanos as i64),
    ];
    let r = Json::array(items);
    assert(r@->Array_0 =~= timestamp_model(*timestamp)->Array_0);
    r
}

/// A provenance as JSON.
pub fn provenance_json(provenance: &MemoryProvenance) -> (r: Json)
    ensures
        r@ == provenance_model(provenance@),
{
    let items: Vec<Json> = vec![
        Json::text(provenance.source.as_str()),
        texts_json(&provenance.source_ids),
        texts_json(&provenance.parent_memory_ids),
        Json::object(provenance.metadata.clone()),
    ];
    let r = Json::array(items);
    assert(r@->Array_0 =~= provenance_model(provenance@)->Array_0);
    r
}

/// What a stored memory holds, as JSON.
pub fn payload_json(
    content: &MemoryContent,
    event_timestamp: &Timestamp,
    provenance: &MemoryProvenance,
    metadata: &JsonObject,
) -> (r: Json)
    ensures
        r@ == payload_model(content@, *event_timestamp, provenance@, metadata@),
{
    let items: Vec<Json> = vec![
        content_json(content),
        timestamp_json(event_timestamp),
        provenance_json(provenance),
        Json::object(metadata.clone()),
    ];
    let r = Json::array(items);
    assert(r@->Array_0 =~= payload_model(
        content@,
        *event_timestamp,
        provenance@,
        metadata@,
    )->Array_0);
    r
}

/// A namespace as JSON: its parts in order.
pub open spec fn namespace_model(namespace: NamespaceView) -> JsonModel {
    JsonModel::Array(
        seq![
            JsonModel::Text(namespace.tenant_id),
            JsonModel::Text(namespace.subject_id),
            opt_text_model(namespace.session_id),
            opt_text_model(namespace.agent_id),
        ],
    )
}

/// An optional instant as JSON.
pub open spec fn opt_timestamp_model(value: Option<Timestamp>) -> JsonModel {
    match value {
        Some(timestamp) => timestamp_model(timestamp),
        None => JsonModel::Null,
    }
}

/// A request context as JSON: its parts in order.
pub open spec fn context_model(context: ContextView) -> JsonModel {
    JsonModel::Array(
        seq![JsonModel::Text(context.operation_id), opt_timestamp_model(context.deadline)],
    )
}

/// A filter as JSON: its parts in order.
pub open spec fn filter_model(filter: FilterView) -> JsonModel {
    JsonModel::Array(
        seq![
            JsonModel::Object(filter.metadata),
            opt_timestamp_model(filter.event_after),
            opt_timestamp_model(filter.event_before),
            opt_timestamp_model(filter.ingested_after),
            opt_timestamp_model(filter.ingested_before),
        ],
    )
}

/// The name of a search scope on the wire.
pub open spec fn scope_name(scope: MemorySearchScope) -> Seq<char> {
    match scope {
        MemorySearchScope::Subject => "subject"@,
        MemorySearchScope::Agent => "agent"@,
        MemorySearchScope::Session => "session"@,
        MemorySearchScope::Exact => "exact"@,
    }
}

/// The name of a maintenance action on the wire.
pub open spec fn action_name(action: MemoryMaintenanceAction) -> Seq<char> {
    match action {
        MemoryMaintenanceAction::Reflect => "reflect"@,
        MemoryMaintenanceAction::Consolidate => "consolidate"@,
    }
}

/// A source window as JSON: its parts in order.
pub open spec fn window_model(window: WindowView) -> JsonModel {
    JsonModel::Array(
        seq![
            JsonModel::Text(window.checkpoint_id),
            opt_text_model(window.previous_checkpoint_id),
            JsonModel::Text(window.query),
            JsonModel::Text(scope_name(window.scope)),
            filter_model(window.filter),
            JsonModel::Text(decimal(window.limit)),
        ],
    )
}

/// A store request as JSON: its parts in order.
pub open spec fn store_request_model(request: StoreRequestView) -> JsonModel {
    JsonModel::Array(
        seq![
            context_model(request.context),
            namespace_model(request.namespace),
            payload_model(
                request.content,
                request.event_timestamp,
                request.provenance,
                request.metadata,
            ),
            opt_text_model(request.idempotency_key),
        ],
    )
}

/// A maintenance request as JSON: its parts in order.
pub open spec fn maintenance_request_model(request: MaintenanceRequestView) -> JsonModel {
    JsonModel::Array(
        seq![
            context_model(request.context),
            namespace_model(request.namespace),
            JsonModel::Text(action_name(request.action)),
            match request.window {
                Some(window) => window_model(window),
                None => JsonModel::Null,
            },
            JsonModel::Object(request.parameters),
        ],
    )
}

/// Different instants have different JSON.
proof fn opt_timestamp_model_is_injective(left: Option<Timestamp>, right: Option<Timestamp>)
    requires
        opt_timestamp_model(left) == opt_timestamp_model(right),
    ensures
        left == right,
{
    if left is Some && right is Some {
        let a = timestamp_model(left->0)->Array_0;
        let b = timestamp_model(right->0)->Array_0;
        assert(a[0] == b[0]);
        assert(a[1] == b[1]);
    }
}

/// Different contexts have different JSON.
proof fn context_model_is_injective(left: ContextView, right: ContextView)
    requires
        context_model(left) == context_model(right),
    ensures
        left == right,
{
    let a = context_model(left)->Array_0;
    let b = context_model(right)->Array_0;
    assert(a[0] == b[0]);
    assert(a[1] == b[1]);
    opt_timestamp_model_is_injective(left.deadline, right.deadline);
}

/// Different namespaces have different JSON.
proof fn namespace_model_is_injective(left: NamespaceView, right: NamespaceView)
    requires
        namespace_model(left) == namespace_model(right),
    ensures
        left == right,
{
    let a = namespace_model(left)->Array_0;
    let b = namespace_model(right)->Array_0;
    assert(a[0] == b[0]);
    assert(a[1] == b[1]);
    assert(a[2] == b[2]);
    assert(a[3] == b[3]);
}

/// Different windows have different JSON.
proof fn window_model_is_injective(left: WindowView, right: WindowView)
    requires
        window_model(left) == window_model(right),
    ensures
        left == right,
{
    let a = window_model(left)->Array_0;
    let b = window_model(right)->Array_0;
    assert(a[0] == b[0]);
    assert(a[1] == b[1]);
    assert(a[2] == b[2]);
    assert(a[3] == b[3]);
    assert(a[4] == b[4]);
    assert(a[5] == b[5]);
    let f = filter_model(left.filter)->Array_0;
    let g = filter_model(right.filter)->Array_0;
    assert(f[0] == g[0]);
    assert(f[1] == g[1]);
    assert(f[2] == g[2]);
    assert(f[3] == g[3]);
    assert(f[4] == g[4]);
    opt_timestamp_model_is_injective(left.filter.event_after, right.filter.event_after);
    opt_timestamp_model_is_injective(left.filter.event_before, right.filter.event_before);
    opt_timestamp_model_is_injective(left.filter.ingested_after, right.filter.ingested_after);
    opt_timestamp_model_is_injective(left.filter.ingested_before, right.filter.ingested_before);
    decimal_is_exact(left.limit);
    decimal_is_exact(right.limit);
    reveal_strlit("subject");
    reveal_strlit("agent");
    reveal_strlit("session");
    reveal_strlit("exact");
    assert("subject"@[1] == 'u' && "session"@[1] == 'e');
    assert("agent"@[0] == 'a' && "exact"@[0] == 'e' && "subject"@[0] == 's' && "session"@[0] == 's');
}

/// Different store requests have different JSON.
pub proof fn store_request_model_is_injective(left: StoreRequestView, right: StoreRequestView)
    requires
        store_request_model(left) == store_request_model(right),
    ensures
        left == right,
{
    let a = store_request_model(left)->Array_0;
    let b = store_request_model(right)->Array_0;
    assert(a[0] == b[0]);
    assert(a[1] == b[1]);
    assert(a[2] == b[2]);
    assert(a[3] == b[3]);
    context_model_is_injective(left.context, right.context);
    namespace_model_is_injective(left.namespace, right.namespace);
    payload_model_is_injective(
        left.content,
        left.event_timestamp,
        left.provenance,
        left.metadata,
        right.content,
        right.event_timestamp,
        right.provenance,
        right.metadata,
    );
}

/// Different maintenance requests have different JSON.
pub proof fn maintenance_request_model_is_injective(
    left: MaintenanceRequestView,
    right: MaintenanceRequestView,
)
    requires
        maintenance_request_model(left) == maintenance_request_model(right),
    ensures
        left == right,
{
    let a = maintenance_request_model(left)->Array_0;
    let b = maintenance_request_model(right)->Array_0;
    assert(a[0] == b[0]);
    assert(a[1] == b[1]);
    assert(a[2] == b[2]);
    assert(a[3] == b[3]);
    assert(a[4] == b[4]);
    context_model_is_injective(left.context, right.context);
    namespace_model_is_injective(left.namespace, right.namespace);
    if left.window is Some && right.window is Some {
        window_model_is_injective(left.window->0, right.window->0);
    }
    reveal_strlit("reflect");
    reveal_strlit("consolidate");
    assert("reflect"@[0] != "consolidate"@[0]);
}

/// A namespace as JSON.
fn namespace_json(namespace: &MemoryNamespace) -> (r: Json)
    ensures
        r@ == namespace_model(namespace@),
{
    let items: Vec<Json> = vec![
        Json::text(namespace.tenant_id.as_str()),
        Json::text(namespace.subject_id.as_str()),
        opt_text_json(&namespace.session_id),
        opt_text_json(&namespace.agent_id),
    ];
    let r = Json::array(items);
    assert(r@->Array_0 =~= namespace_model(namespace@)->Array_0);
    r
}

/// An optional instant as JSON.
fn opt_timestamp_json(value: &Option<Timestamp>) -> (r: Json)
    ensures
        r@ == opt_timestamp_model(*value),
{
    match value {
        Some(timestamp) => timestamp_json(timestamp),
        None => Json::null(),
    }
}

/// A request context as JSON.
fn context_json(context: &MemoryRequestContext) -> (r: Json)
    ensures
        r@ == context_model(context@),
{
    let items: Vec<Json> = vec![
        Json::text(context.operation_id.as_str()),
        opt_timestamp_json(&context.deadline),
    ];
    let r = Json::array(items);
    assert(r@->Array_0 =~= context_model(context@)->Array_0);
    r
}

/// A filter as JSON.
fn filter_json(filter: &MemoryFilter) -> (r: Json)
    ensures
        r@ == filter_model(filter@),
{
    let items: Vec<Json> = vec![
        Json::object(filter.metadata.clone()),
        opt_timestamp_json(&filter.event_after),
        opt_timestamp_json(&filter.event_before),
        opt_timestamp_json(&filter.ingested_after),
        opt_timestamp_json(&filter.ingested_before),
    ];
    let r = Json::array(items);
    assert(r@->Array_0 =~= filter_model(filter@)->Array_0);
    r
}

/// The name of a maintenance action on the wire.
pub fn action_text(action: MemoryMaintenanceAction) -> (r: &'static str)
    ensures
        r@ == action_name(action),
{
    match action {
        MemoryMaintenanceAction::Reflect => "reflect",
        MemoryMaintenanceAction::Consolidate => "consolidate",
    }
}

/// The name of a search scope on the wire.
pub fn scope_text(scope: MemorySearchScope) -> (r: &'static str)
    ensures
        r@ == scope_name(scope),
{
    match scope {
        MemorySearchScope::Subject => "subject",
        MemorySearchScope::Agent => "agent",
        MemorySearchScope::Session => "session",
        MemorySearchScope::Exact => "exact",
    }
}

/// A source window as JSON.
fn window_json(window: &MemoryMaintenanceWindow) -> (r: Json)
    ensures
        r@ == window_model(window@),
{
    let limit = to_decimal(window.limit as u64);
    let items: Vec<Json> = vec![
        Json::text(window.checkpoint_id.as_str()),
        opt_text_json(&window.previous_checkpoint_id),
        Json::text(window.query.as_str()),
        Json::text(scope_text(window.scope)),
        filter_json(&window.filter),
        Json::text(limit.as_str()),
    ];
    let r = Json::array(items);
    assert(r@->Array_0 =~= window_model(window@)->Array_0);
    r
}

/// A store request as JSON.
pub fn store_request_json(request: &MemoryStoreRequest) -> (r: Json)
    ensures
        r@ == store_request_model(request@),
{
    let items: Vec<Json> = vec![
        context_json(&request.context),
        namespace_json(&request.namespace),
        payload_json(
            &request.content,
            &request.event_timestamp,
            &request.provenance,
            &request.metadata,
        ),
        opt_text_json(&request.idempotency_key),
    ];
    let r = Json::array(items);
    assert(r@->Array_0 =~= store_request_model(request@)->Array_0);
    r
}

/// A maintenance request as JSON.
pub fn maintenance_request_json(request: &MemoryMaintenanceRequest) -> (r: Json)
    ensures
        r@ == maintenance_request_model(request@),
{
    let window = match &request.window {
        Some(window) => window_json(window),
        None => Json::null(),
    };
    let items: Vec<Json> = vec![
        context_json(&request.context),
        namespace_json(&request.namespace),
        Json::text(action_text(request.action)),
        window,
        Json::object(request.parameters.clone()),
    ];
    let r = Json::array(items);
    assert(r@->Array_0 =~= maintenance_request_model(request@)->Array_0);
    r
}

/// A content is tagged with its kind and holds its own members only.
pub proof fn contents_are_tagged(
    text: Seq<char>,
    value: JsonModel,
    reference: Seq<char>,
    preview: Seq<char>,
)
    ensures
        content_model(ContentView::Text { text }) == JsonModel::Object(
            no_members().insert("kind"@, JsonModel::Text("text"@)).insert(
                "text"@,
                JsonModel::Text(text),
            ),
        ),
        content_model(ContentView::Json { value }) == JsonModel::Object(
            no_members().insert("kind"@, JsonModel::Text("json"@)).insert("value"@, value),
        ),
        content_model(ContentView::Reference { reference, preview: None }) == JsonModel::Object(
            no_members().insert("kind"@, JsonModel::Text("reference"@)).insert(
                "reference"@,
                JsonModel::Text(reference),
            ),
        ),
        content_model(ContentView::Reference { reference, preview: Some(preview) })
            == JsonModel::Object(
            no_members().insert("kind"@, JsonModel::Text("reference"@)).insert(
                "reference"@,
                JsonModel::Text(reference),
            ).insert("preview"@, JsonModel::Text(preview)),
        ),
{
}

/// Texts, optional texts and names stand for themselves.
pub proof fn texts_stand_for_themselves(values: Seq<Seq<char>>, text: Seq<char>, i: int)
    requires
        0 <= i < values.len(),
    ensures
        texts_model(values) matches JsonModel::Array(items) && items.len() == values.len()
            && items[i] == JsonModel::Text(values[i]),
        opt_text_model(Some(text)) == JsonModel::Text(text),
        opt_text_model(None) == JsonModel::Null,
        action_name(MemoryMaintenanceAction::Reflect) == "reflect"@,
        action_name(MemoryMaintenanceAction::Consolidate) == "consolidate"@,
        scope_name(MemorySearchScope::Subject) == "subject"@,
        scope_name(MemorySearchScope::Agent) == "agent"@,
        scope_name(MemorySearchScope::Session) == "session"@,
        scope_name(MemorySearchScope::Exact) == "exact"@,
{
}

} // verus!
