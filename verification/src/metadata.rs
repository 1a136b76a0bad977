//! Failures of managed calls, and what the metadata of a call says of memory.

use vstd::prelude::*;
use crate::automatic::opt_namespace;
use crate::error::ErrorView;
use crate::json::{json_member, json_models, Json, JsonModel};
use crate::memory::{
    namespace_fault, MemoryErrorCode, MemoryNamespace, MemoryOperationError, NamespaceView,
};
use crate::text::{concat, concat3};

verus! {

/// A failure of a managed call.
#[derive(Debug, PartialEq, Eq)]
pub enum FlowError {
    /// An argument or its metadata is invalid.
    InvalidArgument(String),
    /// Something that was asked for is not there.
    NotFound(String),
    /// A stage failed.
    Internal(String),
}

/// A failure of a managed call.
pub enum FlowView {
    InvalidArgument(Seq<char>),
    NotFound(Seq<char>),
    Internal(Seq<char>),
}

impl View for FlowError {
    type V = FlowView;

    open spec fn view(&self) -> FlowView {
        match self {
            FlowError::InvalidArgument(message) => FlowView::InvalidArgument(message@),
            FlowError::NotFound(message) => FlowView::NotFound(message@),
            FlowError::Internal(message) => FlowView::Internal(message@),
        }
    }
}

/// The name of an error code in diagnostics.
pub open spec fn code_label(code: MemoryErrorCode) -> Seq<char> {
    match code {
        MemoryErrorCode::InvalidRequest => "InvalidRequest"@,
        MemoryErrorCode::Unsupported => "Unsupported"@,
        MemoryErrorCode::DeadlineExceeded => "DeadlineExceeded"@,
        MemoryErrorCode::Cancelled => "Cancelled"@,
        MemoryErrorCode::Conflict => "Conflict"@,
        MemoryErrorCode::ProviderUnavailable => "ProviderUnavailable"@,
        MemoryErrorCode::Internal => "Internal"@,
    }
}

/// The name of an error code in diagnostics.
pub fn code_label_text(code: MemoryErrorCode) -> (r: &'static str)
    ensures
        r@ == code_label(code),
{
    match code {
        MemoryErrorCode::InvalidRequest => "InvalidRequest",
        MemoryErrorCode::Unsupported => "Unsupported",
        MemoryErrorCode::DeadlineExceeded => "DeadlineExceeded",
        MemoryErrorCode::Cancelled => "Cancelled",
        MemoryErrorCode::Conflict => "Conflict",
        MemoryErrorCode::ProviderUnavailable => "ProviderUnavailable",
        MemoryErrorCode::Internal => "Internal",
    }
}

/// The failure of a managed call that a memory failure in a stage causes.
pub open spec fn stage_failure(stage: Seq<char>, error: ErrorView) -> FlowView {
    FlowView::Internal(stage + ": "@ + error.message + " ("@ + code_label(error.code) + ")"@)
}

pub(crate) fn flow_error(stage: &str, error: &MemoryOperationError) -> (r: FlowError)
    ensures
        r@ == stage_failure(stage@, error@),
{
    let mut message = concat3(stage, ": ", error.message.as_str());
    message.append(" (");
    message.append(code_label_text(error.code));
    message.append(")");
    FlowError::Internal(message)
}

/// The metadata of a layer, where it has any.
pub open spec fn layer(metadata: Option<Json>) -> Seq<JsonModel> {
    match metadata {
        Some(value) => seq![value@],
        None => Seq::empty(),
    }
}

/// The metadata of scopes, the innermost first.
pub open spec fn scope_layers(scopes: Seq<Option<Json>>) -> Seq<JsonModel>
    decreases scopes.len(),
{
    if scopes.len() == 0 {
        Seq::empty()
    } else {
        layer(scopes.last()) + scope_layers(scopes.drop_last())
    }
}

/// The metadata that governs a call: its own first, then that of its scopes, the innermost first.
pub fn metadata_layers(call: &Option<Json>, scopes: &Vec<Option<Json>>) -> (r: Vec<Json>)
    ensures
        json_models(r@) == layer(*call) + scope_layers(scopes@),
{
    let mut layers: Vec<Json> = Vec::new();
    if let Some(value) = call {
        layers.push(value.clone());
    }
    assert(json_models(layers@) =~= layer(*call));
    let mut i: usize = scopes.len();
    assert(scopes@.take(i as int) =~= scopes@);
    while i > 0
        invariant
            i <= scopes@.len(),
            json_models(layers@) + scope_layers(scopes@.take(i as int)) == layer(*call)
                + scope_layers(scopes@),
        decreases i,
    {
        let ghost before = json_models(layers@);
        let ghost rest = scope_layers(scopes@.take(i - 1));
        assert(scopes@.take(i as int).drop_last() =~= scopes@.take(i - 1));
        assert(scopes@.take(i as int).last() == scopes@[i - 1]);
        if let Some(value) = &scopes[i - 1] {
            layers.push(value.clone());
            assert(json_models(layers@) =~= before.push(value@));
        }
        assert(json_models(layers@) + rest =~= before + (layer(scopes@[i - 1]) + rest));
        i -= 1;
    }
    assert(json_models(layers@) + scope_layers(scopes@.take(0)) =~= json_models(layers@));
    layers
}

/// Whether automatic memory is on for a call: what the first layer that says so says, and on
/// where none does.
pub open spec fn enabled(layers: Seq<JsonModel>) -> Result<bool, Seq<char>>
    decreases layers.len(),
{
    if layers.len() == 0 {
        Ok(true)
    } else {
        match json_member(layers[0], "memory"@) {
            None => enabled(layers.drop_first()),
            Some(memory) => if !(memory is Object) {
                Err("metadata.memory must be an object"@)
            } else {
                match json_member(memory, "enabled"@) {
                    None => enabled(layers.drop_first()),
                    Some(JsonModel::Bool(value)) => Ok(value),
                    Some(_) => Err("metadata.memory.enabled must be a boolean"@),
                }
            },
        }
    }
}

/// Whether automatic memory is on for a call.
pub fn resolve_enabled(layers: &Vec<Json>) -> (r: Result<bool, FlowError>)
    ensures
        match (r, enabled(json_models(layers@))) {
            (Ok(value), Ok(expected)) => value == expected,
            (Err(error), Err(message)) => error@ == FlowView::InvalidArgument(message),
            _ => false,
        },
{
    let ghost models = json_models(layers@);
    let mut i: usize = 0;
    assert(models.skip(0) =~= models);
    while i < layers.len()
        invariant
            i <= layers@.len(),
            models == json_models(layers@),
            enabled(models) == enabled(models.skip(i as int)),
        decreases layers@.len() - i,
    {
        proof {
            assert(models.skip(i as int)[0] == layers@[i as int]@);
            assert(models.skip(i as int).drop_first() =~= models.skip(i + 1));
        }
        if let Some(memory) = layers[i].member("memory") {
            if !memory.is_object() {
                return Err(
                    FlowError::InvalidArgument("metadata.memory must be an object".to_owned()),
                );
            }
            if let Some(value) = memory.member("enabled") {
                return match value.as_bool() {
                    Some(value) => Ok(value),
                    None => Err(
                        FlowError::InvalidArgument(
                            "metadata.memory.enabled must be a boolean".to_owned(),
                        ),
                    ),
                };
            }
        }
        i += 1;
    }
    Ok(true)
}

/// The namespace that the first layer with one declares, still as JSON.
pub open spec fn declared(layers: Seq<JsonModel>) -> Option<JsonModel>
    decreases layers.len(),
{
    if layers.len() == 0 {
        None
    } else {
        match json_member(layers[0], "memory"@) {
            Some(memory) => match json_member(memory, "namespace"@) {
                Some(namespace) => Some(namespace),
                None => declared(layers.drop_first()),
            },
            None => declared(layers.drop_first()),
        }
    }
}

/// The namespace that the first layer with one declares, still as JSON.
pub fn declared_namespace(layers: &Vec<Json>) -> (r: Option<Json>)
    ensures
        match declared(json_models(layers@)) {
            Some(model) => r matches Some(value) && value@ == model,
            None => r is None,
        },
{
    let ghost models = json_models(layers@);
    let mut i: usize = 0;
    assert(models.skip(0) =~= models);
    while i < layers.len()
        invariant
            i <= layers@.len(),
            models == json_models(layers@),
            declared(models) == declared(models.skip(i as int)),
        decreases layers@.len() - i,
    {
        proof {
            assert(models.skip(i as int)[0] == layers@[i as int]@);
            assert(models.skip(i as int).drop_first() =~= models.skip(i + 1));
        }
        if let Some(memory) = layers[i].member("memory") {
            if let Some(namespace) = memory.member("namespace") {
                return Some(namespace);
            }
        }
        i += 1;
    }
    None
}

/// The view of a decoded namespace, or of the text of the decoding error.
pub open spec fn decoded_view(decoded: Option<Result<MemoryNamespace, String>>) -> Option<
    Result<NamespaceView, Seq<char>>,
> {
    match decoded {
        Some(Ok(namespace)) => Some(Ok(namespace@)),
        Some(Err(text)) => Some(Err(text@)),
        None => None,
    }
}

/// The namespace of a call: the declared one, which must decode and be valid, or the fallback.
pub open spec fn resolved(
    decoded: Option<Result<NamespaceView, Seq<char>>>,
    fallback: Option<NamespaceView>,
) -> Result<Option<NamespaceView>, ErrorView> {
    match decoded {
        Some(Ok(namespace)) => match namespace_fault(namespace) {
            Some(message) => Err(ErrorView::invalid_request(message)),
            None => Ok(Some(namespace)),
        },
        Some(Err(text)) => Err(
            ErrorView::invalid_request("metadata.memory.namespace is invalid: "@ + text),
        ),
        None => Ok(fallback),
    }
}

/// The namespace of a call, from what decoding the declared one gave and the fallback.
pub fn resolve_namespace(
    decoded: Option<Result<MemoryNamespace, String>>,
    fallback: &Option<MemoryNamespace>,
) -> (r: Result<Option<MemoryNamespace>, MemoryOperationError>)
    ensures
        match (r, resolved(decoded_view(decoded), opt_namespace(*fallback))) {
            (Ok(namespace), Ok(expected)) => opt_namespace(namespace) == expected,
            (Err(error), Err(expected)) => error@ == expected,
            _ => false,
        },
{
    match decoded {
        Some(Ok(namespace)) => match namespace.validate() {
            Ok(()) => Ok(Some(namespace)),
            Err(error) => Err(error),
        },
        Some(Err(text)) => {
            let message = concat("metadata.memory.namespace is invalid: ", text.as_str());
            Err(MemoryOperationError::invalid_request(message.as_str()))
        },
        None => match fallback {
            Some(namespace) => Ok(Some(namespace.clone())),
            None => Ok(None),
        },
    }
}

/// The metadata of a scope comes before that of the scopes around it, and a scope without metadata is
/// passed over.
pub proof fn inner_scopes_come_first(scopes: Seq<Option<Json>>, inner: Json)
    ensures
        scope_layers(Seq::empty()).len() == 0,
        scope_layers(scopes.push(Some(inner))) == seq![inner@] + scope_layers(scopes),
        scope_layers(scopes.push(None)) == scope_layers(scopes),
        layer(Some(inner)) == seq![inner@],
        layer(None).len() == 0,
{
    assert(scopes.push(Some(inner)).drop_last() =~= scopes);
    assert(scopes.push(None).drop_last() =~= scopes);
    assert(Seq::<JsonModel>::empty() + scope_layers(scopes) =~= scope_layers(scopes));
}

/// Whether memory is on is decided by the first layer that says so, and it is on where none does. A
/// layer that says nothing of memory is passed over, and one that says it in the wrong form is
/// refused.
pub proof fn first_word_decides(layers: Seq<JsonModel>, first: JsonModel, memory: JsonModel)
    ensures
        enabled(Seq::empty()) == Ok::<bool, Seq<char>>(true),
        json_member(first, "memory"@) is None ==> enabled(seq![first] + layers) == enabled(layers),
        json_member(first, "memory"@) == Some(memory) && !(memory is Object) ==> enabled(
            seq![first] + layers,
        ) is Err,
        json_member(first, "memory"@) == Some(memory) && memory is Object ==> match json_member(
            memory,
            "enabled"@,
        ) {
            None => enabled(seq![first] + layers) == enabled(layers),
            Some(JsonModel::Bool(value)) => enabled(seq![first] + layers) == Ok::<bool, Seq<char>>(
                value,
            ),
            Some(_) => enabled(seq![first] + layers) is Err,
        },
{
    let all = seq![first] + layers;
    assert(all[0] == first);
    assert(all.drop_first() =~= layers);
}

/// The declared namespace is that of the first layer that has one. A layer without is passed over.
pub proof fn first_namespace_is_declared(layers: Seq<JsonModel>, first: JsonModel)
    ensures
        declared(Seq::empty()) is None,
        declared(seq![first] + layers) == match json_member(first, "memory"@) {
            Some(memory) => match json_member(memory, "namespace"@) {
                Some(namespace) => Some(namespace),
                None => declared(layers),
            },
            None => declared(layers),
        },
{
    let all = seq![first] + layers;
    assert(all[0] == first);
    assert(all.drop_first() =~= layers);
}

/// A declared namespace overrules the fallback: it is taken where it is valid, and refused where it
/// is not or cannot be read. Only without one the fallback counts.
pub proof fn declared_namespace_overrules(
    namespace: NamespaceView,
    text: Seq<char>,
    fallback: Option<NamespaceView>,
)
    ensures
        namespace_fault(namespace) is None ==> resolved(Some(Ok(namespace)), fallback) == Ok::<
            Option<NamespaceView>,
            ErrorView,
        >(Some(namespace)),
        namespace_fault(namespace) matches Some(message) ==> resolved(
            Some(Ok(namespace)),
            fallback,
        ) == Err::<Option<NamespaceView>, ErrorView>(ErrorView::invalid_request(message)),
        resolved(Some(Err(text)), fallback) is Err,
        resolved(None, fallback) == Ok::<Option<NamespaceView>, ErrorView>(fallback),
{
}

/// A call that fails for a memory failure says in which stage, why and with which code.
pub proof fn failed_calls_say_why(stage: Seq<char>, error: ErrorView)
    ensures
        stage_failure(stage, error) == FlowView::Internal(
            stage + ": "@ + error.message + " ("@ + code_label(error.code) + ")"@,
        ),
{
}

/// Diagnostics name a code by its own name.
pub proof fn codes_have_labels()
    ensures
        code_label(MemoryErrorCode::InvalidRequest) == "InvalidRequest"@,
        code_label(MemoryErrorCode::Unsupported) == "Unsupported"@,
        code_label(MemoryErrorCode::DeadlineExceeded) == "DeadlineExceeded"@,
        code_label(MemoryErrorCode::Cancelled) == "Cancelled"@,
        code_label(MemoryErrorCode::Conflict) == "Conflict"@,
        code_label(MemoryErrorCode::ProviderUnavailable) == "ProviderUnavailable"@,
        code_label(MemoryErrorCode::Internal) == "Internal"@,
{
}

} // verus!
