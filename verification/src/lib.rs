//! Provider-neutral memory interfaces and reference implementations.
//!
//! Requests are validated, deadlines enforced, work queued and calls prepared by functions whose
//! contracts say exactly what they decide. Clocks, providers and codecs belong to the caller.

pub mod automatic;
pub mod component;
pub mod component_laws;
pub mod conformance;
pub mod double;
pub mod equality;
pub mod error;
pub mod evidence;
pub mod in_memory;
pub mod installation;
pub mod json;
pub mod laws;
pub mod maintainer;
pub mod memory;
pub mod metadata;
pub mod plugin;
pub mod prompt;
pub mod provider;
pub mod queue_laws;
pub mod runtime;
pub mod text;
pub mod time;
pub mod wire;
pub mod work;
pub mod work_queue;

pub use automatic::{
    AutomaticMemoryConfig, EvidenceMode, FailurePolicy, WriteDelivery, WriteProjection,
};
pub use component::MemoryComponent;
pub use conformance::{ConformanceCase, ConformanceReport, ConformanceRun};
pub use in_memory::InMemoryProvider;
pub use installation::MemoryInstallation;
pub use json::{Json, JsonObject};
pub use maintainer::{ReferenceMaintainer, REFERENCE_ARTIFACT_VERSION};
pub use plugin::MEMORY_PLUGIN_KIND;
pub use runtime::MemoryRuntime;
pub use time::Timestamp;
pub use work::{
    MemoryBackpressurePolicy, MemoryJobState, MemoryJobStatus, MemoryWorkKind, MemoryWorkOutcome,
    MemoryWorkQueueConfig, MemoryWorkQueueSnapshot, MemoryWorkReceipt, MemoryWorkTransition,
};
pub use work_queue::MemoryWorkQueue;
