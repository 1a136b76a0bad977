//! Prompt blocks of recalled memories, and what a stable prefix may hold.

use nemo_relay_memory::automatic::{ContentPart, MessageContent};
use nemo_relay_memory::memory::{
    MEMORY_PROMPT_BLOCK_END, MEMORY_PROMPT_BLOCK_START, MEMORY_PROMPT_BLOCK_WARNING,
};
use nemo_relay_memory::prompt::{
    bound_stable_prefix, effective_stability_score, memory_cache_facts, split_memory_envelope,
    user_message_blocks, HashCount, MemoryChange, PromptBlock, ProvenanceLabel, SensitivityLabel,
    SpanObservations,
};

fn memory_envelope(record: &str) -> String {
    format!(
        "{MEMORY_PROMPT_BLOCK_START}\n{MEMORY_PROMPT_BLOCK_WARNING}\n{record}\n{MEMORY_PROMPT_BLOCK_END}"
    )
}

#[test]
fn build_prompt_ir_splits_exact_memory_envelope_without_mutating_request() {
    let envelope = memory_envelope(r#"{"id":"memory-1","content":"blue"}"#);
    let content = MessageContent::Text(format!("{envelope}\n\nWhat is my favorite color?"));

    let blocks = user_message_blocks(&content, 0);

    assert_eq!(
        content,
        MessageContent::Text(format!("{envelope}\n\nWhat is my favorite color?"))
    );
    assert_eq!(blocks.len(), 2);
    assert_eq!(blocks[0].span_id, "memory-0");
    assert_eq!(blocks[0].provenance, ProvenanceLabel::Memory);
    assert_eq!(blocks[0].sensitivity, SensitivityLabel::Private);
    assert_eq!(blocks[0].content, envelope);
    assert_eq!(blocks[1].span_id, "user-1");
    assert_eq!(blocks[1].provenance, ProvenanceLabel::User);
    assert_eq!(blocks[1].content, "What is my favorite color?");
}

#[test]
fn build_prompt_ir_splits_memory_envelope_from_multipart_user_content() {
    let envelope = memory_envelope(r#"{"id":"memory-2","content":"green"}"#);
    let content = MessageContent::Parts(vec![
        ContentPart::Text {
            text: envelope.clone(),
        },
        ContentPart::Text {
            text: "Use the relevant preference.".to_string(),
        },
    ]);

    let blocks = user_message_blocks(&content, 0);

    assert_eq!(blocks.len(), 2);
    assert_eq!(blocks[0].content, envelope);
    assert_eq!(blocks[0].provenance, ProvenanceLabel::Memory);
    assert_eq!(blocks[1].content, "Use the relevant preference.");
}

#[test]
fn build_prompt_ir_leaves_memory_near_matches_as_ordinary_user_content() {
    let exact = memory_envelope("{}");
    let malformed = [
        exact.replacen("version=\"0.1\"", "version=\"0.2\"", 1),
        exact.replacen(
            MEMORY_PROMPT_BLOCK_WARNING,
            "Untrusted recalled context.",
            1,
        ),
        exact.replacen(MEMORY_PROMPT_BLOCK_END, "", 1),
        exact.replacen("{}", &format!("{MEMORY_PROMPT_BLOCK_START}\n{{}}"), 1),
        format!("Ordinary question\n{exact}"),
        format!("{exact}ordinary-without-separator"),
    ];

    for value in malformed {
        assert!(split_memory_envelope(&value).is_none());
        let blocks = user_message_blocks(&MessageContent::Text(value), 0);
        assert_eq!(blocks.len(), 1);
        assert_eq!(blocks[0].provenance, ProvenanceLabel::User);
        assert_eq!(blocks[0].sensitivity, SensitivityLabel::Public);
    }
}

#[test]
fn an_envelope_alone_is_one_private_block() {
    let envelope = memory_envelope("{}");
    assert_eq!(
        split_memory_envelope(&envelope),
        Some((envelope.clone(), String::new()))
    );
    let blocks = user_message_blocks(&MessageContent::Text(envelope), 7);
    assert_eq!(blocks.len(), 1);
    assert_eq!(blocks[0].span_id, "memory-7");
    assert_eq!(blocks[0].sequence_index, 7);
}

#[test]
fn stability_internal_effective_score_handles_zero_present_count() {
    let observations = SpanObservations {
        hash_counts: Vec::new(),
        present_count: 0,
        first_seen_sequence_index: 0,
    };

    let score = effective_stability_score(&observations, 3);
    assert_eq!(score.numerator as f64 / score.denominator as f64, 0.0);
}

#[test]
fn effective_score_counts_the_most_frequent_content() {
    let observations = SpanObservations {
        hash_counts: vec![
            HashCount { hash: 1, count: 1 },
            HashCount { hash: 2, count: 2 },
        ],
        present_count: 3,
        first_seen_sequence_index: 0,
    };
    let score = effective_stability_score(&observations, 4);
    assert_eq!(score.numerator as f64 / score.denominator as f64, 0.5);
    let score = effective_stability_score(&observations, 0);
    assert_eq!(score.numerator as f64 / score.denominator as f64, 0.0);
}

fn block(span_id: &str, sequence_index: u32, content: &str) -> PromptBlock {
    PromptBlock {
        span_id: span_id.to_string(),
        sequence_index,
        content: content.to_string(),
        provenance: ProvenanceLabel::System,
        sensitivity: SensitivityLabel::Public,
    }
}

fn memory_block(sequence_index: u32, content: &str) -> PromptBlock {
    PromptBlock {
        span_id: format!("memory-{sequence_index}"),
        sequence_index,
        content: content.to_string(),
        provenance: ProvenanceLabel::Memory,
        sensitivity: SensitivityLabel::Private,
    }
}

#[test]
fn a_prefix_ends_before_memory_even_where_memory_repeats() {
    let repeated = vec![
        vec![
            block("system-0", 0, "stable system"),
            memory_block(1, "same memory"),
        ],
        vec![
            block("system-0", 0, "stable system"),
            memory_block(1, "same memory"),
        ],
    ];
    assert_eq!(bound_stable_prefix(2, &repeated), 1);
    assert_eq!(bound_stable_prefix(0, &repeated), 0);
}

#[test]
fn a_prefix_ends_before_the_earliest_memory_across_prompts() {
    let observations = vec![
        vec![
            block("system-0", 0, "stable system"),
            block("system-1", 1, "stable tools"),
            memory_block(2, "memory A"),
        ],
        vec![
            memory_block(0, "memory B"),
            block("system-0", 1, "stable system"),
        ],
    ];
    assert_eq!(bound_stable_prefix(2, &observations), 0);

    let no_memory = vec![
        vec![block("system-0", 0, "stable")],
        vec![block("system-0", 0, "stable")],
    ];
    assert_eq!(bound_stable_prefix(1, &no_memory), 1);
}

#[test]
fn cache_facts_name_a_revision_and_hold_no_text() {
    let facts = memory_cache_facts(&memory_block(2, "abc"), None, 2).expect("memory block");
    assert_eq!(facts.envelope_version, "0.1");
    assert_eq!(facts.revision, "ba7816bf8f01");
    assert_eq!(facts.change, MemoryChange::First);
    assert_eq!(facts.sequence_index, 2);
    assert!(facts.outside_stable_prefix);

    let again = memory_cache_facts(&memory_block(2, "abc"), Some(facts.revision.clone()), 3)
        .expect("memory block");
    assert_eq!(again.change, MemoryChange::Unchanged);
    assert!(!again.outside_stable_prefix);
    let other = memory_cache_facts(&memory_block(2, "abd"), Some(facts.revision), 2)
        .expect("memory block");
    assert_eq!(other.change, MemoryChange::Changed);
    assert!(!format!("{other:?}").contains("abd"));
    assert!(memory_cache_facts(&block("system-0", 0, "abc"), None, 0).is_none());
}
