//! Metadata and system-information snapshots of sequences and topics.
use crate::time::DateTime;
use vstd::prelude::*;

verus! {

#[verifier::external_type_specification]
#[verifier::external_body]
pub struct ExUuid(uuid::Uuid);

/// The database identity of a resource.
pub struct ResourceId {
    pub id: i32,
    pub uuid: uuid::Uuid,
}

/// The properties and the user metadata of a topic.
#[derive(Debug)]
pub struct TopicMetadata<M> {
    pub properties: TopicProperties,
    pub user_metadata: M,
}

impl<M> TopicMetadata<M> {
    /// Pairs properties with user metadata.
    pub fn new(props: TopicProperties, user_metadata: M) -> (r: Self)
        ensures
            r.properties == props,
            r.user_metadata == user_metadata,
    {
        Self { properties: props, user_metadata }
    }
}

/// Aggregated statistics of a topic's chunks.
#[derive(Debug, Clone)]
pub struct TopicChunksStats {
    pub total_size_bytes: i64,
    pub total_row_count: i64,
}

impl Default for TopicChunksStats {
    fn default() -> (r: Self)
        ensures
            r.total_size_bytes == 0,
            r.total_row_count == 0,
    {
        TopicChunksStats { total_size_bytes: 0, total_row_count: 0 }
    }
}

/// How a topic's data is encoded: the name of its serialization format, as the writer
/// knows it, and its ontology tag.
#[derive(Debug)]
pub struct TopicProperties {
    pub serialization_format: String,
    pub ontology_tag: String,
}

impl TopicProperties {
    /// Properties from a format name and an ontology tag.
    pub fn new(serialization_format: String, ontology_tag: String) -> (r: Self)
        ensures
            r.serialization_format == serialization_format,
            r.ontology_tag == ontology_tag,
    {
        Self { serialization_format, ontology_tag }
    }
}

/// A snapshot of a topic's state on storage.
pub struct TopicSystemInfo {
    /// Number of chunks of the topic.
    pub chunks_number: usize,
    /// The topic accepted data and its producer closed gracefully.
    pub is_locked: bool,
    /// Size in bytes of the data, system files excluded.
    pub total_size_bytes: usize,
    /// When the topic was created.
    pub created_datetime: DateTime,
}

/// The user metadata of a sequence.
pub struct SequenceMetadata<M> {
    pub user_metadata: M,
}

impl<M> SequenceMetadata<M> {
    /// Wraps user metadata.
    pub fn new(user_metadata: M) -> (r: Self)
        ensures
            r.user_metadata == user_metadata,
    {
        Self { user_metadata }
    }
}

/// A snapshot of a sequence's state on storage.
pub struct SequenceSystemInfo {
    /// Size in bytes of the data, system files included.
    pub total_size_bytes: usize,
    /// All topics of the sequence are locked and the sequence was finalized.
    pub is_locked: bool,
    /// When the sequence was created.
    pub created_datetime: DateTime,
}

} // verus!
