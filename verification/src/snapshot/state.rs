//! What a snapshot holds.

use std::sync::Arc;

use vstd::prelude::*;

use crate::error::DeltaResult;
use crate::log_segment::{LogSegment, LogSegmentFiles, ParsedLogPath, SegmentV, Version};
use crate::metrics::events::{ProtocolMetadataSource, SnapshotLoadMetricContext};
use crate::schema::{ColumnMappingMode, SchemaRef};
use crate::text::{clone_strings, strings_eq, strings_view};

verus! {

/// A table's protocol action.
#[derive(Debug, PartialEq)]
pub struct Protocol {
    pub min_reader_version: i32,
    pub min_writer_version: i32,
    pub reader_features: Vec<String>,
    pub writer_features: Vec<String>,
}

/// A [`Protocol`] as a mathematical value.
pub struct ProtocolV {
    pub min_reader_version: i32,
    pub min_writer_version: i32,
    pub reader_features: Seq<Seq<char>>,
    pub writer_features: Seq<Seq<char>>,
}

impl View for Protocol {
    type V = ProtocolV;

    open spec fn view(&self) -> ProtocolV {
        ProtocolV {
            min_reader_version: self.min_reader_version,
            min_writer_version: self.min_writer_version,
            reader_features: strings_view(self.reader_features@),
            writer_features: strings_view(self.writer_features@),
        }
    }
}

impl Clone for Protocol {
    fn clone(&self) -> (copy: Protocol)
        ensures
            copy@ == self@,
    {
        Protocol {
            min_reader_version: self.min_reader_version,
            min_writer_version: self.min_writer_version,
            reader_features: clone_strings(&self.reader_features),
            writer_features: clone_strings(&self.writer_features),
        }
    }
}

impl Protocol {
    /// Whether both actions say the same.
    pub fn same(&self, other: &Protocol) -> (same: bool)
        ensures
            same == (self@ == other@),
    {
        self.min_reader_version == other.min_reader_version && self.min_writer_version
            == other.min_writer_version && strings_eq(&self.reader_features, &other.reader_features)
            && strings_eq(&self.writer_features, &other.writer_features)
    }
}

/// A table's metadata action. The configuration is held in key order, as the list of its keys and
/// that of its values.
#[derive(Debug, PartialEq)]
pub struct Metadata {
    pub id: String,
    pub schema_string: String,
    pub partition_columns: Vec<String>,
    pub configuration_keys: Vec<String>,
    pub configuration_values: Vec<String>,
    pub created_time: Option<i64>,
}

/// A [`Metadata`] as a mathematical value.
pub struct MetadataV {
    pub id: Seq<char>,
    pub schema_string: Seq<char>,
    pub partition_columns: Seq<Seq<char>>,
    pub configuration_keys: Seq<Seq<char>>,
    pub configuration_values: Seq<Seq<char>>,
    pub created_time: Option<i64>,
}

impl View for Metadata {
    type V = MetadataV;

    open spec fn view(&self) -> MetadataV {
        MetadataV {
            id: self.id@,
            schema_string: self.schema_string@,
            partition_columns: strings_view(self.partition_columns@),
            configuration_keys: strings_view(self.configuration_keys@),
            configuration_values: strings_view(self.configuration_values@),
            created_time: self.created_time,
        }
    }
}

impl Clone for Metadata {
    fn clone(&self) -> (copy: Metadata)
        ensures
            copy@ == self@,
    {
        Metadata {
            id: self.id.clone(),
            schema_string: self.schema_string.clone(),
            partition_columns: clone_strings(&self.partition_columns),
            configuration_keys: clone_strings(&self.configuration_keys),
            configuration_values: clone_strings(&self.configuration_values),
            created_time: self.created_time,
        }
    }
}

impl Metadata {
    /// Whether both actions say the same.
    pub fn same(&self, other: &Metadata) -> (same: bool)
        ensures
            same == (self@ == other@),
    {
        let same_time = match (self.created_time, other.created_time) {
            (Some(a), Some(b)) => a == b,
            (None, None) => true,
            _ => false,
        };
        self.id == other.id && self.schema_string == other.schema_string && strings_eq(
            &self.partition_columns,
            &other.partition_columns,
        ) && strings_eq(&self.configuration_keys, &other.configuration_keys) && strings_eq(
            &self.configuration_values,
            &other.configuration_values,
        ) && same_time
    }
}

/// A version checksum: the table state that a CRC file records.
#[derive(Debug, PartialEq)]
pub struct Crc {
    pub version: Version,
    pub metadata: Metadata,
    pub protocol: Protocol,
    pub table_size_bytes: i64,
    pub num_files: i64,
}

/// A table's protocol and metadata at a version, and what follows from them.
#[derive(Debug, PartialEq)]
pub struct TableConfiguration {
    pub metadata: Metadata,
    pub protocol: Protocol,
    pub logical_schema: SchemaRef,
    pub column_mapping_mode: ColumnMappingMode,
    pub is_catalog_managed: bool,
    pub table_root: String,
    pub version: Version,
}

/// A [`TableConfiguration`] as a mathematical value.
pub struct TableConfigurationV {
    pub metadata: MetadataV,
    pub protocol: ProtocolV,
    pub logical_schema: SchemaRef,
    pub column_mapping_mode: ColumnMappingMode,
    pub is_catalog_managed: bool,
    pub table_root: Seq<char>,
    pub version: Version,
}

impl View for TableConfiguration {
    type V = TableConfigurationV;

    open spec fn view(&self) -> TableConfigurationV {
        TableConfigurationV {
            metadata: self.metadata@,
            protocol: self.protocol@,
            logical_schema: self.logical_schema,
            column_mapping_mode: self.column_mapping_mode,
            is_catalog_managed: self.is_catalog_managed,
            table_root: self.table_root@,
            version: self.version,
        }
    }
}

impl Clone for TableConfiguration {
    fn clone(&self) -> (copy: TableConfiguration)
        ensures
            copy@ == self@,
    {
        TableConfiguration {
            metadata: self.metadata.clone(),
            protocol: self.protocol.clone(),
            logical_schema: self.logical_schema.clone(),
            column_mapping_mode: self.column_mapping_mode,
            is_catalog_managed: self.is_catalog_managed,
            table_root: self.table_root.clone(),
            version: self.version,
        }
    }
}

/// A table at one version.
#[derive(Debug, PartialEq)]
pub struct Snapshot {
    pub log_segment: LogSegment,
    pub table_configuration: TableConfiguration,
    /// The newest CRC at or below the version, if one is known.
    pub base_crc: Option<Arc<Crc>>,
    /// Whether the build confirmed that no newer version existed.
    pub built_as_latest: bool,
}

/// A shared snapshot.
pub type SnapshotRef = Arc<Snapshot>;

/// A [`Snapshot`] as a mathematical value.
pub struct SnapshotV {
    pub log_segment: SegmentV,
    pub table_configuration: TableConfigurationV,
    pub base_crc: Option<Arc<Crc>>,
    pub built_as_latest: bool,
}

impl View for Snapshot {
    type V = SnapshotV;

    open spec fn view(&self) -> SnapshotV {
        SnapshotV {
            log_segment: self.log_segment@,
            table_configuration: self.table_configuration@,
            base_crc: self.base_crc,
            built_as_latest: self.built_as_latest,
        }
    }
}

/// Copies an optional CRC handle.
pub fn clone_opt_crc(crc: &Option<Arc<Crc>>) -> (copy: Option<Arc<Crc>>)
    ensures
        copy == *crc,
{
    match crc {
        Some(c) => Some(c.clone()),
        None => None,
    }
}

impl Snapshot {
    /// A snapshot from its parts.
    pub fn new_with_crc(
        log_segment: LogSegment,
        table_configuration: TableConfiguration,
        base_crc: Option<Arc<Crc>>,
        built_as_latest: bool,
    ) -> (snapshot: Snapshot)
        ensures
            snapshot == (Snapshot { log_segment, table_configuration, base_crc, built_as_latest }),
    {
        Snapshot { log_segment, table_configuration, base_crc, built_as_latest }
    }

    /// The table version of the snapshot.
    pub fn version(&self) -> (version: Version)
        ensures
            version == self.table_configuration.version,
    {
        self.table_configuration.version
    }

    /// Whether the build confirmed that no newer version existed.
    pub fn is_built_as_latest(&self) -> (latest: bool)
        ensures
            latest == self.built_as_latest,
    {
        self.built_as_latest
    }

    /// The table's root location.
    pub fn table_root(&self) -> (root: &String)
        ensures
            *root == self.table_configuration.table_root,
    {
        &self.table_configuration.table_root
    }

    /// The table's schema.
    pub fn schema(&self) -> (schema: SchemaRef)
        ensures
            schema == self.table_configuration.logical_schema,
    {
        self.table_configuration.logical_schema.clone()
    }
}

/// How far an older CRC may be brought forward by replaying commits.
#[derive(Debug, Clone, Copy, PartialEq, Eq, Structural)]
pub enum IncrementalReplay {
    Disabled,
    /// At most this many commits.
    UpToCommits(u64),
    Unlimited,
}

/// What loading a snapshot asks of an engine: listing the log and reading it.
pub trait SnapshotLoader {
    /// Lists the log files of the given versions, merged with the catalog's log tail.
    fn list_log_files(
        &self,
        log_root: &String,
        log_tail: Vec<ParsedLogPath>,
        start_version: Option<Version>,
        end_version: Option<Version>,
    ) -> DeltaResult<LogSegmentFiles>;

    /// Builds a snapshot from nothing but a log segment.
    fn load_from_log_segment(
        &self,
        table_root: &String,
        log_segment: LogSegment,
        metric_context: SnapshotLoadMetricContext,
        incremental_replay: IncrementalReplay,
        built_as_latest: bool,
    ) -> DeltaResult<Snapshot>;

    /// The newer of the CRC in memory and the one that the segment has on disk.
    fn pick_latest_base_crc(
        &self,
        log_segment: &LogSegment,
        in_memory: &Option<Arc<Crc>>,
    ) -> Option<Arc<Crc>>;

    /// A CRC at the segment's end version, if the base can be brought forward within the budget.
    fn try_build_crc_within_budget(
        &self,
        log_segment: &LogSegment,
        base_crc: &Option<Arc<Crc>>,
        incremental_replay: IncrementalReplay,
    ) -> DeltaResult<Option<(Arc<Crc>, ProtocolMetadataSource)>>;

    /// The newest metadata and protocol actions of the segment, rooted at a CRC if one is given.
    fn read_protocol_metadata(
        &self,
        log_segment: &LogSegment,
        base_crc: &Option<Arc<Crc>>,
    ) -> DeltaResult<(Option<Metadata>, Option<Protocol>, ProtocolMetadataSource)>;

    /// A table configuration at a new version, with new metadata and protocol where given.
    fn table_configuration_from(
        &self,
        existing: &TableConfiguration,
        new_metadata: Option<Metadata>,
        new_protocol: Option<Protocol>,
        new_version: Version,
    ) -> DeltaResult<TableConfiguration>;
}

} // verus!
