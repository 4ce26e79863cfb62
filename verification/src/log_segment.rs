//! The log files that make up a table version.

use vstd::prelude::*;

use crate::error::{DeltaResult, Error, ErrorV};
use crate::schema::{clone_opt_schema, SchemaRef};
use crate::text::{decimal, decimal_text};

verus! {

/// A table version.
pub type Version = u64;

/// What kind of log file a path names.
#[derive(Debug, Clone, Copy, PartialEq, Eq, Structural)]
pub enum LogPathFileType {
    Commit,
    StagedCommit,
    SinglePartCheckpoint,
    UuidCheckpoint,
    MultiPartCheckpoint { part_num: u32, num_parts: u32 },
    /// A compaction of the commits from the file's version up to `hi`.
    CompactedCommit { hi: Version },
    Crc,
    Unknown,
}

/// A log file with the version that its name states.
#[derive(Debug, PartialEq)]
pub struct ParsedLogPath {
    pub location: String,
    pub version: Version,
    pub file_type: LogPathFileType,
}

impl Clone for ParsedLogPath {
    fn clone(&self) -> (copy: ParsedLogPath)
        ensures
            copy == *self,
    {
        ParsedLogPath {
            location: self.location.clone(),
            version: self.version,
            file_type: self.file_type,
        }
    }
}

/// Copies an optional log path.
pub fn clone_opt_path(path: &Option<ParsedLogPath>) -> (copy: Option<ParsedLogPath>)
    ensures
        copy == *path,
{
    match path {
        Some(p) => Some(p.clone()),
        None => None,
    }
}

/// The files found by listing a stretch of the log.
#[derive(Debug, PartialEq)]
pub struct LogSegmentFiles {
    /// Commits in ascending version order.
    pub ascending_commit_files: Vec<ParsedLogPath>,
    /// Compacted commits in ascending order of their first version.
    pub ascending_compaction_files: Vec<ParsedLogPath>,
    /// The parts of the newest complete checkpoint, all of one version.
    pub checkpoint_parts: Vec<ParsedLogPath>,
    /// The newest CRC file.
    pub latest_crc_file: Option<ParsedLogPath>,
    /// The newest commit, whether or not a checkpoint covers it.
    pub latest_commit_file: Option<ParsedLogPath>,
    /// The newest version that was published to the log directory.
    pub max_published_version: Option<Version>,
}

/// [`LogSegmentFiles`] as a mathematical value.
#[verifier::ext_equal]
pub struct FilesV {
    pub commits: Seq<ParsedLogPath>,
    pub compactions: Seq<ParsedLogPath>,
    pub checkpoint_parts: Seq<ParsedLogPath>,
    pub latest_crc_file: Option<ParsedLogPath>,
    pub latest_commit_file: Option<ParsedLogPath>,
    pub max_published_version: Option<Version>,
}

impl View for LogSegmentFiles {
    type V = FilesV;

    open spec fn view(&self) -> FilesV {
        FilesV {
            commits: self.ascending_commit_files@,
            compactions: self.ascending_compaction_files@,
            checkpoint_parts: self.checkpoint_parts@,
            latest_crc_file: self.latest_crc_file,
            latest_commit_file: self.latest_commit_file,
            max_published_version: self.max_published_version,
        }
    }
}

/// What `_last_checkpoint` said of the checkpoint.
#[derive(Debug, PartialEq)]
pub struct LastCheckpointHint {
    pub version: Version,
    pub checkpoint_schema: Option<SchemaRef>,
}

/// Copies an optional checkpoint hint.
pub fn clone_opt_hint(hint: &Option<LastCheckpointHint>) -> (copy: Option<LastCheckpointHint>)
    ensures
        copy == *hint,
{
    match hint {
        Some(h) => Some(
            LastCheckpointHint {
                version: h.version,
                checkpoint_schema: clone_opt_schema(&h.checkpoint_schema),
            },
        ),
        None => None,
    }
}

/// The files that make up a table version: a checkpoint, if there is one, and every commit after
/// it.
#[derive(Debug, PartialEq)]
pub struct LogSegment {
    pub end_version: Version,
    pub checkpoint_version: Option<Version>,
    pub log_root: String,
    pub listed: LogSegmentFiles,
    pub last_checkpoint_metadata: Option<LastCheckpointHint>,
}

/// A [`LogSegment`] as a mathematical value.
#[verifier::ext_equal]
pub struct SegmentV {
    pub end_version: Version,
    pub checkpoint_version: Option<Version>,
    pub log_root: Seq<char>,
    pub listed: FilesV,
    pub hint: Option<LastCheckpointHint>,
}

impl View for LogSegment {
    type V = SegmentV;

    open spec fn view(&self) -> SegmentV {
        SegmentV {
            end_version: self.end_version,
            checkpoint_version: self.checkpoint_version,
            log_root: self.log_root@,
            listed: self.listed@,
            hint: self.last_checkpoint_metadata,
        }
    }
}

/// Copies a list of log paths.
pub fn clone_paths(paths: &Vec<ParsedLogPath>) -> (copy: Vec<ParsedLogPath>)
    ensures
        copy@ == paths@,
{
    let mut copy: Vec<ParsedLogPath> = Vec::new();
    for i in 0..paths.len()
        invariant
            copy@ == paths@.take(i as int),
    {
        copy.push(paths[i].clone());
        assert(copy@ =~= paths@.take(i + 1));
    }
    assert(copy@ =~= paths@);
    copy
}

impl Clone for LogSegmentFiles {
    fn clone(&self) -> (copy: LogSegmentFiles)
        ensures
            copy@ == self@,
    {
        LogSegmentFiles {
            ascending_commit_files: clone_paths(&self.ascending_commit_files),
            ascending_compaction_files: clone_paths(&self.ascending_compaction_files),
            checkpoint_parts: clone_paths(&self.checkpoint_parts),
            latest_crc_file: clone_opt_path(&self.latest_crc_file),
            latest_commit_file: clone_opt_path(&self.latest_commit_file),
            max_published_version: self.max_published_version,
        }
    }
}

impl Clone for LogSegment {
    fn clone(&self) -> (copy: LogSegment)
        ensures
            copy@ == self@,
    {
        LogSegment {
            end_version: self.end_version,
            checkpoint_version: self.checkpoint_version,
            log_root: self.log_root.clone(),
            listed: self.listed.clone(),
            last_checkpoint_metadata: clone_opt_hint(&self.last_checkpoint_metadata),
        }
    }
}

/// Whether each commit directly follows the one before it.
pub open spec fn contiguous(commits: Seq<ParsedLogPath>) -> bool {
    forall|i: int|
        0 <= i < commits.len() - 1 ==> (#[trigger] commits[i]).version + 1 == commits[i
            + 1].version
}

impl FilesV {
    /// The version of the checkpoint.
    pub open spec fn checkpoint_version(self) -> Option<Version> {
        if self.checkpoint_parts.len() > 0 {
            Some(self.checkpoint_parts[0].version)
        } else {
            None
        }
    }

    /// The newest version that the files reach.
    pub open spec fn effective_version(self) -> Option<Version> {
        if self.commits.len() > 0 {
            Some(self.commits.last().version)
        } else {
            self.checkpoint_version()
        }
    }

    /// What keeps these files from forming a segment that ends at `end_version`, if given.
    pub open spec fn defect(self, end_version: Option<Version>) -> Option<ErrorV> {
        if !contiguous(self.commits) {
            Some(ErrorV::Generic("Expected ordered contiguous commit files"@))
        } else if self.checkpoint_version() is Some && self.commits.len() > 0
            && self.checkpoint_version()->0 + 1 != self.commits[0].version {
            Some(
                ErrorV::InvalidCheckpoint(
                    "Gap between checkpoint version "@ + decimal(
                        self.checkpoint_version()->0 as nat,
                    ) + " and next commit "@ + decimal(self.commits[0].version as nat),
                ),
            )
        } else if self.checkpoint_version() is Some && self.latest_crc_file is Some
            && self.latest_crc_file->0.version < self.checkpoint_version()->0 {
            Some(
                ErrorV::InternalError(
                    "CRC version "@ + decimal(self.latest_crc_file->0.version as nat)
                        + " is older than checkpoint version "@ + decimal(
                        self.checkpoint_version()->0 as nat,
                    ),
                ),
            )
        } else if self.effective_version() is None {
            Some(ErrorV::Generic("No files in log segment"@))
        } else if end_version is Some && self.effective_version()->0 != end_version->0 {
            Some(
                ErrorV::Generic(
                    "LogSegment end version "@ + decimal(self.effective_version()->0 as nat)
                        + " not the same as the specified end version "@ + decimal(
                        end_version->0 as nat,
                    ),
                ),
            )
        } else {
            None
        }
    }
}

/// The segment that the listed files form; an error when they form none.
pub open spec fn segment_of(
    listed: FilesV,
    log_root: Seq<char>,
    end_version: Option<Version>,
    hint: Option<LastCheckpointHint>,
) -> Result<SegmentV, ErrorV> {
    match listed.defect(end_version) {
        Some(e) => Err(e),
        None => Ok(
            SegmentV {
                end_version: listed.effective_version()->0,
                checkpoint_version: listed.checkpoint_version(),
                log_root,
                listed,
                hint,
            },
        ),
    }
}

fn are_contiguous(commits: &Vec<ParsedLogPath>) -> (yes: bool)
    ensures
        yes == contiguous(commits@),
{
    let mut i: usize = 1;
    while i < commits.len()
        invariant
            1 <= i,
            i <= commits@.len() || i == 1,
            forall|j: int|
                0 <= j < i - 1 ==> (#[trigger] commits@[j]).version + 1 == commits@[j + 1].version,
        decreases commits@.len() - i,
    {
        let (before, after) = (commits[i - 1].version, commits[i].version);
        if before == u64::MAX || before + 1 != after {
            assert(commits@[i - 1].version + 1 != commits@[(i - 1) + 1].version);
            return false;
        }
        i += 1;
    }
    true
}

impl LogSegment {
    /// Forms a segment from listed files. The commits must be contiguous, follow directly on the
    /// checkpoint if there is one, and end at `end_version` if it is given; a CRC file must not be
    /// older than the checkpoint.
    pub fn try_new(
        listed: LogSegmentFiles,
        log_root: String,
        end_version: Option<Version>,
        last_checkpoint_metadata: Option<LastCheckpointHint>,
    ) -> (segment: DeltaResult<LogSegment>)
        ensures
            match segment {
                Ok(s) => segment_of(listed@, log_root@, end_version, last_checkpoint_metadata)
                    == Ok::<_, ErrorV>(s@),
                Err(e) => segment_of(listed@, log_root@, end_version, last_checkpoint_metadata)
                    == Err::<SegmentV, _>(e@),
            },
    {
        if !are_contiguous(&listed.ascending_commit_files) {
            return Err(Error::generic("Expected ordered contiguous commit files"));
        }
        let checkpoint_version: Option<Version> = if listed.checkpoint_parts.len() > 0 {
            Some(listed.checkpoint_parts[0].version)
        } else {
            None
        };
        let has_commits = listed.ascending_commit_files.len() > 0;
        if let Some(checkpoint) = checkpoint_version {
            // There must be no gap between a checkpoint and the first commit.
            if has_commits {
                let first: Version = listed.ascending_commit_files[0].version;
                if checkpoint == u64::MAX || checkpoint + 1 != first {
                    return Err(
                        Error::InvalidCheckpoint(
                            "Gap between checkpoint version ".to_string().concat(
                                decimal_text(checkpoint).as_str(),
                            ).concat(" and next commit ").concat(decimal_text(first).as_str()),
                        ),
                    );
                }
            }
            if let Some(crc) = &listed.latest_crc_file {
                if crc.version < checkpoint {
                    return Err(
                        Error::InternalError(
                            "CRC version ".to_string().concat(
                                decimal_text(crc.version).as_str(),
                            ).concat(" is older than checkpoint version ").concat(
                                decimal_text(checkpoint).as_str(),
                            ),
                        ),
                    );
                }
            }
        }
        let effective: Option<Version> = if has_commits {
            Some(listed.ascending_commit_files[listed.ascending_commit_files.len() - 1].version)
        } else {
            checkpoint_version
        };
        let effective_version = match effective {
            Some(v) => v,
            None => return Err(Error::generic("No files in log segment")),
        };
        if let Some(end) = end_version {
            if effective_version != end {
                return Err(
                    Error::Generic(
                        "LogSegment end version ".to_string().concat(
                            decimal_text(effective_version).as_str(),
                        ).concat(" not the same as the specified end version ").concat(
                            decimal_text(end).as_str(),
                        ),
                    ),
                );
            }
        }
        Ok(
            LogSegment {
                end_version: effective_version,
                checkpoint_version,
                log_root,
                listed,
                last_checkpoint_metadata,
            },
        )
    }

    /// The part of the segment after `version`: its commits and compactions that start later, and
    /// no checkpoint.
    pub fn segment_after_version(&self, version: Version) -> (segment: LogSegment)
        ensures
            segment@ == segment_after(self@, version),
    {
        LogSegment {
            end_version: self.end_version,
            checkpoint_version: None,
            log_root: self.log_root.clone(),
            listed: LogSegmentFiles {
                ascending_commit_files: files_after(&self.listed.ascending_commit_files, version),
                ascending_compaction_files: files_after(
                    &self.listed.ascending_compaction_files,
                    version,
                ),
                checkpoint_parts: Vec::new(),
                latest_crc_file: None,
                latest_commit_file: clone_opt_path(&self.listed.latest_commit_file),
                max_published_version: None,
            },
            last_checkpoint_metadata: None,
        }
    }
}

/// The files of a version greater than `version`, in order.
pub open spec fn after(files: Seq<ParsedLogPath>, version: Version) -> Seq<ParsedLogPath> {
    files.filter(|f: ParsedLogPath| f.version > version)
}

/// The part of a segment after `version`.
pub open spec fn segment_after(segment: SegmentV, version: Version) -> SegmentV {
    SegmentV {
        end_version: segment.end_version,
        checkpoint_version: None,
        log_root: segment.log_root,
        listed: FilesV {
            commits: after(segment.listed.commits, version),
            compactions: after(segment.listed.compactions, version),
            checkpoint_parts: seq![],
            latest_crc_file: None,
            latest_commit_file: segment.listed.latest_commit_file,
            max_published_version: None,
        },
        hint: None,
    }
}

/// The files of a version greater than `version`, in order.
pub fn files_after(files: &Vec<ParsedLogPath>, version: Version) -> (kept: Vec<ParsedLogPath>)
    ensures
        kept@ == after(files@, version),
{
    let mut kept: Vec<ParsedLogPath> = Vec::new();
    let ghost newer = |f: ParsedLogPath| f.version > version;
    proof {
        reveal(Seq::filter);
    }
    assert(files@.take(0) =~= seq![]);
    for i in 0..files.len()
        invariant
            newer == (|f: ParsedLogPath| f.version > version),
            kept@ == files@.take(i as int).filter(newer),
    {
        proof {
            reveal(Seq::filter);
            assert(files@.take(i + 1).drop_last() =~= files@.take(i as int));
            assert(files@.take(i + 1).last() == files@[i as int]);
        }
        if files[i].version > version {
            kept.push(files[i].clone());
        }
    }
    assert(files@.take(files@.len() as int) =~= files@);
    kept
}

} // verus!
