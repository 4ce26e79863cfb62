//! [`MeteredStorageHandler`] wraps any [`StorageHandler`] so that its operations are reported.

use std::time::Instant;

use vstd::prelude::*;
use vstd::std_specs::iter::IteratorSpec;

use super::events::{
    added, MetricEvent, StorageCopyCompleted, StorageListCompleted, StorageReadCompleted,
};
use crate::error::DeltaResult;
use crate::parallel::parallel_scan_metadata::FileMeta;
use crate::scan::metrics::bump;
use crate::time::nanos_since;

verus! {

/// A part of a file: the whole of it, or the bytes from one position up to another.
pub struct FileSlice {
    pub location: String,
    pub range: Option<(u64, u64)>,
}

/// A connector's storage.
pub trait StorageHandler {
    /// A stream of listed files.
    type Listing;

    /// A stream of what was read.
    type Reads;

    /// Lists the files from `path` on, in lexicographic order.
    fn list_from(&self, path: &String) -> DeltaResult<Self::Listing>;

    /// Reads parts of files.
    fn read_files(&self, files: Vec<FileSlice>) -> DeltaResult<Self::Reads>;

    /// Copies a file unless the destination exists.
    fn copy_atomic(&self, src: &String, dest: &String) -> DeltaResult<()>;

    /// Writes a file.
    fn put(&self, path: &String, data: Vec<u8>, overwrite: bool) -> DeltaResult<()>;

    /// What is known of a file.
    fn head(&self, path: &String) -> DeltaResult<FileMeta>;

    /// Deletes a file.
    fn delete(&self, path: &String) -> DeltaResult<()>;
}

/// Counts what passes through a stream, and reports it at the end.
pub struct MetricsIterator<I> {
    pub inner: I,
    pub start: Instant,
    pub num_files: u64,
    pub bytes_read: u64,
    pub completed: bool,
}

impl<I> MetricsIterator<I> {
    /// Starts counting.
    pub fn new(inner: I, start: Instant) -> (iterator: Self)
        ensures
            iterator.inner == inner,
            iterator.num_files == 0,
            iterator.bytes_read == 0,
            !iterator.completed,
    {
        MetricsIterator { inner, start, num_files: 0, bytes_read: 0, completed: false }
    }

    /// The counts after one more file.
    fn count(&mut self, bytes: u64)
        ensures
            *final(self) == (MetricsIterator {
                num_files: bump(old(self).num_files, 1),
                bytes_read: bump(old(self).bytes_read, bytes as int),
                ..*old(self)
            }),
    {
        self.num_files = ((self.num_files as u128 + 1) % 0x1_0000_0000_0000_0000) as u64;
        self.bytes_read = ((self.bytes_read as u128 + bytes as u128) % 0x1_0000_0000_0000_0000)
            as u64;
    }
}

/// Whether the end of a listing of so many files was reported, and nothing else.
pub open spec fn listing_reported(
    before: Seq<MetricEvent>,
    after: Seq<MetricEvent>,
    num_files: u64,
) -> bool {
    exists|duration_ns: u64| #[trigger]
        added(
            before,
            after,
            MetricEvent::StorageListCompleted(StorageListCompleted { num_files, duration_ns }),
        )
}

/// Whether the end of reading so many files and bytes was reported, and nothing else.
pub open spec fn reads_reported(
    before: Seq<MetricEvent>,
    after: Seq<MetricEvent>,
    num_files: u64,
    bytes_read: u64,
) -> bool {
    exists|duration_ns: u64| #[trigger]
        added(
            before,
            after,
            MetricEvent::StorageReadCompleted(
                StorageReadCompleted { num_files, bytes_read, duration_ns },
            ),
        )
}

impl<I: Iterator<Item = DeltaResult<FileMeta>>> MetricsIterator<I> {
    /// The next listed file. Files are counted, errors are not; the end is reported, once.
    pub fn next_file(&mut self, events: &mut Vec<MetricEvent>) -> (item: Option<
        DeltaResult<FileMeta>,
    >)
        ensures
            old(self).inner.obeys_prophetic_iter_laws() ==> item == (if old(
                self,
            ).inner.remaining().len() > 0 {
                Some(old(self).inner.remaining()[0])
            } else {
                None
            }),
            old(self).inner.obeys_prophetic_iter_laws() ==> final(self).inner.remaining() == (if old(
                self,
            ).inner.remaining().len() > 0 {
                old(self).inner.remaining().drop_first()
            } else {
                old(self).inner.remaining()
            }),
            final(self).inner.obeys_prophetic_iter_laws()
                == old(self).inner.obeys_prophetic_iter_laws(),
            match item {
                Some(Ok(_)) => final(self).num_files == bump(old(self).num_files, 1)
                    && final(self).completed == old(self).completed && final(events)@ == old(
                    events,
                )@,
                Some(Err(_)) => final(self).num_files == old(self).num_files
                    && final(self).completed == old(self).completed && final(events)@ == old(
                    events,
                )@,
                None => final(self).num_files == old(self).num_files && final(self).completed
                    && if old(self).completed {
                    final(events)@ == old(events)@
                } else {
                    listing_reported(old(events)@, final(events)@, old(self).num_files)
                },
            },
            final(self).bytes_read == old(self).bytes_read,
            final(self).start == old(self).start,
    {
        match self.inner.next() {
            Some(Ok(file)) => {
                self.count(0);
                Some(Ok(file))
            },
            Some(Err(e)) => Some(Err(e)),
            None => {
                if !self.completed {
                    self.completed = true;
                    let duration_ns: u64 = nanos_since(&self.start);
                    events.push(
                        MetricEvent::StorageListCompleted(
                            StorageListCompleted { num_files: self.num_files, duration_ns },
                        ),
                    );
                    assert(added(
                        old(events)@,
                        events@,
                        MetricEvent::StorageListCompleted(
                            StorageListCompleted { num_files: old(self).num_files, duration_ns },
                        ),
                    ));
                }
                None
            },
        }
    }
}

impl<I: Iterator<Item = DeltaResult<Vec<u8>>>> MetricsIterator<I> {
    /// The next part that was read. Parts and their bytes are counted, errors are not; the end is
    /// reported, once.
    pub fn next_data(&mut self, events: &mut Vec<MetricEvent>) -> (item: Option<
        DeltaResult<Vec<u8>>,
    >)
        ensures
            old(self).inner.obeys_prophetic_iter_laws() ==> item == (if old(
                self,
            ).inner.remaining().len() > 0 {
                Some(old(self).inner.remaining()[0])
            } else {
                None
            }),
            old(self).inner.obeys_prophetic_iter_laws() ==> final(self).inner.remaining() == (if old(
                self,
            ).inner.remaining().len() > 0 {
                old(self).inner.remaining().drop_first()
            } else {
                old(self).inner.remaining()
            }),
            final(self).inner.obeys_prophetic_iter_laws()
                == old(self).inner.obeys_prophetic_iter_laws(),
            match item {
                Some(Ok(data)) => final(self).num_files == bump(old(self).num_files, 1)
                    && final(self).bytes_read == bump(old(self).bytes_read, data@.len() as int)
                    && final(self).completed == old(self).completed && final(events)@ == old(
                    events,
                )@,
                Some(Err(_)) => final(self).num_files == old(self).num_files
                    && final(self).bytes_read == old(self).bytes_read && final(self).completed
                    == old(self).completed && final(events)@ == old(events)@,
                None => final(self).num_files == old(self).num_files && final(self).bytes_read
                    == old(self).bytes_read && final(self).completed && if old(self).completed {
                    final(events)@ == old(events)@
                } else {
                    reads_reported(
                        old(events)@,
                        final(events)@,
                        old(self).num_files,
                        old(self).bytes_read,
                    )
                },
            },
            final(self).start == old(self).start,
    {
        match self.inner.next() {
            Some(Ok(data)) => {
                self.count(data.len() as u64);
                Some(Ok(data))
            },
            Some(Err(e)) => Some(Err(e)),
            None => {
                if !self.completed {
                    self.completed = true;
                    let duration_ns: u64 = nanos_since(&self.start);
                    events.push(
                        MetricEvent::StorageReadCompleted(
                            StorageReadCompleted {
                                num_files: self.num_files,
                                bytes_read: self.bytes_read,
                                duration_ns,
                            },
                        ),
                    );
                    assert(added(
                        old(events)@,
                        events@,
                        MetricEvent::StorageReadCompleted(
                            StorageReadCompleted {
                                num_files: old(self).num_files,
                                bytes_read: old(self).bytes_read,
                                duration_ns,
                            },
                        ),
                    ));
                }
                None
            },
        }
    }
}

/// Decorator over an engine-provided [`StorageHandler`] that reports operations that produce
/// metrics, by adding to a list of events. `put`, `head`, and `delete` are pass-through and report
/// nothing. It is no [`StorageHandler`] itself, so it cannot be wrapped again, and operations are
/// reported exactly once.
pub struct MeteredStorageHandler<H: StorageHandler> {
    inner: H,
}

/// Whether `r` is a listing that is counted, of what the wrapped handler listed.
pub open spec fn counted<I>(inner: DeltaResult<I>, r: DeltaResult<MetricsIterator<I>>) -> bool {
    match inner {
        Err(e) => r == Err::<MetricsIterator<I>, _>(e),
        Ok(inner) => r is Ok && r->Ok_0.inner == inner && r->Ok_0.num_files == 0
            && r->Ok_0.bytes_read == 0 && !r->Ok_0.completed,
    }
}

impl<H: StorageHandler> MeteredStorageHandler<H> {
    /// The wrapped handler.
    pub closed spec fn wrapped(&self) -> H {
        self.inner
    }

    /// Wrap `inner`.
    pub fn new(inner: H) -> (handler: Self)
        ensures
            handler.wrapped() == inner,
    {
        MeteredStorageHandler { inner }
    }

    /// Lists the files from `path` on. They are counted as they are taken.
    pub fn list_from(&self, path: &String) -> (r: DeltaResult<MetricsIterator<H::Listing>>)
        ensures
            exists|inner: DeltaResult<H::Listing>| #[trigger]
                call_ensures(H::list_from, (&self.wrapped(), path), inner) && counted(inner, r),
    {
        let start = Instant::now();
        let inner = self.inner.list_from(path);
        let ghost answer = inner;
        let r = match inner {
            Ok(inner) => Ok(MetricsIterator::new(inner, start)),
            Err(e) => Err(e),
        };
        assert(counted(answer, r));
        r
    }

    /// Reads parts of files. They are counted as they are taken.
    pub fn read_files(&self, files: Vec<FileSlice>) -> (r: DeltaResult<MetricsIterator<H::Reads>>)
        ensures
            exists|inner: DeltaResult<H::Reads>| #[trigger]
                call_ensures(H::read_files, (&self.wrapped(), files), inner) && counted(inner, r),
    {
        let start = Instant::now();
        let inner = self.inner.read_files(files);
        let ghost answer = inner;
        let r = match inner {
            Ok(inner) => Ok(MetricsIterator::new(inner, start)),
            Err(e) => Err(e),
        };
        assert(counted(answer, r));
        r
    }

    /// Copies a file unless the destination exists. Reports the copy, whether or not it succeeded.
    pub fn copy_atomic(&self, src: &String, dest: &String, events: &mut Vec<MetricEvent>) -> (r:
        DeltaResult<()>)
        ensures
            call_ensures(H::copy_atomic, (&self.wrapped(), src, dest), r),
            exists|duration_ns: u64| #[trigger]
                added(
                    old(events)@,
                    final(events)@,
                    MetricEvent::StorageCopyCompleted(StorageCopyCompleted { duration_ns }),
                ),
    {
        let start = Instant::now();
        let result = self.inner.copy_atomic(src, dest);
        let duration_ns: u64 = nanos_since(&start);
        events.push(MetricEvent::StorageCopyCompleted(StorageCopyCompleted { duration_ns }));
        assert(added(
            old(events)@,
            events@,
            MetricEvent::StorageCopyCompleted(StorageCopyCompleted { duration_ns }),
        ));
        result
    }

    /// Writes a file.
    pub fn put(&self, path: &String, data: Vec<u8>, overwrite: bool) -> (r: DeltaResult<()>)
        ensures
            call_ensures(H::put, (&self.wrapped(), path, data, overwrite), r),
    {
        self.inner.put(path, data, overwrite)
    }

    /// What is known of a file.
    pub fn head(&self, path: &String) -> (r: DeltaResult<FileMeta>)
        ensures
            call_ensures(H::head, (&self.wrapped(), path), r),
    {
        self.inner.head(path)
    }

    /// Deletes a file.
    pub fn delete(&self, path: &String) -> (r: DeltaResult<()>)
        ensures
            call_ensures(H::delete, (&self.wrapped(), path), r),
    {
        self.inner.delete(path)
    }
}

} // verus!
