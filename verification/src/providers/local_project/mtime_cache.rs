//! A bounded cache of what was read from files, valid as long as a file's
//! modification time and size stay the same.
use crate::providers::local_project::fifo;
use crate::providers::local_project::fifo::{FifoMap, Kept};
use vstd::prelude::*;

verus! {

/// A point in time, as seconds and nanoseconds.
#[derive(Debug, Clone, Copy, PartialEq, Eq, Structural)]
pub struct FileTime {
    pub secs: i64,
    pub nanos: u32,
}

/// What is known of a file without reading it.
#[derive(Debug, Clone, Copy, PartialEq, Eq, Structural)]
pub struct FileMeta {
    /// `None` where the file system does not say.
    pub mtime: Option<FileTime>,
    pub size: u64,
}

/// What was read from a file, and how the file was then.
#[derive(Debug)]
pub struct ReadValue<T> {
    pub mtime: FileTime,
    pub size: u64,
    pub value: T,
}

/// What was read from recent files.
#[derive(Debug)]
pub struct MtimeCache<T> {
    files: FifoMap<ReadValue<T>>,
}

/// Whether a kept value answers for the file as it now is. A file without a
/// known modification time is never answered for.
pub open spec fn is_hit<T>(s: Seq<Kept<ReadValue<T>>>, path: Seq<char>, meta: FileMeta) -> bool {
    fifo::kept_for(s, path) matches Some(v) && meta.mtime == Some(v.mtime) && meta.size == v.size
}

/// What was stored answers for its file while the file stays as it is.
pub proof fn law_stored_is_hit<T>(s: Seq<Kept<ReadValue<T>>>, e: Kept<ReadValue<T>>)
    requires
        fifo::bounded(s),
    ensures
        is_hit(
            fifo::stored(s, e),
            e.path@,
            FileMeta { mtime: Some(e.value.mtime), size: e.value.size },
        ),
{
    fifo::law_stored(s, e);
}

/// Without a modification time nothing answers.
pub proof fn law_no_mtime_no_hit<T>(s: Seq<Kept<ReadValue<T>>>, path: Seq<char>, size: u64)
    ensures
        !is_hit(s, path, FileMeta { mtime: None, size }),
{
}

impl<T> MtimeCache<T> {
    /// The entries, the oldest first.
    pub closed spec fn items(&self) -> Seq<Kept<ReadValue<T>>> {
        self.files.items()
    }

    /// Each file once, and no more entries than allowed.
    pub open spec fn wf(&self) -> bool {
        fifo::bounded(self.items())
    }

    /// A cache without entries.
    pub fn new() -> (r: MtimeCache<T>)
        ensures
            r.wf(),
            r.items() == Seq::<Kept<ReadValue<T>>>::empty(),
    {
        MtimeCache { files: FifoMap::new() }
    }

    /// The number of entries.
    pub fn len(&self) -> (r: usize)
        ensures
            r == self.items().len(),
    {
        self.files.len()
    }
}

impl<T: Clone> MtimeCache<T> {
    /// What was read from a file: the kept value while the file is unchanged,
    /// and otherwise what `extract` makes of its bytes, which is then kept.
    /// `None` where the file cannot be looked at or read.
    pub fn get_or_insert_with<R: FnOnce() -> Option<Vec<u8>>, F: FnOnce(&Vec<u8>) -> T>(
        &mut self,
        path: &str,
        metadata: Option<FileMeta>,
        read: R,
        extract: F,
    ) -> (r: Option<T>)
        requires
            old(self).wf(),
            call_requires(read, ()),
            forall|b: &Vec<u8>| #[trigger] call_requires(extract, (b,)),
        ensures
            final(self).wf(),
            match metadata {
                None => r is None && *final(self) == *old(self),
                Some(meta) => if is_hit(old(self).items(), path@, meta) {
                    &&& *final(self) == *old(self)
                    &&& r matches Some(v)
                    &&& cloned(fifo::kept_for(old(self).items(), path@)->Some_0.value, v)
                } else {
                    exists|got: Option<Vec<u8>>| #[trigger]
                        call_ensures(read, (), got) && match got {
                            None => r is None && *final(self) == *old(self),
                            Some(bytes) => {
                                &&& r matches Some(v)
                                &&& call_ensures(extract, (&bytes,), v)
                                &&& match meta.mtime {
                                    None => *final(self) == *old(self),
                                    Some(t) => exists|e: Kept<ReadValue<T>>| #[trigger]
                                        fifo::stored(old(self).items(), e) == final(self).items()
                                            && e.path@ == path@ && e.value.mtime == t
                                            && e.value.size == meta.size && cloned(
                                            v,
                                            e.value.value,
                                        ),
                                }
                            },
                        }
                },
            },
    {
        let meta = match metadata {
            Some(m) => m,
            None => {
                return None;
            },
        };
        if let Some(kept) = self.files.get(path) {
            if let Some(t) = meta.mtime {
                if kept.mtime == t && kept.size == meta.size {
                    return Some(kept.value.clone());
                }
            }
        }
        let got = read();
        let ghost g = got;
        assert(call_ensures(read, (), g));
        let bytes = match got {
            Some(b) => b,
            None => {
                return None;
            },
        };
        let value = extract(&bytes);
        if let Some(t) = meta.mtime {
            self.files.store(
                path,
                ReadValue { mtime: t, size: meta.size, value: value.clone() },
            );
        }
        Some(value)
    }
}

} // verus!
