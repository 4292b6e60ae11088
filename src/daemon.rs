//! The on-device daemon's decisions: which handle an open gets, how much a
//! read returns, and how local failures are reported.
use vstd::prelude::*;
use std::collections::HashMap;
use rand::Rng;
use crate::responses::{Error, FreeSpace};

verus! {

broadcast use vstd::std_specs::hash::group_hash_axioms;

/// The daemon's error for a local failure with this OS error number.
pub fn to_response_error(raw_os_error: Option<i32>) -> (r: Error)
    ensures
        r == (match raw_os_error {
            Some(2i32) => Error::FileNotFound,
            Some(13i32) => Error::PermissionDenied,
            _ => Error::Other,
        }),
{
    match raw_os_error {
        Some(os_err) => {
            if os_err == 2 {
                Error::FileNotFound
            } else if os_err == 13 {
                Error::PermissionDenied
            } else {
                Error::Other
            }
        },
        None => Error::Other,
    }
}

/// How many bytes a read of `len` bytes at `offset` finds in a file of
/// `file_length` bytes.
pub open spec fn readable(file_length: u64, offset: u64, len: u64) -> int {
    if offset >= file_length {
        0
    } else if file_length - offset < len {
        file_length - offset
    } else {
        len as int
    }
}

/// The length that a read response announces; the answer carries it as a
/// `u32`, so a larger one is cut to `u32::MAX`.
pub fn length_readable(file_length: u64, offset: u64, len: u64) -> (r: u32)
    ensures
        r == (if readable(file_length, offset, len) <= u32::MAX {
            readable(file_length, offset, len)
        } else {
            u32::MAX as int
        }),
{
    let n: u64 = if offset >= file_length {
        0
    } else if file_length - offset < len {
        file_length - offset
    } else {
        len
    };
    if n <= u32::MAX as u64 {
        n as u32
    } else {
        u32::MAX
    }
}

/// After a file is cut or grown to end right after `len` bytes written at
/// `offset`, a read of `len` bytes there gets them all.
pub proof fn lemma_read_back_after_write(offset: u64, len: u64)
    requires
        offset + len <= u64::MAX,
    ensures
        readable((offset + len) as u64, offset, len) == len,
{
}

/// Relies on `rand::Rng::gen_range` over the thread's generator: a value in
/// `1..u32::MAX`.
#[verifier::external_body]
fn random_handle() -> (r: u32)
    ensures
        1 <= r < u32::MAX,
{
    rand::thread_rng().gen_range(1..u32::MAX)
}

/// How many random handles an open tries before it gives up.
pub const OPEN_ATTEMPTS: u32 = 64;

/// The files that are open on the daemon, by handle. Handle zero is never
/// used.
pub struct HandleTable<F> {
    files: HashMap<u32, F>,
}

impl<F> HandleTable<F> {
    pub closed spec fn view(&self) -> Map<u32, F> {
        self.files@
    }

    pub open spec fn well_formed(&self) -> bool {
        !self.view().contains_key(0)
    }

    pub fn new() -> (r: Self)
        ensures
            r.well_formed(),
            r.view() == Map::<u32, F>::empty(),
    {
        HandleTable { files: HashMap::new() }
    }

    /// Registers `file` under `candidate` if that is a free, nonzero handle;
    /// otherwise hands the file back.
    pub fn insert_with(&mut self, candidate: u32, file: F) -> (r: Result<u32, F>)
        requires
            old(self).well_formed(),
        ensures
            final(self).well_formed(),
            candidate != 0 && !old(self).view().contains_key(candidate) ==> r == Ok::<u32, F>(
                candidate,
            ) && final(self).view() == old(self).view().insert(candidate, file),
            !(candidate != 0 && !old(self).view().contains_key(candidate)) ==> r == Err::<u32, F>(
                file,
            ) && final(self).view() == old(self).view(),
    {
        if candidate == 0 || self.files.contains_key(&candidate) {
            return Err(file);
        }
        self.files.insert(candidate, file);
        Ok(candidate)
    }

    /// Registers `file` under a random handle that no open file has. When the
    /// random tries all hit handles in use, the lowest free handle is taken;
    /// the file is handed back only when every nonzero handle is in use.
    pub fn open(&mut self, file: F) -> (r: Result<u32, F>)
        requires
            old(self).well_formed(),
        ensures
            final(self).well_formed(),
            (exists|h: u32| h != 0 && !old(self).view().contains_key(h)) ==> r is Ok,
            match r {
                Ok(h) => h != 0 && !old(self).view().contains_key(h) && final(self).view() == old(
                    self,
                ).view().insert(h, file),
                Err(f) => f == file && final(self).view() == old(self).view(),
            },
    {
        let mut pending = file;
        let mut attempt: u32 = 0;
        while attempt < OPEN_ATTEMPTS
            invariant
                self.well_formed(),
                self.view() == old(self).view(),
                pending == file,
            decreases OPEN_ATTEMPTS - attempt,
        {
            let candidate = random_handle();
            match self.insert_with(candidate, pending) {
                Ok(h) => return Ok(h),
                Err(f) => pending = f,
            }
            attempt = attempt + 1;
        }
        let mut candidate: u32 = 1;
        while candidate < u32::MAX
            invariant
                1 <= candidate,
                self.well_formed(),
                self.view() == old(self).view(),
                pending == file,
                forall|j: u32| 1 <= j < candidate ==> #[trigger] self.view().contains_key(j),
            decreases u32::MAX - candidate,
        {
            match self.insert_with(candidate, pending) {
                Ok(h) => return Ok(h),
                Err(f) => pending = f,
            }
            candidate = candidate + 1;
        }
        match self.insert_with(u32::MAX, pending) {
            Ok(h) => Ok(h),
            Err(f) => {
                assert forall|h: u32| h != 0 implies #[trigger] old(self).view().contains_key(h) by {
                    if h < u32::MAX {
                        assert(1 <= h < candidate);
                    }
                }
                Err(f)
            },
        }
    }

    /// Closes `handle`: its file leaves the table.
    pub fn close(&mut self, handle: u32) -> (r: Result<F, Error>)
        requires
            old(self).well_formed(),
        ensures
            final(self).well_formed(),
            old(self).view().contains_key(handle) ==> r == Ok::<F, Error>(old(self).view()[handle])
                && final(self).view() == old(self).view().remove(handle),
            !old(self).view().contains_key(handle) ==> r == Err::<F, Error>(Error::NoSuchHandle)
                && final(self).view() == old(self).view(),
    {
        match self.files.remove(&handle) {
            Some(f) => Ok(f),
            None => Err(Error::NoSuchHandle),
        }
    }

    /// The file open under `handle`.
    pub fn get(&self, handle: u32) -> (r: Result<&F, Error>)
        ensures
            self.view().contains_key(handle) ==> (r matches Ok(f) && *f == self.view()[handle]),
            !self.view().contains_key(handle) ==> (r matches Err(e) && e == Error::NoSuchHandle),
    {
        match self.files.get(&handle) {
            Some(f) => Ok(f),
            None => Err(Error::NoSuchHandle),
        }
    }
}

/// A disk of the device as the OS lists it.
pub struct DiskInfo {
    pub mount_point: String,
    pub total_space: u64,
    pub available_space: u64,
}

pub open spec fn shared_storage() -> Seq<char> {
    "/storage/emulated"@
}

/// The space of the first disk mounted at the shared storage root.
pub fn shared_storage_space(disks: &Vec<DiskInfo>) -> (r: Result<FreeSpace, Error>)
    ensures
        match r {
            Ok(s) => exists|i: int|
                0 <= i < disks@.len() && (#[trigger] disks@[i]).mount_point@ == shared_storage()
                    && s.total_bytes == disks@[i].total_space && s.free_bytes
                    == disks@[i].available_space && forall|j: int|
                    0 <= j < i ==> (#[trigger] disks@[j]).mount_point@ != shared_storage(),
            Err(e) => e == Error::CouldNotFindDisk && forall|j: int|
                0 <= j < disks@.len() ==> (#[trigger] disks@[j]).mount_point@ != shared_storage(),
        },
{
    let target = "/storage/emulated".to_owned();
    let mut i: usize = 0;
    while i < disks.len()
        invariant
            i <= disks@.len(),
            target@ == shared_storage(),
            forall|j: int| 0 <= j < i ==> (#[trigger] disks@[j]).mount_point@ != shared_storage(),
        decreases disks.len() - i,
    {
        let disk = &disks[i];
        if disk.mount_point == target {
            return Ok(FreeSpace { total_bytes: disk.total_space, free_bytes: disk.available_space });
        }
        i = i + 1;
    }
    Err(Error::CouldNotFindDisk)
}

} // verus!
