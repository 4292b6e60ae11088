use vstd::prelude::*;

verus! {

/// Identifier of a file opened on the daemon; zero means "no handle".
pub type FileHandle = u32;

/// A wall-clock instant as seconds and nanoseconds since the Unix epoch.
#[derive(Clone, Copy, Debug, PartialEq, Eq, Structural)]
pub struct Timestamp {
    pub secs: u64,
    pub nanos: u32,
}

impl Timestamp {
    /// The epoch itself, used when the device cannot report a time.
    pub fn epoch() -> (r: Timestamp)
        ensures
            r.secs == 0 && r.nanos == 0,
    {
        Timestamp { secs: 0, nanos: 0 }
    }
}

/// A file as the daemon reports it.
#[derive(Clone, Debug)]
pub struct FileInfo {
    pub creation_time: Timestamp,
    pub last_modified: Timestamp,
    pub last_accessed: Timestamp,
    pub name: String,
    pub size: u64,
    pub mode: u32,
    pub ino: u64,
}

/// The mathematical value of a [`FileInfo`].
pub struct FileInfoView {
    pub creation_time: Timestamp,
    pub last_modified: Timestamp,
    pub last_accessed: Timestamp,
    pub name: Seq<char>,
    pub size: u64,
    pub mode: u32,
    pub ino: u64,
}

impl View for FileInfo {
    type V = FileInfoView;

    open spec fn view(&self) -> FileInfoView {
        FileInfoView {
            creation_time: self.creation_time,
            last_modified: self.last_modified,
            last_accessed: self.last_accessed,
            name: self.name@,
            size: self.size,
            mode: self.mode,
            ino: self.ino,
        }
    }
}

/// The views of a list of files.
pub open spec fn files_view(v: Seq<FileInfo>) -> Seq<FileInfoView> {
    v.map_values(|f: FileInfo| f@)
}

/// Takes a time reported by the device, or the epoch where it could not be read.
pub fn unwrap_or_epoch<E>(result: Result<Timestamp, E>) -> (r: Timestamp)
    ensures
        r == (match result {
            Ok(t) => t,
            Err(_) => Timestamp { secs: 0, nanos: 0 },
        }),
{
    match result {
        Ok(time) => time,
        Err(_) => Timestamp::epoch(),
    }
}

} // verus!
