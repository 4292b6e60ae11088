use vstd::prelude::*;
use crate::models::{FileInfo, FileInfoView, files_view};

verus! {

/// Total and free bytes of the device's shared storage.
#[derive(Clone, Copy, Debug, PartialEq, Eq, Structural)]
pub struct FreeSpace {
    pub total_bytes: u64,
    pub free_bytes: u64,
}

/// An error that the daemon reports.
#[derive(Clone, Copy, Debug, PartialEq, Eq, Structural)]
pub enum Error {
    FileNotFound,
    NoSuchHandle,
    FileExists,
    PermissionDenied,
    CouldNotFindDisk,
    Other,
}

/// Which payload an `Ok` response carries; it follows from the request.
#[derive(Clone, Copy, Debug, PartialEq, Eq, Structural)]
pub enum PayloadKind {
    /// A directory listing.
    Files,
    /// One file's information.
    Info,
    /// A handle, or the number of bytes that follow a read response.
    Number,
    /// Disk space.
    Space,
    /// Nothing.
    Unit,
}

/// The payload of an `Ok` response.
#[derive(Clone, Debug)]
pub enum Payload {
    Files(Vec<FileInfo>),
    Info(FileInfo),
    Number(u32),
    Space(FreeSpace),
    Unit,
}

pub enum PayloadView {
    Files(Seq<FileInfoView>),
    Info(FileInfoView),
    Number(u32),
    Space(FreeSpace),
    Unit,
}

impl View for Payload {
    type V = PayloadView;

    open spec fn view(&self) -> PayloadView {
        match self {
            Payload::Files(v) => PayloadView::Files(files_view(v@)),
            Payload::Info(f) => PayloadView::Info(f@),
            Payload::Number(n) => PayloadView::Number(*n),
            Payload::Space(s) => PayloadView::Space(*s),
            Payload::Unit => PayloadView::Unit,
        }
    }
}

impl PayloadView {
    pub open spec fn kind(self) -> PayloadKind {
        match self {
            PayloadView::Files(_) => PayloadKind::Files,
            PayloadView::Info(_) => PayloadKind::Info,
            PayloadView::Number(_) => PayloadKind::Number,
            PayloadView::Space(_) => PayloadKind::Space,
            PayloadView::Unit => PayloadKind::Unit,
        }
    }
}

/// A response of the daemon.
pub type Response = Result<Payload, Error>;

/// The mathematical value of a [`Response`].
pub open spec fn response_view(r: Response) -> Result<PayloadView, Error> {
    match r {
        Ok(p) => Ok(p@),
        Err(e) => Err(e),
    }
}

} // verus!
