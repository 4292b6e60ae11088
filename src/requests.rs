use vstd::prelude::*;
use crate::models::FileHandle;

verus! {

/// A request to the daemon.
#[derive(Debug)]
pub enum Request {
    List(ListFiles),
    Stat(StatFile),
    Delete(DeleteFile),
    CreateFile(CreateFile),
    CreateDirectory(CreateDirectory),
    Open(OpenFile),
    Close(CloseFile),
    Move(MoveFile),
    GetFreeSpace,
    Read(ReadFile),
    Write(WriteFile),
    SetEndOfFile(SetEndOfFile),
}

#[derive(Clone, Copy, Debug, PartialEq, Eq, Structural)]
pub struct ReadFile {
    pub handle: FileHandle,
    pub offset: u64,
    pub len: u64,
}

#[derive(Clone, Copy, Debug, PartialEq, Eq, Structural)]
pub struct WriteFile {
    pub handle: FileHandle,
    pub offset: u64,
    pub len: u64,
}

#[derive(Clone, Copy, Debug, PartialEq, Eq, Structural)]
pub struct SetEndOfFile {
    pub handle: FileHandle,
    pub len: u64,
}

pub type CloseFile = FileHandle;

pub type ListFiles = String;

pub type StatFile = String;

pub type DeleteFile = String;

/// Reserved: the daemon does not serve it.
#[derive(Debug)]
pub struct CreateFile {
    pub path: String,
}

/// Reserved: the daemon does not serve it.
#[derive(Debug)]
pub struct CreateDirectory {
    pub path: String,
}

#[derive(Debug)]
pub struct OpenFile {
    pub path: String,
}

/// Reserved: the daemon does not serve it.
#[derive(Debug)]
pub struct MoveFile {
    pub from: String,
    pub to: String,
    pub replace_if_exists: bool,
}

/// The mathematical value of a [`Request`]: its paths as character sequences.
pub enum RequestView {
    List(Seq<char>),
    Stat(Seq<char>),
    Delete(Seq<char>),
    CreateFile(Seq<char>),
    CreateDirectory(Seq<char>),
    Open(Seq<char>),
    Close(FileHandle),
    Move(Seq<char>, Seq<char>, bool),
    GetFreeSpace,
    Read(ReadFile),
    Write(WriteFile),
    SetEndOfFile(SetEndOfFile),
}

impl View for Request {
    type V = RequestView;

    open spec fn view(&self) -> RequestView {
        match self {
            Request::List(p) => RequestView::List(p@),
            Request::Stat(p) => RequestView::Stat(p@),
            Request::Delete(p) => RequestView::Delete(p@),
            Request::CreateFile(c) => RequestView::CreateFile(c.path@),
            Request::CreateDirectory(c) => RequestView::CreateDirectory(c.path@),
            Request::Open(o) => RequestView::Open(o.path@),
            Request::Close(h) => RequestView::Close(*h),
            Request::Move(m) => RequestView::Move(m.from@, m.to@, m.replace_if_exists),
            Request::GetFreeSpace => RequestView::GetFreeSpace,
            Request::Read(r) => RequestView::Read(*r),
            Request::Write(w) => RequestView::Write(*w),
            Request::SetEndOfFile(s) => RequestView::SetEndOfFile(*s),
        }
    }
}

} // verus!
