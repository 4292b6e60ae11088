//! Requests and responses as whole messages.
use vstd::prelude::*;
use crate::requests::{
    Request, RequestView, ReadFile, WriteFile, SetEndOfFile, CreateFile, CreateDirectory, OpenFile,
    MoveFile,
};
use crate::responses::{Error, FreeSpace, Payload, PayloadKind, PayloadView, Response, response_view};
use crate::wire::{
    u32_le, u64_le, bool_wire, str_wire, holds_at, parse_u32, parse_u64, parse_bool, parse_str,
    lemma_holds_concat, lemma_u32, lemma_u64, lemma_bool, lemma_str, write_u32, write_u64,
    write_bool, write_str, read_u32, read_u64, read_bool, read_str,
};
use crate::messages::{
    info_wire, files_wire, parse_info, parse_files, lemma_info, lemma_files, write_info,
    write_files, read_info, read_files,
};

verus! {

pub open spec fn request_tag(r: RequestView) -> u32 {
    match r {
        RequestView::List(_) => 0,
        RequestView::Stat(_) => 1,
        RequestView::Delete(_) => 2,
        RequestView::CreateFile(_) => 3,
        RequestView::CreateDirectory(_) => 4,
        RequestView::Open(_) => 5,
        RequestView::Close(_) => 6,
        RequestView::Move(..) => 7,
        RequestView::GetFreeSpace => 8,
        RequestView::Read(_) => 9,
        RequestView::Write(_) => 10,
        RequestView::SetEndOfFile(_) => 11,
    }
}

pub open spec fn request_body(r: RequestView) -> Seq<u8> {
    match r {
        RequestView::List(p) => str_wire(p),
        RequestView::Stat(p) => str_wire(p),
        RequestView::Delete(p) => str_wire(p),
        RequestView::CreateFile(p) => str_wire(p),
        RequestView::CreateDirectory(p) => str_wire(p),
        RequestView::Open(p) => str_wire(p),
        RequestView::Close(h) => u32_le(h),
        RequestView::Move(from, to, replace) => str_wire(from) + (str_wire(to) + bool_wire(
            replace,
        )),
        RequestView::GetFreeSpace => seq![],
        RequestView::Read(r) => u32_le(r.handle) + (u64_le(r.offset) + u64_le(r.len)),
        RequestView::Write(w) => u32_le(w.handle) + (u64_le(w.offset) + u64_le(w.len)),
        RequestView::SetEndOfFile(s) => u32_le(s.handle) + u64_le(s.len),
    }
}

/// The bytes of a request inside its frame.
pub open spec fn request_wire(r: RequestView) -> Seq<u8> {
    u32_le(request_tag(r)) + request_body(r)
}

/// The request with a path argument whose variant index is `tag` (at most 5).
pub open spec fn path_request(tag: u32, p: Seq<char>) -> RequestView {
    if tag == 0 {
        RequestView::List(p)
    } else if tag == 1 {
        RequestView::Stat(p)
    } else if tag == 2 {
        RequestView::Delete(p)
    } else if tag == 3 {
        RequestView::CreateFile(p)
    } else if tag == 4 {
        RequestView::CreateDirectory(p)
    } else {
        RequestView::Open(p)
    }
}

pub open spec fn parse_request_body(b: Seq<u8>, p: int, tag: u32) -> Option<RequestView> {
    if tag <= 5 {
        match parse_str(b, p) {
            Some((path, _)) => Some(path_request(tag, path)),
            None => None,
        }
    } else if tag == 6 {
        match parse_u32(b, p) {
            Some((h, _)) => Some(RequestView::Close(h)),
            None => None,
        }
    } else if tag == 7 {
        match parse_str(b, p) {
            None => None,
            Some((from, at1)) => match parse_str(b, at1) {
                None => None,
                Some((to, at2)) => match parse_bool(b, at2) {
                    None => None,
                    Some((replace, _)) => Some(RequestView::Move(from, to, replace)),
                },
            },
        }
    } else if tag == 8 {
        Some(RequestView::GetFreeSpace)
    } else if tag == 9 || tag == 10 {
        match parse_u32(b, p) {
            None => None,
            Some((handle, at1)) => match parse_u64(b, at1) {
                None => None,
                Some((offset, at2)) => match parse_u64(b, at2) {
                    None => None,
                    Some((len, _)) => if tag == 9 {
                        Some(RequestView::Read(ReadFile { handle, offset, len }))
                    } else {
                        Some(RequestView::Write(WriteFile { handle, offset, len }))
                    },
                },
            },
        }
    } else if tag == 11 {
        match parse_u32(b, p) {
            None => None,
            Some((handle, at1)) => match parse_u64(b, at1) {
                None => None,
                Some((len, _)) => Some(RequestView::SetEndOfFile(SetEndOfFile { handle, len })),
            },
        }
    } else {
        None
    }
}

/// The request that the bytes `b` hold, if any.
pub open spec fn parse_request(b: Seq<u8>) -> Option<RequestView> {
    match parse_u32(b, 0) {
        Some((tag, p)) => parse_request_body(b, p, tag),
        None => None,
    }
}

pub open spec fn error_tag(e: Error) -> u32 {
    match e {
        Error::FileNotFound => 0,
        Error::NoSuchHandle => 1,
        Error::FileExists => 2,
        Error::PermissionDenied => 3,
        Error::CouldNotFindDisk => 4,
        Error::Other => 5,
    }
}

pub open spec fn error_of_tag(t: u32) -> Option<Error> {
    if t == 0 {
        Some(Error::FileNotFound)
    } else if t == 1 {
        Some(Error::NoSuchHandle)
    } else if t == 2 {
        Some(Error::FileExists)
    } else if t == 3 {
        Some(Error::PermissionDenied)
    } else if t == 4 {
        Some(Error::CouldNotFindDisk)
    } else if t == 5 {
        Some(Error::Other)
    } else {
        None
    }
}

pub open spec fn payload_wire(p: PayloadView) -> Seq<u8> {
    match p {
        PayloadView::Files(v) => files_wire(v),
        PayloadView::Info(f) => info_wire(f),
        PayloadView::Number(n) => u32_le(n),
        PayloadView::Space(s) => u64_le(s.total_bytes) + u64_le(s.free_bytes),
        PayloadView::Unit => seq![],
    }
}

/// The bytes of a response inside its frame.
pub open spec fn response_wire(r: Result<PayloadView, Error>) -> Seq<u8> {
    match r {
        Ok(p) => u32_le(0) + payload_wire(p),
        Err(e) => u32_le(1) + u32_le(error_tag(e)),
    }
}

pub open spec fn parse_payload(b: Seq<u8>, p: int, kind: PayloadKind) -> Option<PayloadView> {
    match kind {
        PayloadKind::Files => match parse_files(b, p) {
            Some((v, _)) => Some(PayloadView::Files(v)),
            None => None,
        },
        PayloadKind::Info => match parse_info(b, p) {
            Some((f, _)) => Some(PayloadView::Info(f)),
            None => None,
        },
        PayloadKind::Number => match parse_u32(b, p) {
            Some((n, _)) => Some(PayloadView::Number(n)),
            None => None,
        },
        PayloadKind::Space => match parse_u64(b, p) {
            None => None,
            Some((total_bytes, at1)) => match parse_u64(b, at1) {
                None => None,
                Some((free_bytes, _)) => Some(
                    PayloadView::Space(FreeSpace { total_bytes, free_bytes }),
                ),
            },
        },
        PayloadKind::Unit => Some(PayloadView::Unit),
    }
}

/// The response that the bytes `b` hold, read as an answer whose `Ok` payload
/// has the shape `kind`.
pub open spec fn parse_response(b: Seq<u8>, kind: PayloadKind) -> Option<
    Result<PayloadView, Error>,
> {
    match parse_u32(b, 0) {
        None => None,
        Some((tag, p)) => if tag == 0 {
            match parse_payload(b, p, kind) {
                Some(payload) => Some(Ok(payload)),
                None => None,
            }
        } else if tag == 1 {
            match parse_u32(b, p) {
                None => None,
                Some((e, _)) => match error_of_tag(e) {
                    Some(err) => Some(Err(err)),
                    None => None,
                },
            }
        } else {
            None
        },
    }
}

/// The payload shape of the answer to a request.
pub open spec fn payload_kind_of(r: RequestView) -> PayloadKind {
    match r {
        RequestView::List(_) => PayloadKind::Files,
        RequestView::Stat(_) => PayloadKind::Info,
        RequestView::Open(_) => PayloadKind::Number,
        RequestView::Read(_) => PayloadKind::Number,
        RequestView::GetFreeSpace => PayloadKind::Space,
        _ => PayloadKind::Unit,
    }
}

proof fn lemma_whole(b: Seq<u8>)
    ensures
        holds_at(b, 0, b),
{
    assert(b.subrange(0, b.len() as int) =~= b);
}

/// Every request reads back as itself from the bytes it is written as.
pub proof fn lemma_request_round_trip(r: RequestView)
    requires
        request_wire(r).len() <= u64::MAX,
    ensures
        parse_request(request_wire(r)) == Some(r),
{
    let b = request_wire(r);
    let body = request_body(r);
    lemma_whole(b);
    lemma_holds_concat(b, 0, u32_le(request_tag(r)), body);
    lemma_u32(b, 0, request_tag(r));
    match r {
        RequestView::List(p) => lemma_str(b, 4, p),
        RequestView::Stat(p) => lemma_str(b, 4, p),
        RequestView::Delete(p) => lemma_str(b, 4, p),
        RequestView::CreateFile(p) => lemma_str(b, 4, p),
        RequestView::CreateDirectory(p) => lemma_str(b, 4, p),
        RequestView::Open(p) => lemma_str(b, 4, p),
        RequestView::Close(h) => lemma_u32(b, 4, h),
        RequestView::Move(from, to, replace) => {
            lemma_holds_concat(b, 4, str_wire(from), str_wire(to) + bool_wire(replace));
            lemma_str(b, 4, from);
            let at1 = (4 + str_wire(from).len()) as int;
            lemma_holds_concat(b, at1, str_wire(to), bool_wire(replace));
            lemma_str(b, at1, to);
            lemma_bool(b, (at1 + str_wire(to).len()) as int, replace);
        },
        RequestView::GetFreeSpace => {},
        RequestView::Read(x) => {
            lemma_holds_concat(b, 4, u32_le(x.handle), u64_le(x.offset) + u64_le(x.len));
            lemma_u32(b, 4, x.handle);
            lemma_holds_concat(b, 8, u64_le(x.offset), u64_le(x.len));
            lemma_u64(b, 8, x.offset);
            lemma_u64(b, 16, x.len);
        },
        RequestView::Write(x) => {
            lemma_holds_concat(b, 4, u32_le(x.handle), u64_le(x.offset) + u64_le(x.len));
            lemma_u32(b, 4, x.handle);
            lemma_holds_concat(b, 8, u64_le(x.offset), u64_le(x.len));
            lemma_u64(b, 8, x.offset);
            lemma_u64(b, 16, x.len);
        },
        RequestView::SetEndOfFile(x) => {
            lemma_holds_concat(b, 4, u32_le(x.handle), u64_le(x.len));
            lemma_u32(b, 4, x.handle);
            lemma_u64(b, 8, x.len);
        },
    }
}

proof fn lemma_payload(b: Seq<u8>, p: int, payload: PayloadView)
    requires
        holds_at(b, p, payload_wire(payload)),
        b.len() <= u64::MAX,
    ensures
        parse_payload(b, p, payload.kind()) == Some(payload),
{
    match payload {
        PayloadView::Files(v) => lemma_files(b, p, v),
        PayloadView::Info(f) => lemma_info(b, p, f),
        PayloadView::Number(n) => lemma_u32(b, p, n),
        PayloadView::Space(s) => {
            lemma_holds_concat(b, p, u64_le(s.total_bytes), u64_le(s.free_bytes));
            lemma_u64(b, p, s.total_bytes);
            lemma_u64(b, p + 8, s.free_bytes);
        },
        PayloadView::Unit => {},
    }
}

/// Every response reads back as itself from the bytes it is written as, when
/// read as the answer that its payload belongs to.
pub proof fn lemma_response_round_trip(r: Result<PayloadView, Error>, kind: PayloadKind)
    requires
        r matches Ok(p) ==> p.kind() == kind,
        response_wire(r).len() <= u64::MAX,
    ensures
        parse_response(response_wire(r), kind) == Some(r),
{
    let b = response_wire(r);
    lemma_whole(b);
    match r {
        Ok(p) => {
            lemma_holds_concat(b, 0, u32_le(0), payload_wire(p));
            lemma_u32(b, 0, 0);
            lemma_payload(b, 4, p);
        },
        Err(e) => {
            lemma_holds_concat(b, 0, u32_le(1), u32_le(error_tag(e)));
            lemma_u32(b, 0, 1);
            lemma_u32(b, 4, error_tag(e));
        },
    }
}

/// The payload shape of the answer to `r`.
pub fn expected_payload(r: &Request) -> (k: PayloadKind)
    ensures
        k == payload_kind_of(r@),
{
    match r {
        Request::List(_) => PayloadKind::Files,
        Request::Stat(_) => PayloadKind::Info,
        Request::Open(_) => PayloadKind::Number,
        Request::Read(_) => PayloadKind::Number,
        Request::GetFreeSpace => PayloadKind::Space,
        _ => PayloadKind::Unit,
    }
}

/// Writes `r` as the bytes of a frame's payload.
pub fn encode_request(r: &Request) -> (out: Vec<u8>)
    ensures
        out@ == request_wire(r@),
{
    let mut out: Vec<u8> = Vec::new();
    match r {
        Request::List(p) => {
            write_u32(&mut out, 0);
            write_str(&mut out, p);
        },
        Request::Stat(p) => {
            write_u32(&mut out, 1);
            write_str(&mut out, p);
        },
        Request::Delete(p) => {
            write_u32(&mut out, 2);
            write_str(&mut out, p);
        },
        Request::CreateFile(c) => {
            write_u32(&mut out, 3);
            write_str(&mut out, &c.path);
        },
        Request::CreateDirectory(c) => {
            write_u32(&mut out, 4);
            write_str(&mut out, &c.path);
        },
        Request::Open(o) => {
            write_u32(&mut out, 5);
            write_str(&mut out, &o.path);
        },
        Request::Close(h) => {
            write_u32(&mut out, 6);
            write_u32(&mut out, *h);
        },
        Request::Move(m) => {
            write_u32(&mut out, 7);
            write_str(&mut out, &m.from);
            write_str(&mut out, &m.to);
            write_bool(&mut out, m.replace_if_exists);
        },
        Request::GetFreeSpace => {
            write_u32(&mut out, 8);
        },
        Request::Read(x) => {
            write_u32(&mut out, 9);
            write_u32(&mut out, x.handle);
            write_u64(&mut out, x.offset);
            write_u64(&mut out, x.len);
        },
        Request::Write(x) => {
            write_u32(&mut out, 10);
            write_u32(&mut out, x.handle);
            write_u64(&mut out, x.offset);
            write_u64(&mut out, x.len);
        },
        Request::SetEndOfFile(x) => {
            write_u32(&mut out, 11);
            write_u32(&mut out, x.handle);
            write_u64(&mut out, x.len);
        },
    }
    assert(out@ =~= request_wire(r@));
    out
}

/// Reads the request that a frame's payload holds.
pub fn decode_request(b: &[u8]) -> (r: Option<Request>)
    ensures
        match r {
            Some(x) => parse_request(b@) == Some(x@),
            None => parse_request(b@) is None,
        },
{
    let (tag, p) = match read_u32(b, 0) {
        Some(found) => found,
        None => return None,
    };
    if tag <= 5 {
        let (path, _) = match read_str(b, p) {
            Some(found) => found,
            None => return None,
        };
        if tag == 0 {
            Some(Request::List(path))
        } else if tag == 1 {
            Some(Request::Stat(path))
        } else if tag == 2 {
            Some(Request::Delete(path))
        } else if tag == 3 {
            Some(Request::CreateFile(CreateFile { path }))
        } else if tag == 4 {
            Some(Request::CreateDirectory(CreateDirectory { path }))
        } else {
            Some(Request::Open(OpenFile { path }))
        }
    } else if tag == 6 {
        match read_u32(b, p) {
            Some((h, _)) => Some(Request::Close(h)),
            None => None,
        }
    } else if tag == 7 {
        let (from, at1) = match read_str(b, p) {
            Some(found) => found,
            None => return None,
        };
        let (to, at2) = match read_str(b, at1) {
            Some(found) => found,
            None => return None,
        };
        match read_bool(b, at2) {
            Some((replace_if_exists, _)) => Some(
                Request::Move(MoveFile { from, to, replace_if_exists }),
            ),
            None => None,
        }
    } else if tag == 8 {
        Some(Request::GetFreeSpace)
    } else if tag == 9 || tag == 10 {
        let (handle, at1) = match read_u32(b, p) {
            Some(found) => found,
            None => return None,
        };
        let (offset, at2) = match read_u64(b, at1) {
            Some(found) => found,
            None => return None,
        };
        let (len, _) = match read_u64(b, at2) {
            Some(found) => found,
            None => return None,
        };
        if tag == 9 {
            Some(Request::Read(ReadFile { handle, offset, len }))
        } else {
            Some(Request::Write(WriteFile { handle, offset, len }))
        }
    } else if tag == 11 {
        let (handle, at1) = match read_u32(b, p) {
            Some(found) => found,
            None => return None,
        };
        match read_u64(b, at1) {
            Some((len, _)) => Some(Request::SetEndOfFile(SetEndOfFile { handle, len })),
            None => None,
        }
    } else {
        None
    }
}

fn error_index(e: Error) -> (t: u32)
    ensures
        t == error_tag(e),
{
    match e {
        Error::FileNotFound => 0,
        Error::NoSuchHandle => 1,
        Error::FileExists => 2,
        Error::PermissionDenied => 3,
        Error::CouldNotFindDisk => 4,
        Error::Other => 5,
    }
}

fn error_from_index(t: u32) -> (e: Option<Error>)
    ensures
        e == error_of_tag(t),
{
    if t == 0 {
        Some(Error::FileNotFound)
    } else if t == 1 {
        Some(Error::NoSuchHandle)
    } else if t == 2 {
        Some(Error::FileExists)
    } else if t == 3 {
        Some(Error::PermissionDenied)
    } else if t == 4 {
        Some(Error::CouldNotFindDisk)
    } else if t == 5 {
        Some(Error::Other)
    } else {
        None
    }
}

/// Writes `r` as the bytes of a frame's payload.
pub fn encode_response(r: &Response) -> (out: Vec<u8>)
    ensures
        out@ == response_wire(response_view(*r)),
{
    let mut out: Vec<u8> = Vec::new();
    match r {
        Ok(p) => {
            write_u32(&mut out, 0);
            match p {
                Payload::Files(v) => write_files(&mut out, v),
                Payload::Info(f) => write_info(&mut out, f),
                Payload::Number(n) => write_u32(&mut out, *n),
                Payload::Space(s) => {
                    write_u64(&mut out, s.total_bytes);
                    write_u64(&mut out, s.free_bytes);
                },
                Payload::Unit => {},
            }
        },
        Err(e) => {
            write_u32(&mut out, 1);
            write_u32(&mut out, error_index(*e));
        },
    }
    assert(out@ =~= response_wire(response_view(*r)));
    out
}

/// Reads the response that a frame's payload holds, as an answer whose `Ok`
/// payload has the shape `kind`.
pub fn decode_response(b: &[u8], kind: PayloadKind) -> (r: Option<Response>)
    ensures
        match r {
            Some(x) => parse_response(b@, kind) == Some(response_view(x)),
            None => parse_response(b@, kind) is None,
        },
{
    let (tag, p) = match read_u32(b, 0) {
        Some(found) => found,
        None => return None,
    };
    if tag == 0 {
        let payload = match kind {
            PayloadKind::Files => match read_files(b, p) {
                Some((v, _)) => Payload::Files(v),
                None => return None,
            },
            PayloadKind::Info => match read_info(b, p) {
                Some((f, _)) => Payload::Info(f),
                None => return None,
            },
            PayloadKind::Number => match read_u32(b, p) {
                Some((n, _)) => Payload::Number(n),
                None => return None,
            },
            PayloadKind::Space => {
                let (total_bytes, at1) = match read_u64(b, p) {
                    Some(found) => found,
                    None => return None,
                };
                match read_u64(b, at1) {
                    Some((free_bytes, _)) => Payload::Space(FreeSpace { total_bytes, free_bytes }),
                    None => return None,
                }
            },
            PayloadKind::Unit => Payload::Unit,
        };
        Some(Ok(payload))
    } else if tag == 1 {
        match read_u32(b, p) {
            Some((e, _)) => match error_from_index(e) {
                Some(err) => Some(Err(err)),
                None => None,
            },
            None => None,
        }
    } else {
        None
    }
}

} // verus!
