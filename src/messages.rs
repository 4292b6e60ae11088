//! Layout of requests and responses inside a frame.
//!
//! An enumeration is a little-endian `u32` variant index followed by its
//! fields in order; a response is `Ok` (index 0) with the payload that its
//! request calls for, or `Err` (index 1) with an error index; a list is a `u64`
//! count followed by its items; a time is `u64` seconds and `u32` nanoseconds.
use vstd::prelude::*;
use crate::models::{FileInfo, FileInfoView, Timestamp, files_view};
use crate::wire::{
    u32_le, u64_le, str_wire, holds_at, parse_u32, parse_u64, parse_str, lemma_holds_concat,
    lemma_u32, lemma_u64, lemma_str, write_u32, write_u64, write_str, read_u32, read_u64, read_str,
};

verus! {

pub open spec fn time_wire(t: Timestamp) -> Seq<u8> {
    u64_le(t.secs) + u32_le(t.nanos)
}

pub open spec fn info_wire(f: FileInfoView) -> Seq<u8> {
    time_wire(f.creation_time) + (time_wire(f.last_modified) + (time_wire(f.last_accessed) + (
    str_wire(f.name) + (u64_le(f.size) + (u32_le(f.mode) + u64_le(f.ino))))))
}

pub open spec fn items_wire(v: Seq<FileInfoView>) -> Seq<u8>
    decreases v.len(),
{
    if v.len() == 0 {
        seq![]
    } else {
        info_wire(v[0]) + items_wire(v.drop_first())
    }
}

pub open spec fn files_wire(v: Seq<FileInfoView>) -> Seq<u8> {
    u64_le(v.len() as u64) + items_wire(v)
}

pub open spec fn parse_time(b: Seq<u8>, p: int) -> Option<(Timestamp, int)> {
    match parse_u64(b, p) {
        None => None,
        Some((secs, at1)) => match parse_u32(b, at1) {
            None => None,
            Some((nanos, at2)) => Some((Timestamp { secs, nanos }, at2)),
        },
    }
}

pub open spec fn parse_info(b: Seq<u8>, p: int) -> Option<(FileInfoView, int)> {
    match parse_time(b, p) {
        None => None,
        Some((creation_time, at1)) => match parse_time(b, at1) {
            None => None,
            Some((last_modified, at2)) => match parse_time(b, at2) {
                None => None,
                Some((last_accessed, at3)) => match parse_str(b, at3) {
                    None => None,
                    Some((name, at4)) => match parse_u64(b, at4) {
                        None => None,
                        Some((size, at5)) => match parse_u32(b, at5) {
                            None => None,
                            Some((mode, at6)) => match parse_u64(b, at6) {
                                None => None,
                                Some((ino, at7)) => Some(
                                    (
                                        FileInfoView {
                                            creation_time,
                                            last_modified,
                                            last_accessed,
                                            name,
                                            size,
                                            mode,
                                            ino,
                                        },
                                        at7,
                                    ),
                                ),
                            },
                        },
                    },
                },
            },
        },
    }
}

pub open spec fn prepend_items(
    head: Seq<FileInfoView>,
    rest: Option<(Seq<FileInfoView>, int)>,
) -> Option<(Seq<FileInfoView>, int)> {
    match rest {
        Some((items, q)) => Some((head + items, q)),
        None => None,
    }
}

/// `n` file records read one after the other from `p`.
pub open spec fn parse_items(b: Seq<u8>, p: int, n: nat) -> Option<(Seq<FileInfoView>, int)>
    decreases n,
{
    if n == 0 {
        Some((seq![], p))
    } else {
        match parse_info(b, p) {
            None => None,
            Some((f, q)) => prepend_items(seq![f], parse_items(b, q, (n - 1) as nat)),
        }
    }
}

pub open spec fn parse_files(b: Seq<u8>, p: int) -> Option<(Seq<FileInfoView>, int)> {
    match parse_u64(b, p) {
        None => None,
        Some((n, q)) => parse_items(b, q, n as nat),
    }
}

pub proof fn lemma_time(b: Seq<u8>, p: int, t: Timestamp)
    requires
        holds_at(b, p, time_wire(t)),
    ensures
        parse_time(b, p) == Some((t, p + 12)),
{
    lemma_holds_concat(b, p, u64_le(t.secs), u32_le(t.nanos));
    lemma_u64(b, p, t.secs);
    lemma_u32(b, p + 8, t.nanos);
}

pub proof fn lemma_info(b: Seq<u8>, p: int, f: FileInfoView)
    requires
        holds_at(b, p, info_wire(f)),
        b.len() <= u64::MAX,
    ensures
        parse_info(b, p) == Some((f, p + info_wire(f).len())),
{
    let w6 = u32_le(f.mode) + u64_le(f.ino);
    let w5 = u64_le(f.size) + w6;
    let w4 = str_wire(f.name) + w5;
    let w3 = time_wire(f.last_accessed) + w4;
    let w2 = time_wire(f.last_modified) + w3;
    lemma_holds_concat(b, p, time_wire(f.creation_time), w2);
    lemma_time(b, p, f.creation_time);
    let at1 = p + 12;
    lemma_holds_concat(b, at1, time_wire(f.last_modified), w3);
    lemma_time(b, at1, f.last_modified);
    let at2 = at1 + 12;
    lemma_holds_concat(b, at2, time_wire(f.last_accessed), w4);
    lemma_time(b, at2, f.last_accessed);
    let at3 = at2 + 12;
    lemma_holds_concat(b, at3, str_wire(f.name), w5);
    lemma_str(b, at3, f.name);
    let at4 = at3 + str_wire(f.name).len();
    lemma_holds_concat(b, at4, u64_le(f.size), w6);
    lemma_u64(b, at4, f.size);
    let at5 = at4 + 8;
    lemma_holds_concat(b, at5, u32_le(f.mode), u64_le(f.ino));
    lemma_u32(b, at5, f.mode);
    lemma_u64(b, at5 + 4, f.ino);
}

pub proof fn lemma_items(b: Seq<u8>, p: int, v: Seq<FileInfoView>)
    requires
        holds_at(b, p, items_wire(v)),
        b.len() <= u64::MAX,
    ensures
        parse_items(b, p, v.len()) == Some((v, p + items_wire(v).len())),
    decreases v.len(),
{
    if v.len() == 0 {
        assert(v =~= seq![]);
    } else {
        lemma_holds_concat(b, p, info_wire(v[0]), items_wire(v.drop_first()));
        lemma_info(b, p, v[0]);
        lemma_items(b, p + info_wire(v[0]).len(), v.drop_first());
        assert(seq![v[0]] + v.drop_first() =~= v);
    }
}

pub proof fn lemma_files(b: Seq<u8>, p: int, v: Seq<FileInfoView>)
    requires
        holds_at(b, p, files_wire(v)),
        b.len() <= u64::MAX,
    ensures
        parse_files(b, p) == Some((v, p + files_wire(v).len())),
{
    lemma_items_len(v);
    lemma_holds_concat(b, p, u64_le(v.len() as u64), items_wire(v));
    lemma_u64(b, p, v.len() as u64);
    lemma_items(b, p + 8, v);
}

pub proof fn lemma_items_push(v: Seq<FileInfoView>, f: FileInfoView)
    ensures
        items_wire(v.push(f)) == items_wire(v) + info_wire(f),
    decreases v.len(),
{
    let w = v.push(f);
    if v.len() == 0 {
        assert(w.drop_first() =~= Seq::<FileInfoView>::empty());
        assert(items_wire(w) == info_wire(f) + items_wire(Seq::<FileInfoView>::empty()));
        assert(info_wire(f) + Seq::<u8>::empty() =~= info_wire(f));
        assert(Seq::<u8>::empty() + info_wire(f) =~= info_wire(f));
    } else {
        let head = info_wire(v[0]);
        let tail = items_wire(v.drop_first());
        let last = info_wire(f);
        assert(w[0] == v[0]);
        assert(w.drop_first() =~= v.drop_first().push(f));
        lemma_items_push(v.drop_first(), f);
        assert(items_wire(w) == head + (tail + last));
        assert(items_wire(v) == head + tail);
        assert((head + tail) + last =~= head + (tail + last));
    }
}

/// Every record takes at least one byte.
pub proof fn lemma_items_len(v: Seq<FileInfoView>)
    ensures
        items_wire(v).len() >= v.len(),
    decreases v.len(),
{
    if v.len() > 0 {
        lemma_items_len(v.drop_first());
    }
}

pub fn write_time(out: &mut Vec<u8>, t: Timestamp)
    ensures
        final(out)@ == old(out)@ + time_wire(t),
{
    write_u64(out, t.secs);
    write_u32(out, t.nanos);
    assert(final(out)@ =~= old(out)@ + time_wire(t));
}

pub fn write_info(out: &mut Vec<u8>, f: &FileInfo)
    ensures
        final(out)@ == old(out)@ + info_wire(f@),
{
    let ghost start = out@;
    write_time(out, f.creation_time);
    write_time(out, f.last_modified);
    write_time(out, f.last_accessed);
    write_str(out, &f.name);
    write_u64(out, f.size);
    write_u32(out, f.mode);
    write_u64(out, f.ino);
    assert(out@ =~= start + info_wire(f@));
}

pub fn write_files(out: &mut Vec<u8>, files: &Vec<FileInfo>)
    ensures
        final(out)@ == old(out)@ + files_wire(files_view(files@)),
{
    let ghost start = out@;
    write_u64(out, files.len() as u64);
    let mut i: usize = 0;
    while i < files.len()
        invariant
            i <= files.len(),
            out@ == start + u64_le(files.len() as u64) + items_wire(
                files_view(files@.subrange(0, i as int)),
            ),
        decreases files.len() - i,
    {
        let ghost before = out@;
        write_info(out, &files[i]);
        proof {
            assert(files_view(files@.subrange(0, i + 1)) =~= files_view(
                files@.subrange(0, i as int),
            ).push(files@[i as int]@));
            lemma_items_push(files_view(files@.subrange(0, i as int)), files@[i as int]@);
        }
        i = i + 1;
        assert(out@ =~= start + u64_le(files.len() as u64) + items_wire(
            files_view(files@.subrange(0, i as int)),
        ));
    }
    assert(files@.subrange(0, i as int) =~= files@);
    assert(out@ =~= start + files_wire(files_view(files@)));
}

pub fn read_time(b: &[u8], pos: usize) -> (r: Option<(Timestamp, usize)>)
    ensures
        match r {
            Some((t, q)) => parse_time(b@, pos as int) == Some((t, q as int)),
            None => parse_time(b@, pos as int) is None,
        },
{
    let (secs, at1) = match read_u64(b, pos) {
        Some(found) => found,
        None => return None,
    };
    let (nanos, at2) = match read_u32(b, at1) {
        Some(found) => found,
        None => return None,
    };
    Some((Timestamp { secs, nanos }, at2))
}

pub fn read_info(b: &[u8], pos: usize) -> (r: Option<(FileInfo, usize)>)
    ensures
        match r {
            Some((f, q)) => parse_info(b@, pos as int) == Some((f@, q as int)),
            None => parse_info(b@, pos as int) is None,
        },
{
    let (creation_time, at1) = match read_time(b, pos) {
        Some(found) => found,
        None => return None,
    };
    let (last_modified, at2) = match read_time(b, at1) {
        Some(found) => found,
        None => return None,
    };
    let (last_accessed, at3) = match read_time(b, at2) {
        Some(found) => found,
        None => return None,
    };
    let (name, at4) = match read_str(b, at3) {
        Some(found) => found,
        None => return None,
    };
    let (size, at5) = match read_u64(b, at4) {
        Some(found) => found,
        None => return None,
    };
    let (mode, at6) = match read_u32(b, at5) {
        Some(found) => found,
        None => return None,
    };
    let (ino, at7) = match read_u64(b, at6) {
        Some(found) => found,
        None => return None,
    };
    Some((FileInfo { creation_time, last_modified, last_accessed, name, size, mode, ino }, at7))
}

pub fn read_files(b: &[u8], pos: usize) -> (r: Option<(Vec<FileInfo>, usize)>)
    ensures
        match r {
            Some((v, q)) => parse_files(b@, pos as int) == Some((files_view(v@), q as int)),
            None => parse_files(b@, pos as int) is None,
        },
{
    let (n, start) = match read_u64(b, pos) {
        Some(found) => found,
        None => return None,
    };
    let mut files: Vec<FileInfo> = Vec::new();
    let mut p = start;
    let mut i: u64 = 0;
    while i < n
        invariant
            i <= n,
            parse_u64(b@, pos as int) == Some((n, start as int)),
            parse_items(b@, start as int, n as nat) == prepend_items(
                files_view(files@),
                parse_items(b@, p as int, (n - i) as nat),
            ),
        decreases n - i,
    {
        let (f, q) = match read_info(b, p) {
            Some(found) => found,
            None => return None,
        };
        proof {
            assert(files_view(files@.push(f)) =~= files_view(files@).push(f@));
            assert(files_view(files@) + (seq![f@] + Seq::<FileInfoView>::empty()) =~= files_view(
                files@,
            ).push(f@));
            match parse_items(b@, q as int, (n - i - 1) as nat) {
                Some((rest, e)) => {
                    assert(files_view(files@) + (seq![f@] + rest) =~= files_view(files@).push(f@)
                        + rest);
                },
                None => {},
            }
        }
        files.push(f);
        p = q;
        i = i + 1;
    }
    proof {
        assert(files_view(files@) + Seq::<FileInfoView>::empty() =~= files_view(files@));
    }
    Some((files, p))
}

} // verus!
