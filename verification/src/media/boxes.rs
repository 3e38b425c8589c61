//! The boxes of a `moov` atom, and what the mp4 crate makes of them.
use crate::coding::wire::from_big_endian;
use mp4::ReadBox;
use std::io::Cursor;
use vstd::prelude::*;

verus! {

/// The header of a box, with the size as the mp4 crate counts it: from eight bytes before the body.
#[derive(Clone, Copy, Debug, PartialEq, Eq, Structural)]
pub struct BoxHead {
    pub name: u32,
    pub size: u64,
    pub start: u64,
    pub body: u64,
}

/// The number that some bytes of the data spell, most significant byte first.
pub open spec fn number_at(data: Seq<u8>, at: int, n: int) -> nat {
    from_big_endian(data.subrange(at, at + n))
}

/// The header of the box at a position. `None` where it is cut off, or its size cannot be.
pub open spec fn head(data: Seq<u8>, pos: int) -> Option<BoxHead> {
    if pos + 8 > data.len() {
        None
    } else {
        let size = number_at(data, pos, 4);
        let name = number_at(data, pos + 4, 4) as u32;
        if size != 1 {
            Some(BoxHead { name, size: size as u64, start: pos as u64, body: (pos + 8) as u64 })
        } else if pos + 16 > data.len() {
            None
        } else {
            let size = number_at(data, pos + 8, 8);
            if 0 < size < 16 {
                None
            } else {
                Some(
                    BoxHead {
                        name,
                        size: if size == 0 {
                            0
                        } else {
                            (size - 8) as u64
                        },
                        start: (pos + 8) as u64,
                        body: (pos + 16) as u64,
                    },
                )
            }
        }
    }
}

/// Four bytes spell a number below 2^32, and eight bytes one below 2^64.
proof fn lemma_number(s: Seq<u8>)
    ensures
        s.len() == 4 ==> from_big_endian(s) == ((s[0] * 256 + s[1]) * 256 + s[2]) * 256 + s[3],
        s.len() == 4 ==> from_big_endian(s) <= u32::MAX,
        s.len() == 8 ==> from_big_endian(s) == from_big_endian(s.take(4)) * 0x1_0000_0000
            + from_big_endian(s.skip(4)),
        s.len() == 8 ==> from_big_endian(s) <= u64::MAX,
{
    if s.len() == 4 {
        lemma_four(s);
    }
    if s.len() == 8 {
        let (a, b) = (s.take(4), s.skip(4));
        lemma_four(a);
        lemma_four(b);
        reveal_with_fuel(from_big_endian, 5);
        assert(s.drop_last() =~= s.take(7));
        assert(s.take(7).drop_last() =~= s.take(6));
        assert(s.take(6).drop_last() =~= s.take(5));
        assert(s.take(5).drop_last() =~= a);
        assert(s.last() == b[3]);
        assert(s.take(7).last() == b[2]);
        assert(s.take(6).last() == b[1]);
        assert(s.take(5).last() == b[0]);
    }
}

/// Four bytes spell a number below 2^32.
proof fn lemma_four(s: Seq<u8>)
    requires
        s.len() == 4,
    ensures
        from_big_endian(s) == ((s[0] * 256 + s[1]) * 256 + s[2]) * 256 + s[3],
        from_big_endian(s) <= u32::MAX,
{
    reveal_with_fuel(from_big_endian, 5);
    assert(s.drop_last() =~= s.take(3));
    assert(s.take(3).drop_last() =~= s.take(2));
    assert(s.take(2).drop_last() =~= s.take(1));
    assert(s.take(1).drop_last() =~= s.take(0));
    assert(s.take(1).last() == s[0]);
    assert(s.take(2).last() == s[1]);
    assert(s.take(3).last() == s[2]);
}

/// The number that four bytes of the data spell.
pub(crate) fn read_u32(data: &Vec<u8>, at: usize) -> (res: u32)
    requires
        at + 4 <= data.len(),
    ensures
        res == number_at(data@, at as int, 4),
{
    proof {
        lemma_number(data@.subrange(at as int, at + 4));
    }
    let (a, b): (u32, u32) = (data[at] as u32, data[at + 1] as u32);
    let (c, d): (u32, u32) = (data[at + 2] as u32, data[at + 3] as u32);
    ((a * 256 + b) * 256 + c) * 256 + d
}

/// The number that eight bytes of the data spell.
pub(crate) fn read_u64(data: &Vec<u8>, at: usize) -> (res: u64)
    requires
        at + 8 <= data.len(),
    ensures
        res == number_at(data@, at as int, 8),
{
    let high: u64 = read_u32(data, at) as u64;
    let low: u64 = read_u32(data, at + 4) as u64;
    proof {
        let s = data@.subrange(at as int, at + 8);
        lemma_number(s);
        assert(s.take(4) =~= data@.subrange(at as int, at + 4));
        assert(s.skip(4) =~= data@.subrange(at + 4, at + 8));
    }
    high * 0x1_0000_0000 + low
}

/// The header of the box at a position.
fn read_head(data: &Vec<u8>, pos: u64) -> (res: Option<BoxHead>)
    ensures
        res == head(data@, pos as int),
        res matches Some(h) ==> pos + 8 <= h.body <= data@.len(),
        res matches Some(h) ==> h.start - pos + h.size <= u64::MAX,
{
    let len: usize = data.len();
    if pos >= len as u64 {
        return None;
    }
    let at: usize = pos as usize;
    if len - at < 8 {
        return None;
    }
    let size: u32 = read_u32(data, at);
    let name: u32 = read_u32(data, at + 4);
    if size != 1 {
        return Some(BoxHead { name, size: size as u64, start: pos, body: pos + 8 });
    }
    if len - at < 16 {
        return None;
    }
    let size: u64 = read_u64(data, at + 8);
    if 0 < size && size < 16 {
        return None;
    }
    let size: u64 = if size == 0 {
        0
    } else {
        size - 8
    };
    Some(BoxHead { name, size, start: pos + 8, body: pos + 16 })
}

/// The boxes that hold other boxes, one after another.
#[derive(Clone, Copy, Debug, PartialEq, Eq, Structural)]
pub enum Kind {
    Moov,
    Mvex,
    Trak,
    Mdia,
    Minf,
    Dinf,
    Dref,
    Stbl,
    Udta,
    Meta,
    /// The boxes of a `meta` box with the handler `mdir`.
    Mdir,
    /// The boxes of a `meta` box with another handler.
    Unknown,
    Ilst,
    /// An item of an `ilst` box.
    Item,
}

pub const MVEX: u32 = 0x6d766578;

pub const TRAK: u32 = 0x7472616b;

pub const EDTS: u32 = 0x65647473;

pub const ELST: u32 = 0x656c7374;

pub const MDIA: u32 = 0x6d646961;

pub const HDLR: u32 = 0x68646c72;

pub const MINF: u32 = 0x6d696e66;

pub const DINF: u32 = 0x64696e66;

pub const DREF: u32 = 0x64726566;

pub const URL: u32 = 0x75726c20;

pub const STBL: u32 = 0x7374626c;

pub const STSD: u32 = 0x73747364;

pub const AVC1: u32 = 0x61766331;

pub const AVCC: u32 = 0x61766343;

pub const HEV1: u32 = 0x68657631;

pub const HVCC: u32 = 0x68766343;

pub const VP09: u32 = 0x76703039;

pub const MP4A: u32 = 0x6d703461;

pub const ESDS: u32 = 0x65736473;

pub const TX3G: u32 = 0x74783367;

pub const STTS: u32 = 0x73747473;

pub const CTTS: u32 = 0x63747473;

pub const STSS: u32 = 0x73747373;

pub const STSC: u32 = 0x73747363;

pub const STSZ: u32 = 0x7374737a;

pub const STCO: u32 = 0x7374636f;

pub const CO64: u32 = 0x636f3634;

pub const UDTA: u32 = 0x75647461;

pub const META: u32 = 0x6d657461;

pub const MDIR: u32 = 0x6d646972;

pub const ILST: u32 = 0x696c7374;

pub const NAME: u32 = 0xa96e616d;

pub const DAY: u32 = 0xa9646179;

pub const COVR: u32 = 0x636f7672;

pub const DESC: u32 = 0x64657363;

pub const DATA: u32 = 0x64617461;

/// The kind of a box inside another, if it holds boxes itself.
pub open spec fn child_kind(kind: Kind, name: u32) -> Option<Kind> {
    match kind {
        Kind::Moov => if name == MVEX {
            Some(Kind::Mvex)
        } else if name == TRAK {
            Some(Kind::Trak)
        } else if name == UDTA {
            Some(Kind::Udta)
        } else if name == META {
            Some(Kind::Meta)
        } else {
            None
        },
        Kind::Trak => if name == MDIA {
            Some(Kind::Mdia)
        } else if name == META {
            Some(Kind::Meta)
        } else {
            None
        },
        Kind::Mdia => if name == MINF {
            Some(Kind::Minf)
        } else {
            None
        },
        Kind::Minf => if name == DINF {
            Some(Kind::Dinf)
        } else if name == STBL {
            Some(Kind::Stbl)
        } else {
            None
        },
        Kind::Dinf => if name == DREF {
            Some(Kind::Dref)
        } else {
            None
        },
        Kind::Udta => if name == META {
            Some(Kind::Meta)
        } else {
            None
        },
        Kind::Mdir => if name == ILST {
            Some(Kind::Ilst)
        } else {
            None
        },
        Kind::Ilst => if name == NAME || name == DAY || name == COVR || name == DESC {
            Some(Kind::Item)
        } else {
            None
        },
        _ => None,
    }
}

/// The kind of a box inside another, if it holds boxes itself.
fn find_child_kind(kind: Kind, name: u32) -> (res: Option<Kind>)
    ensures
        res == child_kind(kind, name),
{
    match kind {
        Kind::Moov => if name == MVEX {
            Some(Kind::Mvex)
        } else if name == TRAK {
            Some(Kind::Trak)
        } else if name == UDTA {
            Some(Kind::Udta)
        } else if name == META {
            Some(Kind::Meta)
        } else {
            None
        },
        Kind::Trak => if name == MDIA {
            Some(Kind::Mdia)
        } else if name == META {
            Some(Kind::Meta)
        } else {
            None
        },
        Kind::Mdia => if name == MINF {
            Some(Kind::Minf)
        } else {
            None
        },
        Kind::Minf => if name == DINF {
            Some(Kind::Dinf)
        } else if name == STBL {
            Some(Kind::Stbl)
        } else {
            None
        },
        Kind::Dinf => if name == DREF {
            Some(Kind::Dref)
        } else {
            None
        },
        Kind::Udta => if name == META {
            Some(Kind::Meta)
        } else {
            None
        },
        Kind::Mdir => if name == ILST {
            Some(Kind::Ilst)
        } else {
            None
        },
        Kind::Ilst => if name == NAME || name == DAY || name == COVR || name == DESC {
            Some(Kind::Item)
        } else {
            None
        },
        _ => None,
    }
}

/// Whether a count of entries, where it is there at all, is not beyond what the data can hold.
pub open spec fn count_fits(data: Seq<u8>, at: int) -> bool {
    at + 4 <= data.len() ==> number_at(data, at, 4) <= data.len()
}

/// Whether a count of entries, where it is there at all, is not beyond what the data can hold.
fn check_count(data: &Vec<u8>, at: u64) -> (res: bool)
    ensures
        res == count_fits(data@, at as int),
{
    let len: usize = data.len();
    if at >= len as u64 || len - (at as usize) < 4 {
        return true;
    }
    read_u32(data, at as usize) as u64 <= len as u64
}

/// Whether a box is one whose table starts with its count of entries.
pub open spec fn is_table(name: u32) -> bool {
    name == STTS || name == CTTS || name == STSS || name == STSC || name == STCO || name == CO64
}

/// Whether the end of a box can be named.
pub open spec fn end_fits(h: BoxHead) -> bool {
    h.start + h.size <= u64::MAX
}

/// Whether a table whose count of entries stands at a position is not longer than the data. The count
/// is held against the size of the box before that, so it matters only where the box is longer.
pub open spec fn table_fits(data: Seq<u8>, h: BoxHead, at: int) -> bool {
    h.size > data.len() ==> count_fits(data, at)
}

/// Whether a table whose count of entries stands at a position is not longer than the data.
fn check_table(data: &Vec<u8>, h: BoxHead, at: u64) -> (res: bool)
    ensures
        res == table_fits(data@, h, at as int),
{
    h.size <= data.len() as u64 || check_count(data, at)
}

/// Whether the end of the `elst` box that an `edts` box starts with can be named, and its table is
/// not longer than the data.
pub open spec fn edits_fit(data: Seq<u8>, h: BoxHead) -> bool {
    head(data, h.body as int) matches Some(inner) ==> inner.size <= h.size && inner.name == ELST
        ==> end_fits(inner) && table_fits(data, inner, inner.body + 4)
}

/// Whether the end of the `elst` box that an `edts` box starts with can be named, and its table is
/// not longer than the data.
fn check_edits(data: &Vec<u8>, h: BoxHead) -> (res: bool)
    ensures
        res == edits_fit(data@, h),
{
    match read_head(data, h.body) {
        None => true,
        Some(inner) => {
            if inner.size > h.size || inner.name != ELST {
                return true;
            }
            if inner.size > u64::MAX - inner.start {
                return false;
            }
            if (data.len() as u64) - inner.body < 4 {
                return true;
            }
            check_table(data, inner, inner.body + 4)
        },
    }
}

/// Where the box that describes the codec stands in the description of samples, from its body on, and
/// the name that it needs to have. `None` where none is looked for.
pub open spec fn codec_box(name: u32) -> Option<(u64, Option<u32>)> {
    if name == AVC1 {
        Some((78, Some(AVCC)))
    } else if name == HEV1 {
        Some((78, Some(HVCC)))
    } else if name == VP09 {
        Some((78, None))
    } else if name == MP4A {
        Some((28, Some(ESDS)))
    } else {
        None
    }
}

/// Whether the end of the box that describes the codec can be named, where it is looked for.
pub open spec fn codec_fits(data: Seq<u8>, entry: BoxHead) -> bool {
    match codec_box(entry.name) {
        None => true,
        Some((offset, name)) => {
            let at = entry.body + offset;
            entry.name == MP4A && at >= entry.start + entry.size || (head(data, at) matches Some(
                codec,
            ) ==> codec.size <= entry.size && (name matches Some(name) ==> codec.name == name)
                ==> end_fits(codec))
        },
    }
}

/// Whether the ends of the description of samples that a `stsd` box starts with, and of what it
/// holds, can be named.
pub open spec fn samples_fit(data: Seq<u8>, h: BoxHead) -> bool {
    head(data, h.body + 8) matches Some(entry) ==> entry.size <= h.size && (codec_box(entry.name)
        is Some || entry.name == TX3G) ==> end_fits(entry) && codec_fits(data, entry)
}

/// Whether the ends of the description of samples that a `stsd` box starts with, and of what it
/// holds, can be named.
fn check_samples(data: &Vec<u8>, h: BoxHead) -> (res: bool)
    requires
        h.body <= data@.len(),
    ensures
        res == samples_fit(data@, h),
{
    let len: u64 = data.len() as u64;
    if len - h.body < 8 {
        return true;
    }
    let entry: BoxHead = match read_head(data, h.body + 8) {
        Some(entry) => entry,
        None => return true,
    };
    if entry.size > h.size {
        return true;
    }
    let (offset, name): (u64, Option<u32>) = if entry.name == AVC1 {
        (78, Some(AVCC))
    } else if entry.name == HEV1 {
        (78, Some(HVCC))
    } else if entry.name == VP09 {
        (78, None)
    } else if entry.name == MP4A {
        (28, Some(ESDS))
    } else {
        return entry.name != TX3G || entry.size <= u64::MAX - entry.start;
    };
    if entry.size > u64::MAX - entry.start {
        return false;
    }
    if len - entry.body < offset {
        return true;
    }
    let at: u64 = entry.body + offset;
    if entry.name == MP4A && at >= entry.start + entry.size {
        return true;
    }
    match read_head(data, at) {
        None => true,
        Some(codec) => {
            let looked_at: bool = codec.size <= entry.size && match name {
                Some(name) => codec.name == name,
                None => true,
            };
            !looked_at || codec.size <= u64::MAX - codec.start
        },
    }
}

/// Whether a box inside another can be read: its end can be named, what is read of it into memory is
/// no longer than the data, and it is not shorter than what is subtracted from its size.
pub open spec fn box_fits(kind: Kind, data: Seq<u8>, h: BoxHead) -> bool {
    &&& end_fits(h)
    &&& kind is Unknown && h.name != HDLR ==> 8 <= h.size <= data.len()
    &&& kind is Mdia && h.name == HDLR ==> h.size <= data.len()
    &&& kind is Item && h.name == DATA ==> 16 <= h.size <= data.len()
    &&& kind is Stbl && is_table(h.name) ==> table_fits(data, h, h.body + 4)
    &&& kind is Stbl && h.name == STSZ && h.body + 8 <= data.len() && number_at(
        data,
        h.body + 4,
        4,
    ) == 0 ==> table_fits(data, h, h.body + 8)
    &&& kind is Stbl && h.name == STSD ==> samples_fit(data, h)
    &&& kind is Trak && h.name == EDTS ==> edits_fit(data, h)
}

/// Whether a box inside another can be read.
fn check_box(kind: Kind, data: &Vec<u8>, h: BoxHead) -> (res: bool)
    requires
        h.body <= data@.len(),
    ensures
        res == box_fits(kind, data@, h),
{
    let len: u64 = data.len() as u64;
    if h.size > u64::MAX - h.start {
        return false;
    }
    match kind {
        Kind::Unknown => h.name == HDLR || (8 <= h.size && h.size <= len),
        Kind::Mdia => h.name != HDLR || h.size <= len,
        Kind::Item => h.name != DATA || (16 <= h.size && h.size <= len),
        Kind::Stbl => if h.name == STSD {
            check_samples(data, h)
        } else if len - h.body < 8 {
            true
        } else if h.name == STTS || h.name == CTTS || h.name == STSS || h.name == STSC || h.name
            == STCO || h.name == CO64 {
            check_table(data, h, h.body + 4)
        } else if h.name == STSZ && read_u32(data, h.body as usize + 4) == 0 {
            check_table(data, h, h.body + 8)
        } else {
            true
        },
        Kind::Trak => h.name != EDTS || check_edits(data, h),
        _ => true,
    }
}

/// Where the boxes of a box start, or `None` where its own fields are cut off or not understood.
pub open spec fn content(kind: Kind, data: Seq<u8>, body: int) -> Option<int> {
    match kind {
        Kind::Meta => if body + 4 > data.len() {
            None
        } else if number_at(data, body, 4) == 0 {
            Some(body + 4)
        } else if body + 8 <= data.len() && number_at(data, body + 4, 4) == HDLR {
            Some(body)
        } else {
            None
        },
        Kind::Dref => if body + 8 > data.len() {
            None
        } else {
            Some(body + 8)
        },
        _ => Some(body),
    }
}

/// Where the boxes of a box start, or `None` where its own fields are cut off or not understood.
fn find_content(kind: Kind, data: &Vec<u8>, body: u64) -> (res: Option<u64>)
    requires
        body <= data@.len(),
    ensures
        match res {
            Some(at) => content(kind, data@, body as int) == Some(at as int),
            None => content(kind, data@, body as int) is None,
        },
{
    let left: u64 = data.len() as u64 - body;
    match kind {
        Kind::Meta => if left < 4 {
            None
        } else if read_u32(data, body as usize) == 0 {
            Some(body + 4)
        } else if left >= 8 && read_u32(data, body as usize + 4) == HDLR {
            Some(body)
        } else {
            None
        },
        Kind::Dref => if left < 8 {
            None
        } else {
            Some(body + 8)
        },
        _ => Some(body),
    }
}

/// The outcome of walking over the boxes of a box.
#[derive(Clone, Copy, Debug, PartialEq, Eq, Structural)]
pub enum Walk {
    /// There is a box that must not be read.
    Unreadable,
    /// There is something that ends the reading with an error.
    Stop,
    /// The boxes end at this position.
    At(u64),
}

/// The least size of a `hdlr` box.
pub const HDLR_SIZE: u64 = 33;

/// What is found of the `hdlr` box among the boxes of a `meta` box.
#[derive(Clone, Copy, Debug, PartialEq, Eq, Structural)]
pub enum Search {
    /// There is a box that must not be read.
    Unreadable,
    /// There is none, or something that ends the reading with an error.
    Stop,
    /// The handler that it names; that of the last one counts.
    Found(u32),
}

/// What is found of the `hdlr` box among the boxes of a `meta` box, where `found` is the handler that
/// has been found so far. Nothing but the `hdlr` box is read.
pub open spec fn search(data: Seq<u8>, pos: int, end: int, found: Option<u32>) -> Search
    decreases
            if pos <= data.len() {
                data.len() - pos
            } else {
                0
            },
{
    if pos >= end {
        match found {
            Some(handler) => Search::Found(handler),
            None => Search::Stop,
        }
    } else {
        match head(data, pos) {
            None => Search::Stop,
            Some(h) => {
                let next = h.start + h.size;
                if h.name == HDLR && (h.size < HDLR_SIZE || h.body + 12 > data.len()) {
                    Search::Stop
                } else if next <= pos || !end_fits(h) || h.name == HDLR && h.size > data.len() {
                    Search::Unreadable
                } else {
                    search(
                        data,
                        next,
                        end,
                        if h.name == HDLR {
                            Some(number_at(data, h.body + 8, 4) as u32)
                        } else {
                            found
                        },
                    )
                }
            },
        }
    }
}

/// What is found of the `hdlr` box among the boxes of a `meta` box.
fn search_handler(data: &Vec<u8>, pos: u64, end: u64) -> (res: Search)
    ensures
        res == search(data@, pos as int, end as int, None),
{
    let ghost outcome = search(data@, pos as int, end as int, None);
    let len: usize = data.len();
    let mut at: u64 = pos;
    let mut found: Option<u32> = None;
    while at < end
        invariant
            len == data@.len(),
            outcome == search(data@, pos as int, end as int, None),
            outcome == search(data@, at as int, end as int, found),
        decreases u64::MAX - at,
    {
        let h: BoxHead = match read_head(data, at) {
            Some(h) => h,
            None => return Search::Stop,
        };
        if h.name == HDLR && (h.size < HDLR_SIZE || len as u64 - h.body < 12) {
            return Search::Stop;
        }
        if h.size > u64::MAX - h.start || h.start + h.size <= at {
            return Search::Unreadable;
        }
        if h.name == HDLR {
            if h.size > len as u64 {
                return Search::Unreadable;
            }
            found = Some(read_u32(data, h.body as usize + 8));
        }
        at = h.start + h.size;
    }
    match found {
        Some(handler) => Search::Found(handler),
        None => Search::Stop,
    }
}

/// The outcome of walking over the counted boxes of a `dref` box. One of size 0 is read again for
/// each of those that are left.
pub open spec fn walk_dref(data: Seq<u8>, pos: int, end: int, size: int, count: nat) -> Walk
    decreases count,
{
    if count == 0 || pos >= end {
        Walk::At(end as u64)
    } else {
        match head(data, pos) {
            None => Walk::Stop,
            Some(h) => if h.size > size {
                Walk::Stop
            } else if h.size == 0 && count <= data.len() {
                Walk::At(end as u64)
            } else if h.size == 0 || !end_fits(h) || h.name == URL && h.size > data.len() {
                Walk::Unreadable
            } else {
                walk_dref(data, h.start + h.size, end, size, (count - 1) as nat)
            },
        }
    }
}

/// The outcome of walking over the counted boxes of a `dref` box.
fn walk_dref_boxes(data: &Vec<u8>, pos: u64, end: u64, size: u64, count: u32) -> (res: Walk)
    ensures
        res == walk_dref(data@, pos as int, end as int, size as int, count as nat),
{
    let ghost outcome = walk_dref(data@, pos as int, end as int, size as int, count as nat);
    let len: u64 = data.len() as u64;
    let mut at: u64 = pos;
    let mut left: u32 = count;
    while left > 0 && at < end
        invariant
            len == data@.len(),
            outcome == walk_dref(data@, pos as int, end as int, size as int, count as nat),
            outcome == walk_dref(data@, at as int, end as int, size as int, left as nat),
        decreases left,
    {
        let h: BoxHead = match read_head(data, at) {
            Some(h) => h,
            None => return Walk::Stop,
        };
        if h.size > size {
            return Walk::Stop;
        }
        if h.size == 0 && left as u64 <= len {
            return Walk::At(end);
        }
        if h.size == 0 || h.size > u64::MAX - h.start || (h.name == URL && h.size > len) {
            return Walk::Unreadable;
        }
        at = h.start + h.size;
        left = left - 1;
    }
    Walk::At(end)
}

/// Whether a box of size 0 ends the reading with an error, because it lacks what it has to hold.
pub open spec fn empty_fails(kind: Option<Kind>) -> bool {
    kind matches Some(kind) && !(kind is Udta || kind is Dref || kind is Ilst)
}

/// Whether the boxes of a box are held against its size.
pub open spec fn is_bounded(kind: Kind) -> bool {
    !(kind is Mdir || kind is Unknown)
}

/// The outcome of walking over the boxes from a position to the end of the box that holds them,
/// which is of a kind and has a size.
///
/// A box of size 0 would be read again and again.
pub open spec fn walk(kind: Kind, data: Seq<u8>, pos: int, end: int, size: int) -> Walk
    decreases
            if pos <= data.len() {
                data.len() - pos
            } else {
                0
            },
{
    if pos >= end {
        Walk::At(pos as u64)
    } else {
        match head(data, pos) {
            None => Walk::Stop,
            Some(h) => if h.size > size && is_bounded(kind) {
                Walk::Stop
            } else if h.size == 0 && empty_fails(child_kind(kind, h.name)) {
                Walk::Stop
            } else if kind is Mdia && h.name == HDLR && h.size < HDLR_SIZE {
                Walk::Stop
            } else if h.size == 0 || !box_fits(kind, data, h) {
                Walk::Unreadable
            } else {
                match walk_child(kind, data, pos, h) {
                    Walk::At(next) => if next <= pos {
                        Walk::Unreadable
                    } else {
                        walk(kind, data, next as int, end, size)
                    },
                    outcome => outcome,
                }
            },
        }
    }
}

/// The outcome of walking over a box inside another: where the next one starts.
///
/// The boxes of a `meta` box may go past its end, and the reading goes on behind them.
pub open spec fn walk_child(kind: Kind, data: Seq<u8>, pos: int, h: BoxHead) -> Walk
    decreases
            if pos < data.len() {
                data.len() - pos - 1
            } else {
                0
            },
    when 0 <= pos && pos + 8 <= h.body && pos + 8 <= data.len()
{
    let end = h.start + h.size;
    match child_kind(kind, h.name) {
        None => Walk::At(end as u64),
        Some(inner) => match content(inner, data, h.body as int) {
            None => Walk::Stop,
            Some(at) => if at < h.body {
                Walk::Stop
            } else if inner is Meta {
                match search(data, at, end, None) {
                    Search::Unreadable => Walk::Unreadable,
                    Search::Stop => Walk::Stop,
                    Search::Found(handler) => walk(
                        if handler == MDIR {
                            Kind::Mdir
                        } else {
                            Kind::Unknown
                        },
                        data,
                        at,
                        end,
                        h.size as int,
                    ),
                }
            } else if inner is Dref {
                walk_dref(data, at, end, h.size as int, number_at(data, h.body + 4, 4))
            } else {
                match walk(inner, data, at, end, h.size as int) {
                    Walk::At(_) => Walk::At(end as u64),
                    outcome => outcome,
                }
            },
        },
    }
}

/// The outcome of walking over the boxes from a position to the end of the box that holds them.
fn walk_boxes(kind: Kind, data: &Vec<u8>, pos: u64, end: u64, size: u64) -> (res: Walk)
    ensures
        res == walk(kind, data@, pos as int, end as int, size as int),
    decreases
            if pos <= data@.len() {
                data@.len() - pos
            } else {
                0
            },
{
    let ghost outcome = walk(kind, data@, pos as int, end as int, size as int);
    let mut at: u64 = pos;
    while at < end
        invariant
            data.len() == data@.len(),
            pos <= at,
            outcome == walk(kind, data@, pos as int, end as int, size as int),
            outcome == walk(kind, data@, at as int, end as int, size as int),
        decreases u64::MAX - at,
    {
        let h: BoxHead = match read_head(data, at) {
            Some(h) => h,
            None => return Walk::Stop,
        };
        if h.size > size && kind != Kind::Mdir && kind != Kind::Unknown {
            return Walk::Stop;
        }
        let inner: Option<Kind> = find_child_kind(kind, h.name);
        if h.size == 0 {
            return match inner {
                None | Some(Kind::Udta) | Some(Kind::Dref) | Some(Kind::Ilst) => {
                    if kind == Kind::Mdia && h.name == HDLR {
                        Walk::Stop
                    } else {
                        Walk::Unreadable
                    }
                },
                Some(_) => Walk::Stop,
            };
        }
        if kind == Kind::Mdia && h.name == HDLR && h.size < HDLR_SIZE {
            return Walk::Stop;
        }
        if !check_box(kind, data, h) {
            return Walk::Unreadable;
        }
        let box_end: u64 = h.start + h.size;
        let next: Walk = match inner {
            None => Walk::At(box_end),
            Some(inner) => match find_content(inner, data, h.body) {
                None => Walk::Stop,
                Some(body) => match inner {
                    Kind::Meta => match search_handler(data, body, box_end) {
                        Search::Unreadable => Walk::Unreadable,
                        Search::Stop => Walk::Stop,
                        Search::Found(handler) => {
                            let boxes: Kind = if handler == MDIR {
                                Kind::Mdir
                            } else {
                                Kind::Unknown
                            };
                            walk_boxes(boxes, data, body, box_end, h.size)
                        },
                    },
                    Kind::Dref => {
                        let count: u32 = read_u32(data, h.body as usize + 4);
                        walk_dref_boxes(data, body, box_end, h.size, count)
                    },
                    _ => match walk_boxes(inner, data, body, box_end, h.size) {
                        Walk::At(_) => Walk::At(box_end),
                        outcome => outcome,
                    },
                },
            },
        };
        assert(next == walk_child(kind, data@, at as int, h));
        match next {
            Walk::At(next) => {
                if next <= at {
                    return Walk::Unreadable;
                }
                at = next;
            },
            other => return other,
        }
    }
    Walk::At(at)
}

/// Whether a `moov` atom can be handed to the mp4 crate: on its way through the atom it meets no box
/// of size 0 that it would read again and again, none whose end cannot be named, none that it would
/// read into memory with more bytes than there are, and none that is too short for its kind.
pub open spec fn readable(data: Seq<u8>) -> bool {
    match head(data, 0) {
        None => true,
        Some(h) => !(walk(
            Kind::Moov,
            data,
            h.body as int,
            h.start + h.size,
            h.size as int,
        ) is Unreadable),
    }
}

/// Whether a `moov` atom can be handed to the mp4 crate.
pub fn is_readable(data: &Vec<u8>) -> (res: bool)
    ensures
        res == readable(data@),
{
    match read_head(data, 0) {
        None => true,
        Some(h) => {
            match walk_boxes(Kind::Moov, data, h.body, h.start + h.size, h.size) {
                Walk::Unreadable => false,
                _ => true,
            }
        },
    }
}

/// What is read of a `trak` box.
#[derive(Clone, Copy, Debug, PartialEq, Eq, Structural)]
pub struct Trak {
    pub track_id: u32,
    /// Whether its samples are described by an `avc1` box.
    pub avc1: bool,
    /// Whether its samples are described by an `mp4a` box.
    pub mp4a: bool,
}

/// What the mp4 crate reads from a `moov` atom: its `trak` boxes in their order, or the text of the
/// error.
pub uninterp spec fn moov_reading(data: Seq<u8>) -> Result<Seq<Trak>, Seq<char>>;

/// What has been read, or the text of the error.
pub open spec fn traks_view(read: Result<Vec<Trak>, String>) -> Result<Seq<Trak>, Seq<char>> {
    match read {
        Ok(traks) => Ok(traks@),
        Err(text) => Err(text@),
    }
}

/// `mp4::BoxHeader::read` and, with the size it gives, `mp4::MoovBox::read_box`: the `trak` boxes
/// of a `moov` atom, or the text of the error. The two depend on the bytes alone. They would never
/// come back from a box of size 0, and panic where a box is too short for what is subtracted from
/// its size or asks for more memory than there is; such atoms are not `readable`.
#[verifier::external_body]
fn read_moov(data: &Vec<u8>) -> (res: Result<Vec<Trak>, String>)
    requires
        readable(data@),
    ensures
        traks_view(res) == moov_reading(data@),
{
    let mut reader = Cursor::new(data);
    let header = mp4::BoxHeader::read(&mut reader).map_err(|err| err.to_string())?;
    let moov = mp4::MoovBox::read_box(&mut reader, header.size).map_err(|err| err.to_string())?;
    let traks = moov.traks.iter().map(|trak| Trak {
        track_id: trak.tkhd.track_id,
        avc1: trak.mdia.minf.stbl.stsd.avc1.is_some(),
        mp4a: trak.mdia.minf.stbl.stsd.mp4a.is_some(),
    });
    Ok(traks.collect())
}

/// The `trak` boxes of a `moov` atom, or the text of the error. `None` for an atom that is not
/// `readable`.
pub fn read_traks(data: &Vec<u8>) -> (res: Option<Result<Vec<Trak>, String>>)
    ensures
        res is Some <==> readable(data@),
        res matches Some(read) ==> traks_view(read) == moov_reading(data@),
{
    if is_readable(data) {
        Some(read_moov(data))
    } else {
        None
    }
}

} // verus!
