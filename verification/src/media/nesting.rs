//! What holds of the boxes of a `moov` atom, in terms of how they stand one behind the other and one
//! inside the other.
use super::boxes::child_kind;
use super::boxes::content;
use super::boxes::head;
use super::boxes::number_at;
use super::boxes::readable;
use super::boxes::search;
use super::boxes::walk;
use super::boxes::walk_child;
use super::boxes::walk_dref;
use super::boxes::BoxHead;
use super::boxes::Kind;
use super::boxes::Search;
use super::boxes::Walk;
use super::boxes::DATA;
use super::boxes::HDLR;
use vstd::prelude::*;

verus! {

/// Whether boxes stand one behind the other from a position to an end, each with a size of at least its
/// header, and those of a kind that holds boxes do so inside as well. The `data` box of an item has room
/// for its own fields.
pub open spec fn well_nested(kind: Kind, data: Seq<u8>, pos: int, end: int) -> bool
    decreases
            if pos <= data.len() {
                data.len() - pos
            } else {
                0
            },
{
    pos == end || (head(data, pos) matches Some(h) && {
        let next = h.start + h.size;
        &&& 0 <= pos < next <= end <= data.len()
        &&& h.size >= 8
        &&& kind is Item && h.name == DATA ==> h.size >= 16
        &&& child_kind(kind, h.name) matches Some(inner) ==> (content(inner, data, h.body as int)
            matches Some(at) ==> pos < at <= next && well_nested(inner, data, at, next) && (
        inner is Meta ==> well_nested(Kind::Mdir, data, at, next) && well_nested(
            Kind::Unknown,
            data,
            at,
            next,
        )))
        &&& well_nested(kind, data, next, end)
    })
}

proof fn lemma_search(kind: Kind, data: Seq<u8>, pos: int, end: int, found: Option<u32>)
    requires
        data.len() <= isize::MAX,
        well_nested(kind, data, pos, end),
    ensures
        !(search(data, pos, end, found) is Unreadable),
    decreases
            if pos <= data.len() {
                data.len() - pos
            } else {
                0
            },
{
    if pos != end {
        let h = head(data, pos)->0;
        let next = h.start + h.size;
        lemma_search(kind, data, next, end, found);
        lemma_search(kind, data, next, end, Some(number_at(data, h.body + 8, 4) as u32));
    }
}

proof fn lemma_walk_dref(data: Seq<u8>, pos: int, end: int, size: int, count: nat)
    requires
        data.len() <= isize::MAX,
        0 <= end <= data.len(),
        well_nested(Kind::Dref, data, pos, end),
    ensures
        walk_dref(data, pos, end, size, count) is Stop || walk_dref(data, pos, end, size, count)
            == Walk::At(end as u64),
    decreases count,
{
    if count > 0 && pos != end {
        let h = head(data, pos)->0;
        lemma_walk_dref(data, h.start + h.size, end, size, (count - 1) as nat);
    }
}

proof fn lemma_walk_child(kind: Kind, data: Seq<u8>, pos: int, end: int, h: BoxHead)
    requires
        data.len() <= isize::MAX,
        pos != end,
        well_nested(kind, data, pos, end),
        head(data, pos) == Some(h),
    ensures
        walk_child(kind, data, pos, h) is Stop || walk_child(kind, data, pos, h) == Walk::At(
            (h.start + h.size) as u64,
        ),
    decreases
            if pos < data.len() {
                data.len() - pos - 1
            } else {
                0
            },
            0int,
{
    let next = h.start + h.size;
    if let Some(inner) = child_kind(kind, h.name) {
        if let Some(at) = content(inner, data, h.body as int) {
            let count = number_at(data, h.body + 4, 4);
            if inner is Meta {
                lemma_search(inner, data, at, next, None);
                lemma_walk(Kind::Mdir, data, at, next, h.size as int);
                lemma_walk(Kind::Unknown, data, at, next, h.size as int);
            } else if inner is Dref {
                lemma_walk_dref(data, at, next, h.size as int, count);
            } else {
                lemma_walk(inner, data, at, next, h.size as int);
            }
        }
    }
}

proof fn lemma_walk(kind: Kind, data: Seq<u8>, pos: int, end: int, size: int)
    requires
        data.len() <= isize::MAX,
        0 <= pos <= end <= data.len(),
        well_nested(kind, data, pos, end),
    ensures
        walk(kind, data, pos, end, size) is Stop || walk(kind, data, pos, end, size) == Walk::At(
            end as u64,
        ),
    decreases
            if pos <= data.len() {
                data.len() - pos
            } else {
                0
            },
            1int,
{
    if pos != end {
        let h = head(data, pos)->0;
        lemma_walk_child(kind, data, pos, end, h);
        lemma_walk(kind, data, h.start + h.size, end, size);
    }
}

/// An atom whose boxes stand one behind the other, and one inside the other, can be read.
pub proof fn well_nested_atom_is_readable(data: Seq<u8>, h: BoxHead)
    requires
        data.len() <= isize::MAX,
        head(data, 0) == Some(h),
        h.body <= h.start + h.size <= data.len(),
        well_nested(Kind::Moov, data, h.body as int, h.start + h.size),
    ensures
        readable(data),
{
    lemma_walk(Kind::Moov, data, h.body as int, h.start + h.size, h.size as int);
}

/// A box of size 0 that holds no boxes itself is not read where it stands in a box that is: it would be
/// read again and again. The `hdlr` box of an `mdia` box is too short before that.
pub proof fn endless_box_is_not_read(
    kind: Kind,
    data: Seq<u8>,
    pos: int,
    end: int,
    size: int,
    h: BoxHead,
)
    requires
        pos < end,
        size >= 0,
        head(data, pos) == Some(h),
        h.size == 0,
        child_kind(kind, h.name) is None,
        kind is Mdia ==> h.name != HDLR,
    ensures
        walk(kind, data, pos, end, size) is Unreadable,
{
}

/// A box that is read into memory is not read where it says to be longer than all the data: a box of an
/// unknown handler, or the `data` box of an item. Neither is a box whose end is beyond all numbers.
pub proof fn overlong_box_is_not_read(
    kind: Kind,
    data: Seq<u8>,
    pos: int,
    end: int,
    size: int,
    h: BoxHead,
)
    requires
        pos < end,
        head(data, pos) == Some(h),
        0 < h.size <= size,
        kind is Mdia ==> h.name != HDLR,
        h.start + h.size > u64::MAX || (h.size > data.len() && h.name != HDLR && kind is Unknown)
            || (h.size > data.len() && h.name == DATA && kind is Item),
    ensures
        walk(kind, data, pos, end, size) is Unreadable,
{
}

/// What is inside a box that can be reached is looked at as well: where it must not be read, neither must
/// what holds it.
pub proof fn what_is_inside_matters(
    kind: Kind,
    data: Seq<u8>,
    pos: int,
    end: int,
    size: int,
    h: BoxHead,
    inner: Kind,
)
    requires
        data.len() <= isize::MAX,
        0 <= pos < end,
        head(data, pos) == Some(h),
        0 < h.size <= size,
        h.start + h.size <= data.len(),
        child_kind(kind, h.name) == Some(inner),
        !(inner is Meta || inner is Dref),
        walk(inner, data, h.body as int, h.start + h.size, h.size as int) is Unreadable,
    ensures
        walk(kind, data, pos, end, size) is Unreadable,
{
    reveal_with_fuel(walk, 2);
    reveal_with_fuel(walk_child, 2);
}

/// A box that holds no boxes, and stands within the data, is stepped over.
pub proof fn plain_box_is_stepped_over(
    kind: Kind,
    data: Seq<u8>,
    pos: int,
    end: int,
    size: int,
    h: BoxHead,
)
    requires
        data.len() <= isize::MAX,
        0 <= pos < end,
        head(data, pos) == Some(h),
        8 <= h.size <= size,
        pos < h.start + h.size <= data.len(),
        child_kind(kind, h.name) is None,
        kind is Mdia ==> h.name != HDLR,
        kind is Item ==> h.name != DATA,
    ensures
        walk(kind, data, pos, end, size) == walk(kind, data, h.start + h.size, end, size),
{
    reveal_with_fuel(walk, 2);
    reveal_with_fuel(walk_child, 2);
}

/// Which boxes hold boxes is told by their names, and by those of the boxes that they stand in.
pub proof fn names_tell_which_boxes_hold_boxes(name: u32)
    ensures
        child_kind(Kind::Moov, name) is Some <==> name == 0x6d766578 || name == 0x7472616b || name
            == 0x75647461 || name == 0x6d657461,
        child_kind(Kind::Moov, 0x6d766578) == Some(Kind::Mvex),
        child_kind(Kind::Moov, 0x7472616b) == Some(Kind::Trak),
        child_kind(Kind::Moov, 0x75647461) == Some(Kind::Udta),
        child_kind(Kind::Moov, 0x6d657461) == Some(Kind::Meta),
        child_kind(Kind::Trak, name) is Some <==> name == 0x6d646961 || name == 0x6d657461,
        child_kind(Kind::Trak, 0x6d646961) == Some(Kind::Mdia),
        child_kind(Kind::Trak, 0x6d657461) == Some(Kind::Meta),
        child_kind(Kind::Mdia, name) is Some <==> name == 0x6d696e66,
        child_kind(Kind::Mdia, 0x6d696e66) == Some(Kind::Minf),
        child_kind(Kind::Minf, name) is Some <==> name == 0x64696e66 || name == 0x7374626c,
        child_kind(Kind::Minf, 0x64696e66) == Some(Kind::Dinf),
        child_kind(Kind::Minf, 0x7374626c) == Some(Kind::Stbl),
        child_kind(Kind::Dinf, name) is Some <==> name == 0x64726566,
        child_kind(Kind::Dinf, 0x64726566) == Some(Kind::Dref),
        child_kind(Kind::Udta, name) is Some <==> name == 0x6d657461,
        child_kind(Kind::Udta, 0x6d657461) == Some(Kind::Meta),
        child_kind(Kind::Mdir, name) is Some <==> name == 0x696c7374,
        child_kind(Kind::Mdir, 0x696c7374) == Some(Kind::Ilst),
        child_kind(Kind::Ilst, name) is Some <==> name == 0xa96e616d || name == 0xa9646179 || name
            == 0x636f7672 || name == 0x64657363,
        child_kind(Kind::Ilst, name) matches Some(inner) ==> inner is Item,
        child_kind(Kind::Mvex, name) is None,
        child_kind(Kind::Stbl, name) is None,
        child_kind(Kind::Unknown, name) is None,
        child_kind(Kind::Item, name) is None,
{
}

/// A header gives the size in its first four bytes and the name in the next four. Where these say 1, the
/// size stands in the eight bytes behind, and is counted from the name on.
pub proof fn header_gives_size_and_name(data: Seq<u8>, pos: int, h: BoxHead)
    requires
        0 <= pos,
        data.len() <= isize::MAX,
        head(data, pos) == Some(h),
    ensures
        h.name == number_at(data, pos + 4, 4) as u32,
        number_at(data, pos, 4) != 1 ==> h.size == number_at(data, pos, 4) as u64 && h.start == pos
            && h.body == pos + 8,
        number_at(data, pos, 4) == 1 ==> h.start == pos + 8 && h.body == pos + 16,
        number_at(data, pos, 4) == 1 && 16 <= number_at(data, pos + 8, 8) <= u64::MAX ==> h.size + 8
            == number_at(data, pos + 8, 8),
        h.body <= data.len(),
{
}

/// A table of samples that says to have more entries than there are bytes is not read where its box says
/// to be longer than the data as well.
pub proof fn overlong_table_is_not_read(data: Seq<u8>, pos: int, end: int, size: int, h: BoxHead)
    requires
        0 <= pos < end,
        head(data, pos) == Some(h),
        data.len() < h.size <= size,
        h.body + 8 <= data.len(),
        number_at(data, h.body + 4, 4) > data.len(),
        h.name == 0x73747473 || h.name == 0x63747473 || h.name == 0x73747373 || h.name == 0x73747363
            || h.name == 0x7374636f || h.name == 0x636f3634,
    ensures
        walk(Kind::Stbl, data, pos, end, size) is Unreadable,
{
}

/// Of the boxes of a `meta` box, the handler that the last `hdlr` box names is found, in the third four
/// bytes of its body. Other boxes are stepped over.
pub proof fn handler_is_found_in_hdlr(
    data: Seq<u8>,
    pos: int,
    end: int,
    found: Option<u32>,
    h: BoxHead,
)
    requires
        data.len() <= isize::MAX,
        0 <= pos < end,
        head(data, pos) == Some(h),
        pos < h.start + h.size <= data.len(),
        h.name == 0x68646c72 ==> h.size >= 33,
    ensures
        h.name != 0x68646c72 ==> search(data, pos, end, found) == search(
            data,
            h.start + h.size,
            end,
            found,
        ),
        h.name == 0x68646c72 ==> search(data, pos, end, found) == search(
            data,
            h.start + h.size,
            end,
            Some(number_at(data, h.body + 8, 4) as u32),
        ),
{
    reveal_with_fuel(search, 2);
}

/// At the end of the boxes of a `meta` box, the handler is the one that was found, and there has to be
/// one.
pub proof fn handler_is_told_at_the_end(data: Seq<u8>, pos: int, end: int, handler: u32)
    requires
        pos >= end,
    ensures
        search(data, pos, end, Some(handler)) == Search::Found(handler),
        search(data, pos, end, None) == Search::Stop,
{
}

/// The boxes of a `dref` box start behind its eight bytes of fields. Those of a `meta` box start behind its
/// four bytes of fields where these are 0, or at once where a `hdlr` box stands there. Those of all other
/// boxes start at once.
pub proof fn boxes_start_behind_the_fields(kind: Kind, data: Seq<u8>, body: int)
    requires
        0 <= body,
    ensures
        content(Kind::Dref, data, body) == if body + 8 <= data.len() {
            Some(body + 8)
        } else {
            None
        },
        body + 4 > data.len() ==> content(Kind::Meta, data, body) is None,
        body + 4 <= data.len() && number_at(data, body, 4) == 0 ==> content(Kind::Meta, data, body)
            == Some(body + 4),
        body + 8 <= data.len() && number_at(data, body, 4) != 0 ==> content(Kind::Meta, data, body)
            == if number_at(data, body + 4, 4) == 0x68646c72 {
            Some(body)
        } else {
            None
        },
        !(kind is Dref || kind is Meta) ==> content(kind, data, body) == Some(body),
{
}

/// A box that says to be longer than the one that holds it ends the reading, unless that one is a `meta`
/// box.
pub proof fn box_longer_than_its_holder_ends_the_reading(
    kind: Kind,
    data: Seq<u8>,
    pos: int,
    end: int,
    size: int,
    h: BoxHead,
)
    requires
        pos < end,
        head(data, pos) == Some(h),
        h.size > size,
        !(kind is Mdir || kind is Unknown),
    ensures
        walk(kind, data, pos, end, size) is Stop,
{
}

/// A box of size 0 that holds boxes lacks what it has to hold, which ends the reading. A `udta`, a `dref`
/// and an `ilst` box have to hold nothing, and would be read again and again.
pub proof fn empty_box_lacks_what_it_has_to_hold(
    kind: Kind,
    data: Seq<u8>,
    pos: int,
    end: int,
    size: int,
    h: BoxHead,
    inner: Kind,
)
    requires
        pos < end,
        size >= 0,
        head(data, pos) == Some(h),
        h.size == 0,
        child_kind(kind, h.name) == Some(inner),
    ensures
        !(inner is Udta || inner is Dref || inner is Ilst) ==> walk(
            kind,
            data,
            pos,
            end,
            size,
        ) is Stop,
        inner is Udta || inner is Dref || inner is Ilst ==> walk(
            kind,
            data,
            pos,
            end,
            size,
        ) is Unreadable,
{
}

/// A box is not read where it is shorter than what is subtracted from its size: the header of a box of an
/// unknown handler, the header and the fields of the `data` box of an item. A `hdlr` box that is too short
/// ends the reading, and one that says to be longer than all the data is not read.
pub proof fn short_box_is_not_read(
    kind: Kind,
    data: Seq<u8>,
    pos: int,
    end: int,
    size: int,
    h: BoxHead,
)
    requires
        pos < end,
        head(data, pos) == Some(h),
        0 < h.size <= size,
    ensures
        kind is Unknown && h.name != 0x68646c72 && h.size < 8 ==> walk(
            kind,
            data,
            pos,
            end,
            size,
        ) is Unreadable,
        kind is Item && h.name == 0x64617461 && h.size < 16 ==> walk(
            kind,
            data,
            pos,
            end,
            size,
        ) is Unreadable,
        kind is Mdia && h.name == 0x68646c72 && h.size < 33 ==> walk(
            kind,
            data,
            pos,
            end,
            size,
        ) is Stop,
        kind is Mdia && h.name == 0x68646c72 && h.size >= 33 && h.size > data.len() ==> walk(
            kind,
            data,
            pos,
            end,
            size,
        ) is Unreadable,
{
}

/// The description of samples is not read where its end is beyond all numbers, and neither is one with a
/// box for the codec of which that holds. That box stands behind 78 bytes of a description of video, and
/// behind 28 bytes of one of audio.
pub proof fn endless_description_is_not_read(
    data: Seq<u8>,
    pos: int,
    end: int,
    size: int,
    h: BoxHead,
    entry: BoxHead,
    codec: BoxHead,
)
    requires
        pos < end,
        head(data, pos) == Some(h),
        h.name == 0x73747364,
        0 < h.size <= size,
        head(data, h.body + 8) == Some(entry),
        entry.size <= h.size,
    ensures
        ({
            let avc = entry.name == 0x61766331;
            let hevc = entry.name == 0x68657631;
            let vp9 = entry.name == 0x76703039;
            let aac = entry.name == 0x6d703461;
            let text = entry.name == 0x74783367;
            let video = head(data, entry.body + 78) == Some(codec);
            let audio = head(data, entry.body + 28) == Some(codec) && entry.body + 28 < entry.start
                + entry.size;
            let endless = codec.size <= entry.size && codec.start + codec.size > u64::MAX;
            let unread = walk(Kind::Stbl, data, pos, end, size) is Unreadable;
            &&& (avc || hevc || vp9 || aac || text) && entry.start + entry.size > u64::MAX ==> unread
            &&& avc && video && codec.name == 0x61766343 && endless ==> unread
            &&& hevc && video && codec.name == 0x68766343 && endless ==> unread
            &&& vp9 && video && endless ==> unread
            &&& aac && audio && codec.name == 0x65736473 && endless ==> unread
        }),
{
}

/// The list of edits is not read where its end is beyond all numbers, or where it says to have more entries
/// than there are bytes and its box says to be longer than the data as well.
pub proof fn endless_edits_are_not_read(
    data: Seq<u8>,
    pos: int,
    end: int,
    size: int,
    h: BoxHead,
    list: BoxHead,
)
    requires
        pos < end,
        head(data, pos) == Some(h),
        h.name == 0x65647473,
        0 < h.size <= size,
        head(data, h.body as int) == Some(list),
        list.name == 0x656c7374,
        list.size <= h.size,
        list.start + list.size > u64::MAX || (list.size > data.len() && list.body + 8 <= data.len()
            && number_at(data, list.body + 4, 4) > data.len()),
    ensures
        walk(Kind::Trak, data, pos, end, size) is Unreadable,
{
}

/// A table of the sizes of samples is not read where the samples differ in size, it says to have more
/// entries than there are bytes, and its box says to be longer than the data.
pub proof fn overlong_sizes_are_not_read(data: Seq<u8>, pos: int, end: int, size: int, h: BoxHead)
    requires
        pos < end,
        head(data, pos) == Some(h),
        h.name == 0x7374737a,
        data.len() < h.size <= size,
        h.body + 12 <= data.len(),
        number_at(data, h.body + 4, 4) == 0,
        number_at(data, h.body + 8, 4) > data.len(),
    ensures
        walk(Kind::Stbl, data, pos, end, size) is Unreadable,
{
}

/// Of the boxes of a `dref` box as many are read as it counts, one behind the other, and no further than
/// its end. One that says to be longer than it ends the reading. One of size 0 is read again for each that
/// is left, which is given up where these are more than the bytes of the data. The `url` box is not read
/// where it says to be longer than all the data.
pub proof fn references_are_counted(
    data: Seq<u8>,
    pos: int,
    end: int,
    size: int,
    count: nat,
    h: BoxHead,
)
    requires
        data.len() <= isize::MAX,
        0 <= pos < end <= u64::MAX,
        count > 0,
        head(data, pos) == Some(h),
    ensures
        walk_dref(data, pos, end, size, 0) == Walk::At(end as u64),
        walk_dref(data, end, end, size, count) == Walk::At(end as u64),
        h.size > size ==> walk_dref(data, pos, end, size, count) is Stop,
        h.size == 0 && size >= 0 && count <= data.len() ==> walk_dref(data, pos, end, size, count)
            == Walk::At(end as u64),
        h.size == 0 && size >= 0 && count > data.len() ==> walk_dref(
            data,
            pos,
            end,
            size,
            count,
        ) is Unreadable,
        0 < h.size <= size && h.start + h.size <= data.len() ==> walk_dref(
            data,
            pos,
            end,
            size,
            count,
        ) == walk_dref(data, h.start + h.size, end, size, (count - 1) as nat),
        0 < h.size <= size && h.name == 0x75726c20 && h.size > data.len() ==> walk_dref(
            data,
            pos,
            end,
            size,
            count,
        ) is Unreadable,
{
    reveal_with_fuel(walk_dref, 2);
}

/// The boxes of a `meta` box are read as its handler asks: those of the handler `mdir` hold a list of items,
/// those of another one are read as a whole. Without a handler the reading ends.
pub proof fn handler_decides_how_meta_is_read(
    kind: Kind,
    data: Seq<u8>,
    pos: int,
    h: BoxHead,
    at: int,
    handler: u32,
)
    requires
        0 <= pos,
        head(data, pos) == Some(h),
        data.len() <= isize::MAX,
        child_kind(kind, h.name) == Some(Kind::Meta),
        content(Kind::Meta, data, h.body as int) == Some(at),
    ensures
        ({
            let end = h.start + h.size;
            let found = search(data, at, end, None);
            &&& found == Search::Found(handler) && handler == 0x6d646972 ==> walk_child(
                kind,
                data,
                pos,
                h,
            ) == walk(Kind::Mdir, data, at, end, h.size as int)
            &&& found == Search::Found(handler) && handler != 0x6d646972 ==> walk_child(
                kind,
                data,
                pos,
                h,
            ) == walk(Kind::Unknown, data, at, end, h.size as int)
            &&& found is Stop ==> walk_child(kind, data, pos, h) is Stop
            &&& found is Unreadable ==> walk_child(kind, data, pos, h) is Unreadable
        }),
{
    reveal_with_fuel(walk, 2);
    reveal_with_fuel(walk_child, 2);
}

} // verus!
