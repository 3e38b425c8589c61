//! The media that is received: which tracks it has, and which of them are played.
pub mod boxes;
pub mod laws;
pub mod nesting;

use crate::coding::tuple::path_text;
use crate::coding::tuple::Tuple;
use crate::text::decimal;
use crate::text::decimal_text;
use boxes::number_at;
use boxes::read_traks;
use boxes::read_u32;
use boxes::read_u64;
use boxes::moov_reading;
use boxes::readable;
use boxes::Trak;
use vstd::prelude::*;
use vstd::slice::slice_subrange;
use vstd::slice::slice_to_vec;

verus! {

/// The name of the track with the init segment.
pub fn init_track() -> (res: &'static str)
    ensures
        res@ == "0.mp4"@,
{
    "0.mp4"
}

/// What is wrong with an init segment.
#[derive(Debug)]
pub enum MediaError {
    /// It ends within the header of an atom.
    UnexpectedEnd,
    /// The size of an atom is less than that of its header.
    ImpossibleSize(u64),
    /// The extended size of an atom is less than that of its header.
    ImpossibleExtendedSize(u64),
    ExpectedFtyp,
    ExpectedMoov,
    /// The boxes of the `moov` atom cannot be read.
    Unreadable,
    /// The `moov` atom is not what it should be, for this reason.
    Moov(String),
}

impl MediaError {
    /// The error in words.
    pub open spec fn reason_spec(&self) -> Seq<char> {
        match self {
            MediaError::UnexpectedEnd => "early eof"@,
            MediaError::ImpossibleSize(size) => "impossible box size: "@ + decimal_text(
                *size as nat,
            ),
            MediaError::ImpossibleExtendedSize(size) => "impossible extended box size: "@
                + decimal_text(*size as nat),
            MediaError::ExpectedFtyp => "expected ftyp atom"@,
            MediaError::ExpectedMoov => "expected moov atom"@,
            MediaError::Unreadable => "unreadable moov atom"@,
            MediaError::Moov(reason) => reason@,
        }
    }

    /// The error in words.
    pub fn reason(&self) -> (res: String)
        ensures
            res@ == self.reason_spec(),
    {
        match self {
            MediaError::UnexpectedEnd => String::from_str("early eof"),
            MediaError::ImpossibleSize(size) => {
                let number: String = decimal(*size);
                String::from_str("impossible box size: ").concat(number.as_str())
            },
            MediaError::ImpossibleExtendedSize(size) => {
                let number: String = decimal(*size);
                String::from_str("impossible extended box size: ").concat(number.as_str())
            },
            MediaError::ExpectedFtyp => String::from_str("expected ftyp atom"),
            MediaError::ExpectedMoov => String::from_str("expected moov atom"),
            MediaError::Unreadable => String::from_str("unreadable moov atom"),
            MediaError::Moov(reason) => reason.clone(),
        }
    }
}

/// The length of the atom that some data starts with. It may be longer than the data, and takes all
/// of it where its size is given as 0.
pub open spec fn atom_len(s: Seq<u8>) -> Result<nat, MediaError> {
    if s.len() < 8 {
        Err(MediaError::UnexpectedEnd)
    } else {
        let size = number_at(s, 0, 4);
        if size == 0 {
            Ok(s.len())
        } else if size == 1 {
            if s.len() < 16 {
                Err(MediaError::UnexpectedEnd)
            } else {
                let size = number_at(s, 8, 8);
                if size < 16 {
                    Err(MediaError::ImpossibleExtendedSize(size as u64))
                } else {
                    Ok(size)
                }
            }
        } else if size < 8 {
            Err(MediaError::ImpossibleSize(size as u64))
        } else {
            Ok(size)
        }
    }
}

/// The atom that some data starts with, as far as it is there, and what comes behind it.
pub open spec fn atom_reading(s: Seq<u8>) -> Result<(Seq<u8>, Seq<u8>), MediaError> {
    match atom_len(s) {
        Ok(n) => if n < s.len() {
            Ok((s.take(n as int), s.skip(n as int)))
        } else {
            Ok((s, Seq::empty()))
        },
        Err(err) => Err(err),
    }
}

/// Reads a full MP4 atom, as far as it is there. Gives the atom, and what comes behind it.
pub fn read_atom(data: &Vec<u8>) -> (res: Result<(Vec<u8>, Vec<u8>), MediaError>)
    ensures
        match res {
            Ok((atom, rest)) => atom_reading(data@) == Ok::<(Seq<u8>, Seq<u8>), MediaError>(
                (atom@, rest@),
            ),
            Err(err) => atom_reading(data@) == Err::<(Seq<u8>, Seq<u8>), MediaError>(err),
        },
        res matches Ok((atom, rest)) ==> atom@.len() >= 8,
{
    let len: usize = data.len();
    // Read the 8 bytes for the size + type
    if len < 8 {
        return Err(MediaError::UnexpectedEnd);
    }
    let size: u32 = read_u32(data, 0);
    let atom_len: u64 = if size == 0 {
        // Runs until the end of the data.
        len as u64
    } else if size == 1 {
        // The next 8 bytes are the extended size to be used instead.
        if len < 16 {
            return Err(MediaError::UnexpectedEnd);
        }
        let size_large: u64 = read_u64(data, 8);
        if size_large < 16 {
            return Err(MediaError::ImpossibleExtendedSize(size_large));
        }
        size_large
    } else if size < 8 {
        return Err(MediaError::ImpossibleSize(size as u64));
    } else {
        size as u64
    };
    if atom_len < len as u64 {
        let n: usize = atom_len as usize;
        let atom: Vec<u8> = slice_to_vec(slice_subrange(data.as_slice(), 0, n));
        let rest: Vec<u8> = slice_to_vec(slice_subrange(data.as_slice(), n, len));
        assert(atom@ =~= data@.take(n as int));
        assert(rest@ =~= data@.skip(n as int));
        Ok((atom, rest))
    } else {
        Ok((slice_to_vec(data.as_slice()), Vec::new()))
    }
}

/// The atoms that data starts with are the data again, one behind the other.
pub proof fn atoms_make_up_the_data(s: Seq<u8>)
    requires
        atom_reading(s) is Ok,
    ensures
        atom_reading(s)->Ok_0.0 + atom_reading(s)->Ok_0.1 == s,
        atom_reading(s)->Ok_0.0.len() >= 8,
{
    let (atom, rest) = atom_reading(s)->Ok_0;
    assert(atom + rest =~= s);
}

pub const FTYP: u32 = 0x66747970;

pub const MOOV: u32 = 0x6d6f6f76;

/// The type of an atom.
pub open spec fn atom_type(atom: Seq<u8>) -> nat {
    number_at(atom, 4, 4)
}

/// The `moov` atom of an init segment, which stands behind its `ftyp` atom.
pub open spec fn init_moov(s: Seq<u8>) -> Result<Seq<u8>, MediaError> {
    match atom_reading(s) {
        Err(err) => Err(err),
        Ok((ftyp, rest)) => if atom_type(ftyp) != FTYP {
            Err(MediaError::ExpectedFtyp)
        } else {
            match atom_reading(rest) {
                Err(err) => Err(err),
                Ok((moov, _)) => if atom_type(moov) != MOOV {
                    Err(MediaError::ExpectedMoov)
                } else {
                    Ok(moov)
                },
            }
        },
    }
}

/// The `moov` atom of an init segment, which stands behind its `ftyp` atom.
pub fn find_moov(data: &Vec<u8>) -> (res: Result<Vec<u8>, MediaError>)
    ensures
        match res {
            Ok(moov) => init_moov(data@) == Ok::<Seq<u8>, MediaError>(moov@),
            Err(err) => init_moov(data@) == Err::<Seq<u8>, MediaError>(err),
        },
{
    let (ftyp, rest): (Vec<u8>, Vec<u8>) = match read_atom(data) {
        Ok(read) => read,
        Err(err) => return Err(err),
    };
    if read_u32(&ftyp, 4) != FTYP {
        return Err(MediaError::ExpectedFtyp);
    }
    let (moov, _): (Vec<u8>, Vec<u8>) = match read_atom(&rest) {
        Ok(read) => read,
        Err(err) => return Err(err),
    };
    if read_u32(&moov, 4) != MOOV {
        return Err(MediaError::ExpectedMoov);
    }
    Ok(moov)
}

/// The names of the tracks of an init segment that are played.
pub fn read_init(data: &Vec<u8>) -> (res: Result<Vec<String>, MediaError>)
    ensures
        match init_moov(data@) {
            Err(err) => res == Err::<Vec<String>, MediaError>(err),
            Ok(moov) => if !readable(moov) {
                res == Err::<Vec<String>, MediaError>(MediaError::Unreadable)
            } else {
                match moov_reading(moov) {
                    Ok(traks) => {
                        &&& res matches Ok(names)
                        &&& texts(names@) == selected(traks, traks.len())
                    },
                    Err(text) => {
                        &&& res matches Err(MediaError::Moov(reason))
                        &&& reason@ == text
                    },
                }
            },
        },
{
    let moov: Vec<u8> = match find_moov(data) {
        Ok(moov) => moov,
        Err(err) => return Err(err),
    };
    match read_traks(&moov) {
        None => Err(MediaError::Unreadable),
        Some(Err(text)) => Err(MediaError::Moov(text)),
        Some(Ok(traks)) => Ok(select_tracks(&traks)),
    }
}

/// The text of strings.
pub open spec fn texts(strings: Seq<String>) -> Seq<Seq<char>> {
    strings.map_values(|s: String| s@)
}

/// The name of the track of a `trak` box.
pub open spec fn track_name(trak: Trak) -> Seq<char> {
    decimal_text(trak.track_id as nat) + ".m4s"@
}

/// Whether a `trak` box is the first one with video.
pub open spec fn first_video(traks: Seq<Trak>, i: int) -> bool {
    traks[i].avc1 && forall|j: int| 0 <= j < i ==> !(#[trigger] traks[j]).avc1
}

/// Whether a `trak` box is the first one with audio.
pub open spec fn first_audio(traks: Seq<Trak>, i: int) -> bool {
    traks[i].mp4a && forall|j: int| 0 <= j < i ==> !(#[trigger] traks[j]).mp4a
}

/// The names of the tracks among the first `trak` boxes that are played: the first one with video,
/// and the first one with audio.
pub open spec fn selected(traks: Seq<Trak>, n: nat) -> Seq<Seq<char>>
    decreases n,
{
    if n == 0 {
        Seq::empty()
    } else {
        let before = selected(traks, (n - 1) as nat);
        if first_video(traks, n - 1) || first_audio(traks, n - 1) {
            before.push(track_name(traks[n - 1]))
        } else {
            before
        }
    }
}

/// The names of the tracks that are played: the first one with video, and the first one with audio.
pub fn select_tracks(traks: &Vec<Trak>) -> (res: Vec<String>)
    ensures
        texts(res@) == selected(traks@, traks@.len()),
{
    let mut has_video: bool = false;
    let mut has_audio: bool = false;
    let mut names: Vec<String> = Vec::new();
    let mut i: usize = 0;
    assert(texts(names@) =~= selected(traks@, 0));
    while i < traks.len()
        invariant
            i <= traks@.len(),
            has_video == exists|j: int| 0 <= j < i && (#[trigger] traks@[j]).avc1,
            has_audio == exists|j: int| 0 <= j < i && (#[trigger] traks@[j]).mp4a,
            texts(names@) == selected(traks@, i as nat),
        decreases traks@.len() - i,
    {
        let trak: Trak = traks[i];
        let mut active: bool = false;
        if !has_video && trak.avc1 {
            active = true;
            has_video = true;
        }
        if !has_audio && trak.mp4a {
            active = true;
            has_audio = true;
        }
        assert(active == (first_video(traks@, i as int) || first_audio(traks@, i as int)));
        if active {
            let name: String = decimal(trak.track_id as u64).concat(".m4s");
            let ghost before = names@;
            names.push(name);
            assert(texts(names@) =~= texts(before).push(name@));
        }
        i = i + 1;
    }
    names
}

/// At most two tracks are played.
pub proof fn at_most_two_tracks(traks: Seq<Trak>, n: nat)
    requires
        n <= traks.len(),
    ensures
        selected(traks, n).len() <= 2,
        selected(traks, n).len() <= (if exists|j: int| 0 <= j < n && (#[trigger] traks[j]).avc1 {
            1nat
        } else {
            0
        }) + (if exists|j: int| 0 <= j < n && (#[trigger] traks[j]).mp4a {
            1nat
        } else {
            0
        }),
    decreases n,
{
    if n > 0 {
        at_most_two_tracks(traks, (n - 1) as nat);
        assert(traks[n - 1] == traks[n - 1]);
    }
}

/// The first track with video is played, and so is the first one with audio.
pub proof fn first_tracks_are_played(traks: Seq<Trak>, n: nat, i: int)
    requires
        0 <= i < n <= traks.len(),
        first_video(traks, i) || first_audio(traks, i),
    ensures
        selected(traks, n).contains(track_name(traks[i])),
    decreases n,
{
    if i == n - 1 {
        assert(selected(traks, n).last() == track_name(traks[i]));
    } else {
        first_tracks_are_played(traks, (n - 1) as nat, i);
        let before = selected(traks, (n - 1) as nat);
        let k = choose|k: int| 0 <= k < before.len() && before[k] == track_name(traks[i]);
        assert(selected(traks, n)[k] == track_name(traks[i]));
    }
}

/// What identifies a group of a track.
#[derive(Debug)]
pub struct SubgroupInfo {
    pub namespace: Tuple,
    pub name: String,
    pub group_id: u64,
}

/// The receiving of the media over one session.
#[derive(Debug)]
pub struct Media {
    /// The name of the session, for messages.
    pub name: String,
}

impl Media {
    /// Receives over the session with a name.
    pub fn new(name: String) -> (res: Media)
        ensures
            res.name == name,
    {
        Media { name }
    }

    /// The text that tells groups of all tracks apart.
    pub fn create_fully_qualified_group_id(group: &SubgroupInfo) -> (res: String)
        ensures
            res@ == path_text(group.namespace@) + ":"@ + group.name@ + ":"@ + decimal_text(
                group.group_id as nat,
            ),
    {
        let number: String = decimal(group.group_id);
        group.namespace.to_utf8_path().concat(":").concat(group.name.as_str()).concat(":").concat(
            number.as_str(),
        )
    }

    /// Whether an object of a group is received, of which `last_object_id` was written last: those
    /// up to that one are not.
    pub fn recv_object(last_object_id: Option<u64>, object_id: u64) -> (res: bool)
        ensures
            res == (last_object_id matches Some(last) ==> object_id > last),
    {
        match last_object_id {
            Some(last_object_id) => object_id > last_object_id,
            None => true,
        }
    }
}

} // verus!
