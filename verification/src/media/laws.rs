//! What holds of the reading of an init segment, in terms of its bytes and of its tracks.
use super::atom_reading;
use super::boxes::number_at;
use super::boxes::Trak;
use super::init_moov;
use super::selected;
use super::track_name;
use super::MediaError;
use crate::text::decimal_text;
use vstd::prelude::*;

verus! {

/// Whether the track at an index is the first one with video.
pub open spec fn leads_video(traks: Seq<Trak>, i: int) -> bool {
    &&& 0 <= i < traks.len()
    &&& traks[i].avc1
    &&& forall|j: int| 0 <= j < traks.len() && (#[trigger] traks[j]).avc1 ==> i <= j
}

/// Whether the track at an index is the first one with audio.
pub open spec fn leads_audio(traks: Seq<Trak>, i: int) -> bool {
    &&& 0 <= i < traks.len()
    &&& traks[i].mp4a
    &&& forall|j: int| 0 <= j < traks.len() && (#[trigger] traks[j]).mp4a ==> i <= j
}

/// Adds the names of further tracks that are neither the first with video nor the first with audio:
/// there are none.
proof fn lemma_selected_from(traks: Seq<Trak>, from: nat, to: nat)
    requires
        from <= to <= traks.len(),
        forall|i: int| from <= i < to ==> !leads_video(traks, i) && !leads_audio(traks, i),
    ensures
        selected(traks, to) == selected(traks, from),
    decreases to,
{
    if from < to {
        lemma_selected_from(traks, from, (to - 1) as nat);
        assert(!leads_video(traks, to - 1) && !leads_audio(traks, to - 1));
        lemma_first_is_leading(traks, to - 1);
    }
}

/// That no track before one has video, or audio, is that it comes first.
proof fn lemma_first_is_leading(traks: Seq<Trak>, i: int)
    requires
        0 <= i < traks.len(),
    ensures
        super::first_video(traks, i) <==> leads_video(traks, i),
        super::first_audio(traks, i) <==> leads_audio(traks, i),
{
    if leads_video(traks, i) {
        assert forall|j: int| 0 <= j < i implies !(#[trigger] traks[j]).avc1 by {}
    }
    if leads_audio(traks, i) {
        assert forall|j: int| 0 <= j < i implies !(#[trigger] traks[j]).mp4a by {}
    }
}

/// The tracks that are played are the first one with video and the first one with audio, in the order in
/// which they stand: both where they differ, one where they are the same track or only one of them is
/// there, and none where there is neither.
pub proof fn first_video_and_first_audio_are_played(
    traks: Seq<Trak>,
    video: Option<int>,
    audio: Option<int>,
)
    requires
        video matches Some(i) ==> leads_video(traks, i),
        video is None ==> forall|j: int| 0 <= j < traks.len() ==> !(#[trigger] traks[j]).avc1,
        audio matches Some(i) ==> leads_audio(traks, i),
        audio is None ==> forall|j: int| 0 <= j < traks.len() ==> !(#[trigger] traks[j]).mp4a,
    ensures
        selected(traks, traks.len()) == match (video, audio) {
            (None, None) => Seq::<Seq<char>>::empty(),
            (Some(v), None) => seq![track_name(traks[v])],
            (None, Some(a)) => seq![track_name(traks[a])],
            (Some(v), Some(a)) => if v == a {
                seq![track_name(traks[v])]
            } else if v < a {
                seq![track_name(traks[v]), track_name(traks[a])]
            } else {
                seq![track_name(traks[a]), track_name(traks[v])]
            },
        },
{
    let n = traks.len();
    let none = Seq::<Seq<char>>::empty();
    if let Some(v) = video {
        lemma_first_is_leading(traks, v);
    }
    if let Some(a) = audio {
        lemma_first_is_leading(traks, a);
    }
    let (first, second): (Option<int>, Option<int>) = match (video, audio) {
        (None, None) => (None, None),
        (Some(v), None) => (Some(v), None),
        (None, Some(a)) => (Some(a), None),
        (Some(v), Some(a)) => if v == a {
            (Some(v), None)
        } else if v < a {
            (Some(v), Some(a))
        } else {
            (Some(a), Some(v))
        },
    };
    match first {
        None => {
            lemma_selected_from(traks, 0, n);
            assert(selected(traks, n) =~= none);
        },
        Some(i) => {
            lemma_selected_from(traks, 0, i as nat);
            let one = seq![track_name(traks[i])];
            assert(selected(traks, (i + 1) as nat) =~= one);
            match second {
                None => {
                    lemma_selected_from(traks, (i + 1) as nat, n);
                },
                Some(j) => {
                    lemma_selected_from(traks, (i + 1) as nat, j as nat);
                    assert(selected(traks, (j + 1) as nat) =~= seq![
                        track_name(traks[i]),
                        track_name(traks[j]),
                    ]);
                    lemma_selected_from(traks, (j + 1) as nat, n);
                },
            }
        },
    }
}

/// Where any track has video, the first one that has is played, and so it is with audio. Every track that
/// is played is the first one with video or the first one with audio.
pub proof fn played_tracks_are_the_first_of_their_kind(traks: Seq<Trak>)
    ensures
        (exists|j: int| 0 <= j < traks.len() && (#[trigger] traks[j]).avc1) ==> exists|i: int| #[trigger]
            leads_video(traks, i) && selected(traks, traks.len()).contains(track_name(traks[i])),
        (exists|j: int| 0 <= j < traks.len() && (#[trigger] traks[j]).mp4a) ==> exists|i: int| #[trigger]
            leads_audio(traks, i) && selected(traks, traks.len()).contains(track_name(traks[i])),
        forall|name: Seq<char>| #[trigger]
            selected(traks, traks.len()).contains(name) ==> exists|i: int|
                0 <= i < traks.len() && (leads_video(traks, i) || leads_audio(traks, i))
                    && track_name(#[trigger] traks[i]) == name,
{
    let has_video = exists|j: int| 0 <= j < traks.len() && (#[trigger] traks[j]).avc1;
    let has_audio = exists|j: int| 0 <= j < traks.len() && (#[trigger] traks[j]).mp4a;
    let video: Option<int> = if has_video {
        lemma_some_leads_video(traks, 0);
        Some(choose|i: int| leads_video(traks, i))
    } else {
        None
    };
    let audio: Option<int> = if has_audio {
        lemma_some_leads_audio(traks, 0);
        Some(choose|i: int| leads_audio(traks, i))
    } else {
        None
    };
    first_video_and_first_audio_are_played(traks, video, audio);
    let names = selected(traks, traks.len());
    if has_video && has_audio {
        let (v, a) = (video->0, audio->0);
        assert(v < a ==> names[0] == track_name(traks[v]) && names[1] == track_name(traks[a]));
        assert(a < v ==> names[0] == track_name(traks[a]) && names[1] == track_name(traks[v]));
        assert(a == v ==> names[0] == track_name(traks[v]));
    } else if names.len() > 0 {
        assert(names.contains(names[0]));
    }
    assert forall|name: Seq<char>| #[trigger] names.contains(name) implies exists|i: int|
        0 <= i < traks.len() && (leads_video(traks, i) || leads_audio(traks, i)) && track_name(
            #[trigger] traks[i],
        ) == name by {
        if has_video && track_name(traks[video->0]) == name {
        } else if has_audio && track_name(traks[audio->0]) == name {
        }
    }
}

proof fn lemma_some_leads_video(traks: Seq<Trak>, from: int)
    requires
        0 <= from <= traks.len(),
        exists|j: int| 0 <= j < traks.len() && (#[trigger] traks[j]).avc1,
        forall|j: int| 0 <= j < from ==> !(#[trigger] traks[j]).avc1,
    ensures
        exists|i: int| leads_video(traks, i),
    decreases traks.len() - from,
{
    if from < traks.len() {
        if traks[from].avc1 {
            assert(leads_video(traks, from));
        } else {
            lemma_some_leads_video(traks, from + 1);
        }
    }
}

proof fn lemma_some_leads_audio(traks: Seq<Trak>, from: int)
    requires
        0 <= from <= traks.len(),
        exists|j: int| 0 <= j < traks.len() && (#[trigger] traks[j]).mp4a,
        forall|j: int| 0 <= j < from ==> !(#[trigger] traks[j]).mp4a,
    ensures
        exists|i: int| leads_audio(traks, i),
    decreases traks.len() - from,
{
    if from < traks.len() {
        if traks[from].mp4a {
            assert(leads_audio(traks, from));
        } else {
            lemma_some_leads_audio(traks, from + 1);
        }
    }
}

/// A track is named by its number, in decimal, and the ending of media segments.
pub proof fn track_is_named_by_its_number(trak: Trak)
    ensures
        track_name(trak) == decimal_text(trak.track_id as nat) + ".m4s"@,
{
}

/// An atom takes as many bytes as it says, or all that are there where these are fewer or it says 0. It
/// says so in its first four bytes, or in the eight behind its type where these say 1. It cannot be
/// shorter than its own header. What comes behind it is the rest of the data.
pub proof fn atom_takes_what_it_says(s: Seq<u8>)
    ensures
        s.len() < 8 ==> atom_reading(s) == Err::<(Seq<u8>, Seq<u8>), MediaError>(
            MediaError::UnexpectedEnd,
        ),
        s.len() >= 8 ==> {
            let size = number_at(s, 0, 4);
            let large = number_at(s, 8, 8);
            &&& size == 0 ==> atom_reading(s) == Ok::<(Seq<u8>, Seq<u8>), MediaError>(
                (s, Seq::empty()),
            )
            &&& 2 <= size <= 7 ==> atom_reading(s) == Err::<(Seq<u8>, Seq<u8>), MediaError>(
                MediaError::ImpossibleSize(size as u64),
            )
            &&& 8 <= size < s.len() ==> atom_reading(s) == Ok::<(Seq<u8>, Seq<u8>), MediaError>(
                (s.take(size as int), s.skip(size as int)),
            )
            &&& 8 <= size && size >= s.len() ==> atom_reading(s) == Ok::<
                (Seq<u8>, Seq<u8>),
                MediaError,
            >((s, Seq::empty()))
            &&& size == 1 && s.len() < 16 ==> atom_reading(s) == Err::<
                (Seq<u8>, Seq<u8>),
                MediaError,
            >(MediaError::UnexpectedEnd)
            &&& size == 1 && s.len() >= 16 && large < 16 ==> atom_reading(s) == Err::<
                (Seq<u8>, Seq<u8>),
                MediaError,
            >(MediaError::ImpossibleExtendedSize(large as u64))
            &&& size == 1 && 16 <= large < s.len() ==> atom_reading(s) == Ok::<
                (Seq<u8>, Seq<u8>),
                MediaError,
            >((s.take(large as int), s.skip(large as int)))
            &&& size == 1 && s.len() >= 16 && large >= 16 && large >= s.len() ==> atom_reading(s)
                == Ok::<(Seq<u8>, Seq<u8>), MediaError>((s, Seq::empty()))
        },
{
}

/// An init segment is an `ftyp` atom, a `moov` atom and whatever comes behind: of such a segment the
/// `moov` atom is found, and where one of the two is of another type, that one is missed.
pub proof fn moov_is_found_behind_ftyp(ftyp: Seq<u8>, moov: Seq<u8>, rest: Seq<u8>)
    requires
        ftyp.len() >= 8,
        number_at(ftyp, 0, 4) == ftyp.len(),
        moov.len() >= 8,
        number_at(moov, 0, 4) == moov.len(),
    ensures
        ({
            let is_ftyp = number_at(ftyp, 4, 4) == 0x66747970;
            let is_moov = number_at(moov, 4, 4) == 0x6d6f6f76;
            let found = init_moov(ftyp + moov + rest);
            &&& is_ftyp && is_moov ==> found == Ok::<Seq<u8>, MediaError>(moov)
            &&& !is_ftyp ==> found == Err::<Seq<u8>, MediaError>(MediaError::ExpectedFtyp)
            &&& is_ftyp && !is_moov ==> found == Err::<Seq<u8>, MediaError>(
                MediaError::ExpectedMoov,
            )
        }),
{
    let s = ftyp + moov + rest;
    let tail = moov + rest;
    assert(s.subrange(0, 4) =~= ftyp.subrange(0, 4));
    assert(s.take(ftyp.len() as int) =~= ftyp);
    assert(s.skip(ftyp.len() as int) =~= tail);
    assert(tail.subrange(0, 4) =~= moov.subrange(0, 4));
    assert(tail.take(moov.len() as int) =~= moov);
    assert(tail.skip(moov.len() as int) =~= rest);
    if rest.len() == 0 {
        assert(tail =~= moov);
    }
}

/// Each error of an init segment is told in words of its own, with the size that is impossible.
pub proof fn media_errors_are_told_in_words(size: u64, text: String)
    ensures
        MediaError::UnexpectedEnd.reason_spec() == "early eof"@,
        MediaError::ImpossibleSize(size).reason_spec() == "impossible box size: "@ + decimal_text(
            size as nat,
        ),
        MediaError::ImpossibleExtendedSize(size).reason_spec() == "impossible extended box size: "@
            + decimal_text(size as nat),
        MediaError::ExpectedFtyp.reason_spec() == "expected ftyp atom"@,
        MediaError::ExpectedMoov.reason_spec() == "expected moov atom"@,
        MediaError::Moov(text).reason_spec() == text@,
{
}

} // verus!
