//! The media that is received.
use moq_subscribe::coding::Tuple;
use moq_subscribe::media::boxes::{is_readable, read_traks, Trak};
use moq_subscribe::media::{
    find_moov, init_track, read_atom, read_init, select_tracks, Media, MediaError, SubgroupInfo,
};
use mp4::WriteBox;

fn atom(name: &[u8; 4], body: &[u8]) -> Vec<u8> {
    [&(body.len() as u32 + 8).to_be_bytes()[..], name, body].concat()
}

fn moov(tracks: &[(u32, bool, bool)]) -> Vec<u8> {
    let mut moov = mp4::MoovBox::default();
    for (track_id, avc1, mp4a) in tracks {
        moov.traks.push(Default::default());
        let trak = match moov.traks.last_mut() {
            Some(trak) => trak,
            None => unreachable!(),
        };
        trak.tkhd.track_id = *track_id;
        let stbl = &mut trak.mdia.minf.stbl;
        stbl.stco = Some(Default::default());
        if *avc1 {
            stbl.stsd.avc1 = Some(Default::default());
        }
        if *mp4a {
            stbl.stsd.mp4a = Some(Default::default());
        }
    }
    let mut bytes = Vec::new();
    if let Err(err) = moov.write_box(&mut bytes) {
        panic!("{}", err);
    }
    bytes
}

fn init(moov: Vec<u8>) -> Vec<u8> {
    [atom(b"ftyp", b"isom"), moov].concat()
}

#[test]
fn atoms_follow_each_other() {
    let data = [atom(b"ftyp", b"isom"), atom(b"free", b"xyz")].concat();
    match read_atom(&data) {
        Ok((first, rest)) => {
            assert_eq!(first, atom(b"ftyp", b"isom"));
            assert_eq!(rest, atom(b"free", b"xyz"));
        }
        Err(err) => panic!("{:?}", err),
    }
}

#[test]
fn atom_without_a_size_takes_the_rest() {
    let data = [&[0, 0, 0, 0][..], b"mdat", b"abcdef"].concat();
    assert!(matches!(read_atom(&data), Ok((first, rest)) if first == data && rest.is_empty()));
}

#[test]
fn atom_with_an_extended_size() {
    let long = [&[0, 0, 0, 1][..], b"mdat", &18u64.to_be_bytes(), b"ab"].concat();
    let data = [&long[..], b"rest"].concat();
    assert!(matches!(read_atom(&data), Ok((first, rest)) if first == long && rest == b"rest"));
    let data = [&[0, 0, 0, 1][..], b"mdat", &15u64.to_be_bytes()].concat();
    match read_atom(&data) {
        Err(err) => assert_eq!(err.reason(), "impossible extended box size: 15"),
        Ok(_) => panic!(),
    }
    assert!(matches!(read_atom(&data[..12].to_vec()), Err(MediaError::UnexpectedEnd)));
}

#[test]
fn atom_that_is_cut_off_is_read_as_far_as_it_goes() {
    let data = atom(b"mdat", b"abcdef")[..11].to_vec();
    assert!(matches!(read_atom(&data), Ok((first, rest)) if first == data && rest.is_empty()));
}

#[test]
fn atom_with_an_impossible_size() {
    let data = [&[0, 0, 0, 7][..], b"mdat"].concat();
    match read_atom(&data) {
        Err(err) => assert_eq!(err.reason(), "impossible box size: 7"),
        Ok(_) => panic!(),
    }
    match read_atom(&b"short".to_vec()) {
        Err(err) => assert_eq!(err.reason(), "early eof"),
        Ok(_) => panic!(),
    }
}

#[test]
fn init_segment_starts_with_ftyp_and_moov() {
    let moov = atom(b"moov", b"");
    assert!(matches!(find_moov(&init(moov.clone())), Ok(found) if found == moov));
    match find_moov(&moov) {
        Err(err) => assert_eq!(err.reason(), "expected ftyp atom"),
        Ok(_) => panic!(),
    }
    match find_moov(&init(atom(b"free", b""))) {
        Err(err) => assert_eq!(err.reason(), "expected moov atom"),
        Ok(_) => panic!(),
    }
    assert!(matches!(find_moov(&init(Vec::new())), Err(MediaError::UnexpectedEnd)));
}

#[test]
fn traks_of_a_moov() {
    let data = moov(&[(1, true, false), (2, false, true), (9, false, false)]);
    assert!(is_readable(&data));
    match read_traks(&data) {
        Some(Ok(traks)) => assert_eq!(
            traks,
            vec![
                Trak { track_id: 1, avc1: true, mp4a: false },
                Trak { track_id: 2, avc1: false, mp4a: true },
                Trak { track_id: 9, avc1: false, mp4a: false },
            ]
        ),
        other => panic!("{:?}", other),
    }
}

#[test]
fn first_video_and_first_audio_are_played() {
    let data = init(moov(&[(7, false, true), (8, true, false), (9, true, true), (10, true, false)]));
    match read_init(&data) {
        Ok(names) => assert_eq!(names, vec!["7.m4s".to_string(), "8.m4s".to_string()]),
        Err(err) => panic!("{:?}", err),
    }
}

#[test]
fn selection_of_tracks() {
    let trak = |track_id, avc1, mp4a| Trak { track_id, avc1, mp4a };
    assert_eq!(select_tracks(&vec![]), Vec::<String>::new());
    assert_eq!(select_tracks(&vec![trak(3, true, true), trak(4, true, true)]), vec!["3.m4s"]);
    assert_eq!(
        select_tracks(&vec![trak(1, false, false), trak(20, true, false), trak(3, false, true)]),
        vec!["20.m4s", "3.m4s"]
    );
}

#[test]
fn moov_without_its_header_is_refused() {
    match read_init(&init(atom(b"moov", b""))) {
        Err(err) => assert_eq!(err.reason(), "mvhd not found"),
        Ok(_) => panic!(),
    }
}

#[test]
fn box_of_size_zero_is_not_read() {
    let data = atom(b"moov", &[&[0, 0, 0, 0][..], b"free"].concat());
    assert!(!is_readable(&data));
    assert!(read_traks(&data).is_none());
    assert!(matches!(read_init(&init(data)), Err(MediaError::Unreadable)));
    let udta = atom(b"udta", &[&[0, 0, 0, 0][..], b"free"].concat());
    assert!(!is_readable(&atom(b"moov", &udta)));
}

#[test]
fn boxes_that_ask_for_too_much_are_not_read() {
    let hdlr = [&u32::MAX.to_be_bytes()[..], b"hdlr", &[0; 24]].concat();
    let moov = |inner: &[u8]| atom(b"moov", inner);
    assert!(!is_readable(&moov(&atom(b"meta", &[&[0, 0, 0, 0][..], &hdlr].concat()))));
    let data = atom(b"data", &[0, 0, 0, 1]);
    let ilst = atom(b"ilst", &atom(b"desc", &data));
    assert!(!is_readable(&moov(&atom(b"udta", &meta(b"mdir", &ilst)))));
    let long = [&[0, 0, 0, 1][..], b"free", &u64::MAX.to_be_bytes()].concat();
    assert!(!is_readable(&moov(&meta(b"mdir", &long))));
}

/// A `meta` box with a handler and a box behind its `hdlr` box.
fn meta(handler: &[u8; 4], inner: &[u8]) -> Vec<u8> {
    let hdlr = atom(b"hdlr", &[&[0; 8][..], handler, &[0; 13]].concat());
    atom(b"meta", &[&[0, 0, 0, 0][..], &hdlr, inner].concat())
}

/// A `moov` atom without tracks, with a box behind its header.
fn moov_with(inner: &[u8]) -> Vec<u8> {
    atom(b"moov", &[&moov(&[])[8..], inner].concat())
}

fn is_read(data: &Vec<u8>) -> bool {
    matches!(read_traks(data), Some(Ok(_)))
}

#[test]
fn boxes_that_are_only_skipped_may_be_of_any_size() {
    let free = [&4096u32.to_be_bytes()[..], b"free"].concat();
    assert!(is_read(&moov_with(&meta(b"mdir", &free))));
    assert!(!is_readable(&moov_with(&meta(b"mdta", &free))));
    let short = [&4u32.to_be_bytes()[..], b"freefree"].concat();
    assert!(is_read(&moov_with(&meta(b"mdir", &short))));
    assert!(!is_readable(&moov_with(&meta(b"mdta", &short))));
}

#[test]
fn items_are_looked_at_under_their_handler_only() {
    let ilst = atom(b"ilst", &[&[0, 0, 0, 0][..], b"desc"].concat());
    assert!(is_read(&moov_with(&meta(b"mdta", &ilst))));
    let ilst = atom(b"ilst", &[&[0, 0, 0, 0][..], b"free"].concat());
    assert!(is_read(&moov_with(&meta(b"mdta", &ilst))));
    assert!(!is_readable(&moov_with(&meta(b"mdir", &ilst))));
}

#[test]
fn references_are_counted() {
    let plain = moov(&[(1, true, false)]);
    let at = match plain.windows(4).position(|name| name == b"dref") {
        Some(at) => at,
        None => panic!(),
    };
    let mut many = plain.clone();
    many[at + 8..at + 12].copy_from_slice(&[0xff; 4]);
    assert!(is_read(&many));
    let mut once = plain.clone();
    once[at + 12..at + 16].copy_from_slice(&[0; 4]);
    assert!(is_read(&once));
    let mut endless = once;
    endless[at + 8..at + 12].copy_from_slice(&[0xff; 4]);
    assert!(!is_readable(&endless));
}

#[test]
fn tables_are_held_against_their_box() {
    let stts = atom(b"stts", &[0, 0, 0, 0, 0xff, 0xff, 0xff, 0xff]);
    let nested = atom(b"trak", &atom(b"mdia", &atom(b"minf", &atom(b"stbl", &stts))));
    match read_traks(&atom(b"moov", &nested)) {
        Some(Err(text)) => assert_eq!(
            text,
            "stts entry_count indicates more entries than could fit in the box"
        ),
        other => panic!("{:?}", other),
    }
}

#[test]
fn many_small_boxes_are_walked_over() {
    let free = atom(b"free", b"");
    let data = atom(b"moov", &free.repeat(200_000));
    assert!(is_readable(&data));
    assert!(matches!(read_traks(&data), Some(Err(text)) if text == "mvhd not found"));
}

#[test]
fn boxes_larger_than_what_holds_them_end_the_reading() {
    let inner = [&100u32.to_be_bytes()[..], b"trak"].concat();
    let data = atom(b"moov", &inner);
    assert!(is_readable(&data));
    match read_traks(&data) {
        Some(Err(text)) => assert_eq!(text, "moov box contains a box with a larger size than it"),
        other => panic!("{:?}", other),
    }
}

#[test]
fn groups_have_full_names() {
    let group = SubgroupInfo {
        namespace: Tuple::from_utf8_path("live/a"),
        name: "1.m4s".to_string(),
        group_id: 1204,
    };
    assert_eq!(Media::create_fully_qualified_group_id(&group), "/live/a:1.m4s:1204");
    assert_eq!(Media::new("s1".to_string()).name, "s1");
    assert_eq!(init_track(), "0.mp4");
}

#[test]
fn objects_are_received_once() {
    assert!(Media::recv_object(None, 0));
    assert!(Media::recv_object(Some(3), 4));
    assert!(!Media::recv_object(Some(3), 3));
    assert!(!Media::recv_object(Some(3), 2));
}
