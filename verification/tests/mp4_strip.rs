use pashari::mp4::{handler_type, list_boxes, parse_box, rebuild_box, strip_bytes, BoxHeader};

fn mk_box(fourcc: &[u8; 4], body: &[u8]) -> Vec<u8> {
    let mut v = Vec::with_capacity(8 + body.len());
    v.extend_from_slice(&((8 + body.len()) as u32).to_be_bytes());
    v.extend_from_slice(fourcc);
    v.extend_from_slice(body);
    v
}

fn mk_hdlr(handler: &[u8; 4]) -> Vec<u8> {
    let mut body = vec![0u8; 4];
    body.extend_from_slice(&[0, 0, 0, 0]);
    body.extend_from_slice(handler);
    body.extend_from_slice(&[0u8; 12]);
    body.push(0);
    mk_box(b"hdlr", &body)
}

fn mk_stco(offsets: &[u32]) -> Vec<u8> {
    let mut body = vec![0, 0, 0, 0];
    body.extend_from_slice(&(offsets.len() as u32).to_be_bytes());
    for &o in offsets {
        body.extend_from_slice(&o.to_be_bytes());
    }
    mk_box(b"stco", &body)
}

fn mk_video_trak() -> Vec<u8> {
    let hdlr = mk_hdlr(b"vide");
    let stco = mk_stco(&[0]);
    let stbl = mk_box(b"stbl", &stco);
    let minf = mk_box(b"minf", &stbl);
    let mut mdia_body = hdlr;
    mdia_body.extend_from_slice(&minf);
    let mdia = mk_box(b"mdia", &mdia_body);
    mk_box(b"trak", &mdia)
}

fn mk_audio_trak() -> Vec<u8> {
    let hdlr = mk_hdlr(b"soun");
    let mdia = mk_box(b"mdia", &hdlr);
    mk_box(b"trak", &mdia)
}

fn set_stco_offset(video_trak: &mut [u8], value: u32) {
    let pos = 8 + 8 + (8 + 25) + 8 + 8 + 8 + 4 + 4;
    video_trak[pos..pos + 4].copy_from_slice(&value.to_be_bytes());
}

fn build_file(with_audio: bool, moov_before_mdat: bool, mdat_payload: &[u8]) -> Vec<u8> {
    let ftyp = mk_box(b"ftyp", b"isomiso2avc1mp41");
    let mut video_trak = mk_video_trak();
    let mut moov_body = Vec::new();
    let mdat = mk_box(b"mdat", mdat_payload);
    let ftyp_len = ftyp.len();
    let audio_trak = if with_audio { Some(mk_audio_trak()) } else { None };
    let audio_len = audio_trak.as_ref().map_or(0, |a| a.len());
    let moov_len = 8 + video_trak.len() + audio_len;
    let mdat_payload_start = if moov_before_mdat {
        ftyp_len + moov_len + 8
    } else {
        ftyp_len + 8
    };
    set_stco_offset(&mut video_trak, mdat_payload_start as u32);
    moov_body.extend_from_slice(&video_trak);
    if let Some(a) = &audio_trak {
        moov_body.extend_from_slice(a);
    }
    let moov = mk_box(b"moov", &moov_body);
    let mut file = ftyp;
    if moov_before_mdat {
        file.extend_from_slice(&moov);
        file.extend_from_slice(&mdat);
    } else {
        file.extend_from_slice(&mdat);
        file.extend_from_slice(&moov);
    }
    file
}

fn find<'a>(boxes: &'a [BoxHeader], t: &[u8; 4]) -> Option<&'a BoxHeader> {
    boxes.iter().find(|b| &b.fourcc == t)
}

fn read_via_stco(data: &[u8], len: usize) -> Option<Vec<u8>> {
    let top = list_boxes(data, 0, data.len())?;
    let moov = find(&top, b"moov")?;
    let moov_children = list_boxes(data, moov.start + moov.header_len, moov.end)?;
    let video = moov_children
        .iter()
        .filter(|b| &b.fourcc == b"trak")
        .find(|t| handler_type(data, t) == Some(*b"vide"))?;
    let vc = list_boxes(data, video.start + video.header_len, video.end)?;
    let mdia = find(&vc, b"mdia")?;
    let mc = list_boxes(data, mdia.start + mdia.header_len, mdia.end)?;
    let minf = find(&mc, b"minf")?;
    let mnc = list_boxes(data, minf.start + minf.header_len, minf.end)?;
    let stbl = find(&mnc, b"stbl")?;
    let sc = list_boxes(data, stbl.start + stbl.header_len, stbl.end)?;
    let stco = find(&sc, b"stco")?;
    let entries_start = stco.start + stco.header_len + 8;
    let off = u32::from_be_bytes(data[entries_start..entries_start + 4].try_into().ok()?) as usize;
    data.get(off..off + len).map(|s| s.to_vec())
}

#[test]
fn strips_audio_trak_and_shrinks_moov() {
    let payload = vec![0xABu8; 64];
    let file = build_file(true, true, &payload);
    let stripped = strip_bytes(&file).expect("audio trak が見つかるはず");
    assert!(stripped.len() < file.len());
    let top = list_boxes(&stripped, 0, stripped.len()).unwrap();
    let moov = top.iter().find(|b| &b.fourcc == b"moov").unwrap();
    let children = list_boxes(&stripped, moov.start + moov.header_len, moov.end).unwrap();
    let has_audio = children
        .iter()
        .filter(|b| &b.fourcc == b"trak")
        .any(|t| handler_type(&stripped, t) == Some(*b"soun"));
    assert!(!has_audio);
}

#[test]
fn moov_before_mdat_shifts_stco_and_data_still_reachable() {
    let payload = vec![0xCDu8; 64];
    let file = build_file(true, true, &payload);
    assert_eq!(read_via_stco(&file, payload.len()), Some(payload.clone()));
    let stripped = strip_bytes(&file).unwrap();
    assert_eq!(read_via_stco(&stripped, payload.len()), Some(payload));
}

#[test]
fn moov_after_mdat_needs_no_shift() {
    let payload = vec![0xEFu8; 32];
    let file = build_file(true, false, &payload);
    assert_eq!(read_via_stco(&file, payload.len()), Some(payload.clone()));
    let stripped = strip_bytes(&file).unwrap();
    assert_eq!(read_via_stco(&stripped, payload.len()), Some(payload));
}

#[test]
fn no_audio_trak_returns_none() {
    let file = build_file(false, true, &[0u8; 16]);
    assert!(strip_bytes(&file).is_none());
}

#[test]
fn fragmented_mp4_is_left_alone() {
    let mut file = build_file(true, true, &[0u8; 16]);
    file.extend_from_slice(&mk_box(b"moof", &[0u8; 4]));
    assert!(strip_bytes(&file).is_none());
}

#[test]
fn truncated_box_header_is_rejected() {
    let data = [0u8, 0, 0, 20, b'f', b't'];
    assert!(list_boxes(&data, 0, data.len()).is_none());
}

#[test]
fn two_mdat_boxes_are_left_alone() {
    let mut file = build_file(true, true, &[0u8; 16]);
    file.extend_from_slice(&mk_box(b"mdat", &[1u8; 4]));
    assert!(strip_bytes(&file).is_none());
}

#[test]
fn box_with_size_below_header_is_rejected() {
    let data = [0u8, 0, 0, 4, b'f', b'r', b'e', b'e'];
    assert!(list_boxes(&data, 0, data.len()).is_none());
}

#[test]
fn stripped_file_is_exactly_the_audio_trak_shorter() {
    let file = build_file(true, true, &[7u8; 10]);
    let stripped = strip_bytes(&file).unwrap();
    assert_eq!(file.len() - stripped.len(), mk_audio_trak().len());
}

#[test]
fn patch_stco_moves_offsets_and_clamps_at_zero() {
    let stco = mk_stco(&[100, 5]);
    let b = list_boxes(&stco, 0, stco.len()).unwrap()[0];
    let out = pashari::mp4::patch_stco(&stco, &b, -10);
    assert_eq!(&out[16..20], &90u32.to_be_bytes());
    assert_eq!(&out[20..24], &0u32.to_be_bytes());
}

#[test]
fn patch_co64_moves_offsets() {
    let mut body = vec![0u8, 0, 0, 0, 0, 0, 0, 1];
    body.extend_from_slice(&0x1_0000_0010u64.to_be_bytes());
    let co64 = mk_box(b"co64", &body);
    let b = list_boxes(&co64, 0, co64.len()).unwrap()[0];
    let out = pashari::mp4::patch_co64(&co64, &b, -0x10);
    assert_eq!(&out[16..24], &0x1_0000_0000u64.to_be_bytes());
}

#[test]
fn parse_box_reads_size_and_fourcc() {
    let mut data = vec![0xEE];
    data.extend(mk_box(b"free", &[1, 2, 3]));
    let b = parse_box(&data, 1, data.len()).unwrap();
    assert_eq!(b, BoxHeader { fourcc: *b"free", start: 1, header_len: 8, end: 12 });
}

#[test]
fn parse_box_refuses_short_undersized_and_overlong() {
    let data = mk_box(b"free", &[0; 4]);
    assert!(parse_box(&data, 0, 7).is_none());
    assert!(parse_box(&data, 0, 11).is_none());
    let mut tiny = data.clone();
    tiny[..4].copy_from_slice(&7u32.to_be_bytes());
    assert!(parse_box(&tiny, 0, 12).is_none());
    let mut large = data.clone();
    large[..4].copy_from_slice(&1u32.to_be_bytes());
    assert!(parse_box(&large, 0, 12).is_none());
}

#[test]
fn rebuild_box_shifts_stco_offsets_clamped_at_zero() {
    let data = mk_stco(&[100, 5, 4_000_000_000]);
    let b = parse_box(&data, 0, data.len()).unwrap();
    assert_eq!(rebuild_box(&data, &b, usize::MAX, -10), mk_stco(&[90, 0, 3_999_999_990]));
    assert_eq!(rebuild_box(&data, &b, usize::MAX, 0), data);
}

#[test]
fn rebuild_box_drops_skipped_child_and_resizes_container() {
    let a = mk_box(b"free", &[1]);
    let c = mk_box(b"skip", &[2, 2]);
    let mut body = a.clone();
    body.extend(&c);
    let moov = mk_box(b"moov", &body);
    let b = parse_box(&moov, 0, moov.len()).unwrap();
    assert_eq!(rebuild_box(&moov, &b, 8 + a.len(), 0), mk_box(b"moov", &a));
    assert_eq!(rebuild_box(&moov, &b, usize::MAX, 0), moov);
}

#[test]
fn parse_box_refuses_start_past_limit() {
    let data = mk_box(b"free", &[0; 8]);
    assert!(parse_box(&data, 10, 4).is_none());
    assert!(parse_box(&data, data.len(), 0).is_none());
}
