use restream::playlist::PlayList;
use restream::server::{Segment, Server, StreamError};
use restream::ts::{TsPayloadRec, AUDIO_PID, PAT_PID, PMT_PID, VIDEO_PID};

const CONFIG_TAG: &[u8] = &[
    0x17, 0x00, 0x00, 0x00, 0x00, // keyframe, sequence header, zero composition time
    0x01, 0x42, 0x00, 0x1E, // version, profile, compatibility, level
    0xFF, // prefix width 4
    0xE1, // one SPS
    0x00, 0x04, 0x67, 0x42, 0x00, 0x1E, // SPS unit
    0x01, // one PPS
    0x00, 0x04, 0x68, 0xCE, 0x3C, 0x80, // PPS unit
];

fn keyframe_tag(payload_unit: &[u8]) -> Vec<u8> {
    let mut tag = vec![0x17, 0x01, 0x00, 0x00, 0x00];
    tag.extend_from_slice(&(payload_unit.len() as u32).to_be_bytes());
    tag.extend_from_slice(payload_unit);
    tag
}

#[test]
fn duplicate_publisher_is_refused_without_touching_state() {
    let server = Server::new();
    let mut p = PlayList::new();
    p.push(0, String::from("0.ts"), false);
    p.push(2000, String::from("2000.ts"), false);
    assert!(p.live);
    let m3u8_before = p.m3u8.clone();
    let seq_before = p.sequence;

    let accept = server.handle_publish_requested(&mut p);
    assert!(!accept);
    assert_eq!(p.sequence, seq_before);
    assert_eq!(p.m3u8, m3u8_before);
    assert_eq!(p.ts.len(), 2);
    assert!(p.live);
}

#[test]
fn publish_accepted_after_reset_when_not_live() {
    let server = Server::new();
    let mut p = PlayList::new();
    p.push(0, String::from("0.ts"), true);
    assert!(!p.live);
    let accept = server.handle_publish_requested(&mut p);
    assert!(accept);
    assert_eq!(p.sequence, 0);
    assert!(p.ts.is_empty());
    assert_eq!(p.timestamp, vec![0]);
}

#[test]
fn video_before_any_keyframe_is_dropped() {
    let mut server = Server::new();
    let mut p = PlayList::new();
    // An inter frame (frame type 2) before any keyframe or config.
    let r = server.handle_video(&mut p, 0, &[0x27, 0x01, 0x00, 0x00, 0x00, 0x00]);
    assert!(matches!(r, Ok(None)));
    assert!(server.ts.packets.is_empty());
    assert!(!server.has_keyframe);
}

#[test]
fn short_video_tag_is_fatal() {
    let mut server = Server::new();
    let mut p = PlayList::new();
    assert_eq!(server.handle_video(&mut p, 0, &[0x17, 0x01]), Err(StreamError::ShortVideoTag));
}

#[test]
fn keyframe_without_config_is_fatal() {
    let mut server = Server::new();
    let mut p = PlayList::new();
    let tag = keyframe_tag(&[0x65, 0xAA]);
    assert_eq!(server.handle_video(&mut p, 0, &tag), Err(StreamError::MissingVideoConfig));
    assert!(server.has_keyframe);
}

#[test]
fn video_pipeline_packs_and_cuts_segments() {
    let mut server = Server::new();
    let mut p = PlayList::new();

    let r = server.handle_video(&mut p, 0, CONFIG_TAG);
    assert!(matches!(r, Ok(None)));
    assert_eq!(server.video_config.nalu_size, 4);

    // First keyframe at t=0: packed, but no cut before the write threshold.
    let tag = keyframe_tag(&[0x65, 0xAA]);
    let r = server.handle_video(&mut p, 0, &tag);
    assert!(matches!(r, Ok(None)));
    let n_after_first = server.ts.packets.len();
    assert!(n_after_first >= 1);
    match &server.ts.packets[0].payload {
        TsPayloadRec::Pes(pes) => {
            assert_eq!(pes.stream_id, 224);
            assert_eq!(pes.pts, 0);
            assert_eq!(pes.dts, Some(0));
            // Annex-B: AUD, SPS, PPS in-band, then the IDR slice.
            assert_eq!(&pes.data[..6], &[0x00, 0x00, 0x00, 0x01, 0x09, 0x00]);
        }
        other => panic!("expected a PES packet, got {:?}", other),
    }
    assert_eq!(server.ts.packets[0].header.pid, VIDEO_PID);
    assert!(server.ts.packets[0].adaptation_field.is_some());

    // A keyframe past the threshold cuts the buffered packets.
    let r = server.handle_video(&mut p, 3000, &tag).unwrap();
    let seg: Segment = r.expect("a segment must be cut past the write threshold");
    assert_eq!(seg.filename, "3000.ts");
    assert_eq!(seg.packets.len(), 2 + n_after_first);
    assert_eq!(seg.packets[0].header.pid, PAT_PID);
    assert_eq!(seg.packets[1].header.pid, PMT_PID);
    assert_eq!(server.next_write, 5000);
    assert_eq!(p.ts.len(), 1);
    assert_eq!(p.ts[0].1, "3000.ts");

    // The new buffer holds the packets of the cutting keyframe, with the
    // presentation time in 90 kHz units.
    match &server.ts.packets[0].payload {
        TsPayloadRec::Pes(pes) => assert_eq!(pes.pts, 3000 * 90),
        other => panic!("expected a PES packet, got {:?}", other),
    }
}

#[test]
fn video_fragments_long_payloads_with_stepping_counters() {
    let mut server = Server::new();
    let mut p = PlayList::new();
    server.handle_video(&mut p, 0, CONFIG_TAG).unwrap();

    // 400 bytes of slice payload: one PES packet then two raw packets.
    let mut unit = vec![0x65];
    unit.extend_from_slice(&[0x11; 399]);
    let tag = keyframe_tag(&unit);
    server.handle_video(&mut p, 0, &tag).unwrap();

    assert_eq!(server.ts.packets.len(), 3);
    let lens: Vec<usize> = server
        .ts
        .packets
        .iter()
        .map(|pk| match &pk.payload {
            TsPayloadRec::Pes(pes) => pes.data.len(),
            TsPayloadRec::Raw(d) => d.len(),
            other => panic!("unexpected payload {:?}", other),
        })
        .collect();
    let total: usize = lens.iter().sum();
    assert_eq!(lens[0], 153);
    assert_eq!(lens[1], 184);
    let ccs: Vec<u8> =
        server.ts.packets.iter().map(|pk| pk.header.continuity_counter).collect();
    assert_eq!(ccs, vec![0, 1, 2]);
    assert_eq!(server.ts.video_continuity_counter, 3);
    // AUD + SEI-free prelude (SPS, PPS) + start code + 400 unit bytes.
    assert_eq!(total, 6 + 8 + 8 + 3 + 400);
}

#[test]
fn audio_before_keyframe_is_dropped() {
    let mut server = Server::new();
    assert!(server.handle_audio(0, &[0xAF, 0x01, 0x55, 0x66]).is_ok());
    assert!(server.ts.packets.is_empty());
}

#[test]
fn audio_pipeline_frames_adts() {
    let mut server = Server::new();
    assert!(server.handle_audio(0, &[0xAF, 0x00, 0x12, 0x10]).is_ok());
    assert_eq!(server.audio_config.object_type, 2);

    server.has_keyframe = true;
    assert!(server.handle_audio(100, &[0xAF, 0x01, 0x55, 0x66]).is_ok());
    assert_eq!(server.ts.packets.len(), 1);
    assert_eq!(server.ts.packets[0].header.pid, AUDIO_PID);
    match &server.ts.packets[0].payload {
        TsPayloadRec::Pes(pes) => {
            assert_eq!(pes.stream_id, 192);
            assert_eq!(pes.pts, 100 * 90);
            assert_eq!(pes.dts, None);
            assert_eq!(&pes.data[..2], &[0xFF, 0xF1]);
            assert_eq!(pes.data.len(), 9);
            assert_eq!(&pes.data[7..], &[0x55, 0x66]);
        }
        other => panic!("expected a PES packet, got {:?}", other),
    }
    assert_eq!(server.ts.audio_continuity_counter, 1);
}

#[test]
fn short_audio_tag_is_fatal() {
    let mut server = Server::new();
    assert_eq!(server.handle_audio(0, &[0xAF]), Err(StreamError::ShortAudioTag));
}

#[test]
fn bad_audio_config_is_fatal() {
    let mut server = Server::new();
    assert_eq!(server.handle_audio(0, &[0xAF, 0x00, 0x12]), Err(StreamError::BadAudioConfig));
    assert_eq!(server.audio_config.object_type, 0);
}

#[test]
fn end_stream_drains_final_segment() {
    let mut server = Server::new();
    let mut p = PlayList::new();
    server.handle_audio(0, &[0xAF, 0x00, 0x12, 0x10]).unwrap();
    server.has_keyframe = true;
    server.handle_audio(50, &[0xAF, 0x01, 0x01, 0x02]).unwrap();

    let (seg, delay) = server.end_stream(&mut p).unwrap();
    assert_eq!(seg.filename, "0.ts");
    assert_eq!(seg.packets.len(), 3);
    assert_eq!(seg.packets[0].header.pid, PAT_PID);
    assert_eq!(seg.packets[1].header.pid, PMT_PID);
    assert!(server.ts.packets.is_empty());
    // Empty playlist: the closing segment records one second, and the
    // caller waits that second plus one more before dropping liveness.
    assert_eq!(delay, 2000);
    assert!(p.events.is_empty());
    assert!(!p.live);
}

#[test]
fn continuity_counters_survive_segment_cuts() {
    let mut server = Server::new();
    let mut p = PlayList::new();
    server.handle_audio(0, &[0xAF, 0x00, 0x12, 0x10]).unwrap();
    server.has_keyframe = true;
    for i in 0..20u32 {
        server.handle_audio(i, &[0xAF, 0x01, 0x01]).unwrap();
    }
    assert_eq!(server.ts.audio_continuity_counter, 20 % 16);
    let before = server.ts.audio_continuity_counter;
    server.end_stream(&mut p).unwrap();
    assert_eq!(server.ts.audio_continuity_counter, before);
}
