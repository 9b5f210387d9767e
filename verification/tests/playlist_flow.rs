use restream::playlist::{PlayList, ServerMessage};

#[test]
fn timestamps_outnumber_segments_by_one() {
    let mut p = PlayList::new();
    assert_eq!(p.timestamp.len(), p.ts.len() + 1);
    p.push(0, String::from("0.ts"), false);
    assert_eq!(p.timestamp.len(), p.ts.len() + 1);
    p.push(2000, String::from("2000.ts"), false);
    assert_eq!(p.timestamp.len(), p.ts.len() + 1);
    p.push(4000, String::from("4000.ts"), false);
    assert_eq!(p.timestamp.len(), p.ts.len() + 1);
    p.push(0, String::from("0.ts"), true);
    assert_eq!(p.timestamp.len(), p.ts.len() + 1);
}

#[test]
fn playlist_rollover_keeps_window_of_two() {
    let mut p = PlayList::new();
    let d1 = p.push(0, String::from("0.ts"), false);
    assert_eq!(d1, 1);
    let d2 = p.push(2000, String::from("2000.ts"), false);
    assert_eq!(d2, 2);
    let d3 = p.push(4000, String::from("4000.ts"), false);
    assert_eq!(d3, 2);

    let names: Vec<&str> = p.ts.iter().map(|e| e.1.as_str()).collect();
    assert_eq!(names, vec!["2000.ts", "4000.ts"]);
    assert_eq!(p.timestamp, vec![1, 3, 5]);
    // One update per push once the window is full: the counter stands at 2,
    // and the playlist was rendered with the pre-increment value 1.
    assert_eq!(p.sequence, 2);
    assert!(p.m3u8.contains("#EXT-X-MEDIA-SEQUENCE:1\r\n"));
}

#[test]
fn target_duration_exceeds_every_entry() {
    let mut p = PlayList::new();
    p.push(0, String::from("0.ts"), false);
    p.push(5000, String::from("5000.ts"), false);
    p.push(7000, String::from("7000.ts"), false);
    let target_line = p
        .m3u8
        .lines()
        .find(|l| l.starts_with("#EXT-X-TARGETDURATION:"))
        .unwrap()
        .trim_end()
        .to_string();
    let target: u32 = target_line["#EXT-X-TARGETDURATION:".len()..].parse().unwrap();
    for e in &p.ts {
        assert!(target > e.0);
    }
    assert_eq!(target, 6);
}

#[test]
fn sequence_never_decreases() {
    let mut p = PlayList::new();
    let mut last = p.sequence;
    for (t, name) in [(0, "a.ts"), (2000, "b.ts"), (4000, "c.ts"), (6000, "d.ts")] {
        p.push(t, String::from(name), false);
        assert!(p.sequence >= last);
        last = p.sequence;
    }
}

#[test]
fn steady_state_window_has_two_extinf_entries() {
    let mut p = PlayList::new();
    p.push(0, String::from("0.ts"), false);
    p.push(2000, String::from("2000.ts"), false);
    p.push(4000, String::from("4000.ts"), false);
    assert_eq!(p.m3u8.matches("#EXTINF:").count(), 2);
    assert!(!p.m3u8.contains("#EXT-X-ENDLIST"));
    p.push(0, String::from("0.ts"), true);
    assert!(p.m3u8.ends_with("#EXT-X-ENDLIST\r\n"));
}

#[test]
fn first_update_turns_live_and_raises_one_live_event() {
    let mut p = PlayList::new();
    assert!(!p.live);
    assert!(p.events.is_empty());
    p.push(0, String::from("0.ts"), false);
    assert_eq!(p.sequence, 0);
    assert!(!p.live);
    assert!(p.events.is_empty());
    p.push(2000, String::from("2000.ts"), false);
    assert_eq!(p.sequence, 1);
    assert!(p.live);
    assert_eq!(p.events, vec![ServerMessage::Live]);
    p.push(4000, String::from("4000.ts"), false);
    assert_eq!(p.events, vec![ServerMessage::Live]);
}

#[test]
fn end_of_stream_with_zero_segments_raises_nothing() {
    let mut p = PlayList::new();
    let d = p.push(0, String::from("0.ts"), true);
    assert_eq!(d, 1);
    assert!(!p.live);
    assert!(p.events.is_empty());
    assert_eq!(p.ts.len(), 1);
    assert_eq!(p.m3u8, "");
}

#[test]
fn end_of_stream_finalizes_with_endlist_and_off() {
    let mut p = PlayList::new();
    p.push(0, String::from("0.ts"), false);
    p.push(2000, String::from("2000.ts"), false);
    let d = p.push(0, String::from("0.ts"), true);
    // The trailing segment reuses the last recorded duration.
    assert_eq!(d, 2);
    assert!(p.m3u8.ends_with("#EXT-X-ENDLIST\r\n"));
    assert_eq!(p.events, vec![ServerMessage::Live, ServerMessage::Off]);
    assert!(p.live);
    assert_eq!(p.ts.len(), 3);
}

#[test]
fn reset_clears_entries_but_not_liveness() {
    let mut p = PlayList::new();
    p.push(0, String::from("0.ts"), false);
    p.push(2000, String::from("2000.ts"), false);
    assert!(p.live);
    p.reset();
    assert_eq!(p.sequence, 0);
    assert_eq!(p.m3u8, "");
    assert!(p.ts.is_empty());
    assert_eq!(p.timestamp, vec![0]);
    assert!(p.live);
    assert_eq!(p.events, vec![ServerMessage::Live]);
}

#[test]
fn rendered_urls_are_absolute() {
    let mut p = PlayList::new();
    p.push(0, String::from("0.ts"), false);
    p.push(2000, String::from("2000.ts"), false);
    assert!(p.m3u8.starts_with("#EXTM3U\r\n#EXT-X-VERSION:3\r\n"));
    assert!(p.m3u8.contains("http://127.0.0.1:1337/0.ts\r\n"));
    assert!(p.m3u8.contains("http://127.0.0.1:1337/2000.ts\r\n"));
    assert!(p.m3u8.contains("#EXTINF:1.0000\r\n"));
    assert!(p.m3u8.contains("#EXTINF:2.0000\r\n"));
}
