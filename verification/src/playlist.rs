//! The rolling HLS playlist.
//!
//! Segments enter through [`PlayList::push`] with the media timestamp of
//! the keyframe that opened them; durations are whole seconds.  Once the
//! window is full, [`PlayList::update`] evicts the oldest entry, renders
//! the M3U8 text, and raises the liveness events: `Live` when the first
//! window fills, `Off` when the stream ends.  The media-sequence counter
//! only ever grows.

use vstd::prelude::*;
use crate::util::{append_decimal, spec_decimal};

verus! {

/// Entries a live playlist keeps at once.
pub const WINDOW: usize = 2;

/// A liveness notification for the out-of-band channel.
#[derive(Clone, Copy, Debug, PartialEq, Eq, Structural)]
pub enum ServerMessage {
    Off,
    Live,
}

/// The mathematical view of a playlist: durations are paired with file
/// names, `timestamp` keeps one cumulative second count per entry plus a
/// leading sentinel, and `events` is every notification raised so far.
pub ghost struct PlayListModel {
    pub sequence: nat,
    pub m3u8: Seq<char>,
    pub ts: Seq<(u32, Seq<char>)>,
    pub timestamp: Seq<u32>,
    pub live: bool,
    pub events: Seq<ServerMessage>,
}

/// The playlist shared between the ingest pipeline and its readers.
pub struct PlayList {
    /// HLS media-sequence counter, stepped once per update.
    pub sequence: usize,
    /// The last rendered M3U8 text.
    pub m3u8: String,
    /// The window entries: duration in seconds and segment file name.
    pub ts: Vec<(u32, String)>,
    /// Cumulative timestamps in seconds, starting with a zero sentinel.
    pub timestamp: Vec<u32>,
    /// Whether the stream is announced as live.
    pub live: bool,
    /// Notifications raised and not yet delivered by the caller.
    pub events: Vec<ServerMessage>,
}

impl View for PlayList {
    type V = PlayListModel;

    open spec fn view(&self) -> PlayListModel {
        PlayListModel {
            sequence: self.sequence as nat,
            m3u8: self.m3u8@,
            ts: self.ts@.map_values(|e: (u32, String)| (e.0, e.1@)),
            timestamp: self.timestamp@,
            live: self.live,
            events: self.events@,
        }
    }
}

/// The target duration the rendered playlist advertises, computed as the
/// running fold the renderer uses: one more than the largest duration.
pub open spec fn spec_target_duration(list: Seq<(u32, Seq<char>)>) -> u32
    decreases list.len(),
{
    if list.len() == 0 {
        0
    } else {
        let prev = spec_target_duration(list.drop_last());
        let d = list.last().0;
        if prev <= d {
            (d + 1) as u32
        } else {
            prev
        }
    }
}

/// The two playlist lines for one entry: its duration and its URL.
pub open spec fn spec_extinf(e: (u32, Seq<char>)) -> Seq<char> {
    "#EXTINF:"@ + spec_decimal(e.0 as nat) + ".0000\r\n"@ + "http://127.0.0.1:1337/"@ + e.1
        + "\r\n"@
}

/// The entry lines of the playlist, in window order.
pub open spec fn spec_entry_lines(list: Seq<(u32, Seq<char>)>) -> Seq<char>
    decreases list.len(),
{
    if list.len() == 0 {
        Seq::empty()
    } else {
        spec_entry_lines(list.drop_last()) + spec_extinf(list.last())
    }
}

/// The rendered M3U8 text for a window, a media sequence, and whether the
/// stream has ended.
pub open spec fn spec_m3u8_render(list: Seq<(u32, Seq<char>)>, sequence: nat, end: bool)
    -> Seq<char> {
    "#EXTM3U\r\n"@ + "#EXT-X-VERSION:3\r\n"@ + "#EXT-X-TARGETDURATION:"@ + spec_decimal(
        spec_target_duration(list) as nat) + "\r\n"@ + "#EXT-X-MEDIA-SEQUENCE:"@ + spec_decimal(
        sequence) + "\r\n"@ + spec_entry_lines(list) + (if end {
        "#EXT-X-ENDLIST\r\n"@
    } else {
        Seq::<char>::empty()
    })
}

/// What one update does to the playlist: nothing below a full window;
/// otherwise evict the oldest entry when the window just overflowed and
/// the stream goes on, render the playlist, raise `Live` on the first
/// update and `Off` on the last, and step the sequence.
pub open spec fn spec_update(m: PlayListModel, end: bool) -> PlayListModel {
    if m.ts.len() < WINDOW {
        m
    } else {
        let list = if m.ts.len() == WINDOW + 1 && !end {
            m.ts.drop_first()
        } else {
            m.ts
        };
        let tss = if m.ts.len() == WINDOW + 1 && !end {
            m.timestamp.drop_first()
        } else {
            m.timestamp
        };
        PlayListModel {
            sequence: m.sequence + 1,
            m3u8: spec_m3u8_render(list, m.sequence, end),
            ts: list,
            timestamp: tss,
            live: if m.sequence == 0 {
                true
            } else {
                m.live
            },
            events: m.events + (if m.sequence == 0 {
                seq![ServerMessage::Live]
            } else {
                Seq::empty()
            }) + (if end {
                seq![ServerMessage::Off]
            } else {
                Seq::<ServerMessage>::empty()
            }),
        }
    }
}

/// The duration recorded for a pushed segment: normally the seconds since
/// the previous entry; at end of stream the previous entry's own duration
/// is reused, or the segment's own second count when nothing was kept.
pub open spec fn spec_push_duration(m: PlayListModel, timestamp: u32, end: bool) -> u32 {
    let ts_sec = (timestamp / 1000 + 1) as u32;
    if end && m.ts.len() > 0 {
        m.ts.last().0
    } else if end {
        ts_sec
    } else {
        (ts_sec - m.timestamp.last()) as u32
    }
}

/// The cumulative second count recorded for a pushed segment.
pub open spec fn spec_push_timestamp(m: PlayListModel, timestamp: u32, end: bool) -> u32 {
    let ts_sec = (timestamp / 1000 + 1) as u32;
    if end && m.ts.len() > 0 {
        (m.ts.last().0 + m.timestamp.last()) as u32
    } else {
        ts_sec
    }
}

/// What one push does: append the entry and its cumulative timestamp,
/// then update.
pub open spec fn spec_push(m: PlayListModel, timestamp: u32, filename: Seq<char>, end: bool)
    -> PlayListModel {
    spec_update(PlayListModel {
        sequence: m.sequence,
        m3u8: m.m3u8,
        ts: m.ts + seq![(spec_push_duration(m, timestamp, end), filename)],
        timestamp: m.timestamp + seq![spec_push_timestamp(m, timestamp, end)],
        live: m.live,
        events: m.events,
    }, end)
}

impl PlayList {
    /// There is always one more cumulative timestamp than window entries,
    /// and every duration leaves room for the advertised target.
    pub open spec fn wf(&self) -> bool {
        &&& self@.timestamp.len() == self@.ts.len() + 1
        &&& forall|i: int| 0 <= i < self@.ts.len() ==> (#[trigger] self@.ts[i]).0 < u32::MAX
    }

    /// An empty, not yet live playlist with the sentinel timestamp.
    pub fn new() -> (p: PlayList)
        ensures
            p.wf(),
            p.sequence == 0,
            p.m3u8@ == Seq::<char>::empty(),
            p@.ts == Seq::<(u32, Seq<char>)>::empty(),
            p@.timestamp == seq![0u32],
            p.live == false,
            p@.events == Seq::<ServerMessage>::empty(),
    {
        let mut timestamp: Vec<u32> = Vec::new();
        timestamp.push(0);
        let p = PlayList {
            sequence: 0,
            m3u8: String::new(),
            ts: Vec::new(),
            timestamp,
            live: false,
            events: Vec::new(),
        };
        proof {
            assert(p@.ts =~= Seq::<(u32, Seq<char>)>::empty());
            assert(p@.timestamp =~= seq![0u32]);
        }
        p
    }

    /// Rolls the window and re-renders the playlist once it is full: the
    /// oldest entry leaves when the window just overflowed and the stream
    /// goes on, the M3U8 text is rendered from the remaining entries, the
    /// first update turns the stream live and raises `Live`, an ending
    /// update raises `Off`, and the media sequence grows by one.  Below a
    /// full window nothing changes.
    pub fn update(&mut self, end: bool)
        requires
            old(self).wf(),
            old(self)@.ts.len() >= WINDOW ==> old(self).sequence < usize::MAX,
        ensures
            final(self).wf(),
            final(self)@ == spec_update(old(self)@, end),
            final(self).sequence >= old(self).sequence,
            final(self)@.timestamp.len() == final(self)@.ts.len() + 1,
            final(self)@.events.len() >= old(self)@.events.len(),
    {
        let ghost m = self@;
        if self.ts.len() >= WINDOW {
            if self.ts.len() == WINDOW + 1 && !end {
                self.ts.remove(0);
                self.timestamp.remove(0);
                proof {
                    assert(self@.ts =~= m.ts.drop_first());
                    assert(self@.timestamp =~= m.timestamp.drop_first());
                }
            }
            let ghost list = self@.ts;
            proof {
                assert(forall|i: int| 0 <= i < list.len() ==> (#[trigger] list[i]).0 < u32::MAX);
            }

            let mut target_duration: u32 = 0;
            let mut i: usize = 0;
            proof {
                assert(list.take(0) =~= Seq::<(u32, Seq<char>)>::empty());
            }
            while i < self.ts.len()
                invariant
                    i <= self.ts@.len(),
                    list == self@.ts,
                    list.len() == self.ts@.len(),
                    forall|j: int| 0 <= j < list.len() ==> (#[trigger] list[j]).0 < u32::MAX,
                    target_duration == spec_target_duration(list.take(i as int)),
                decreases self.ts@.len() - i,
            {
                let d: u32 = self.ts[i].0;
                proof {
                    assert(list[i as int].0 == d);
                    assert(list.take(i + 1).drop_last() =~= list.take(i as int));
                    assert(list.take(i + 1).last() == list[i as int]);
                }
                target_duration = if target_duration <= d {
                    d + 1
                } else {
                    target_duration
                };
                i = i + 1;
            }
            proof {
                assert(list.take(list.len() as int) =~= list);
            }

            let mut m3u8 = String::new();
            m3u8.append("#EXTM3U\r\n");
            m3u8.append("#EXT-X-VERSION:3\r\n");
            m3u8.append("#EXT-X-TARGETDURATION:");
            append_decimal(&mut m3u8, target_duration as u64);
            m3u8.append("\r\n");
            m3u8.append("#EXT-X-MEDIA-SEQUENCE:");
            append_decimal(&mut m3u8, self.sequence as u64);
            m3u8.append("\r\n");
            let ghost header = m3u8@;

            let mut j: usize = 0;
            proof {
                assert(m3u8@ =~= header + spec_entry_lines(list.take(0)));
            }
            while j < self.ts.len()
                invariant
                    j <= self.ts@.len(),
                    list == self@.ts,
                    list.len() == self.ts@.len(),
                    m3u8@ == header + spec_entry_lines(list.take(j as int)),
                decreases self.ts@.len() - j,
            {
                m3u8.append("#EXTINF:");
                let d: u32 = self.ts[j].0;
                append_decimal(&mut m3u8, d as u64);
                m3u8.append(".0000\r\n");
                m3u8.append("http://127.0.0.1:1337/");
                m3u8.append(self.ts[j].1.as_str());
                m3u8.append("\r\n");
                proof {
                    assert(list[j as int].0 == d);
                    assert(list[j as int].1 == self.ts@[j as int].1@);
                    assert(list.take(j + 1).drop_last() =~= list.take(j as int));
                    assert(list.take(j + 1).last() == list[j as int]);
                    assert(m3u8@ =~= header + (spec_entry_lines(list.take(j as int))
                        + spec_extinf(list[j as int])));
                }
                j = j + 1;
            }
            if end {
                m3u8.append("#EXT-X-ENDLIST\r\n");
            }
            proof {
                assert(list.take(list.len() as int) =~= list);
                assert(m3u8@ =~= spec_m3u8_render(list, m.sequence, end));
            }
            self.m3u8 = m3u8;

            if self.sequence == 0 {
                self.live = true;
                self.events.push(ServerMessage::Live);
            }
            if end {
                self.events.push(ServerMessage::Off);
            }
            self.sequence = self.sequence + 1;
            proof {
                let su = spec_update(m, end);
                assert(self@.ts =~~= su.ts);
                assert(self@.timestamp =~= su.timestamp);
                assert(self@.m3u8 =~= su.m3u8);
                assert(self@.events =~= su.events);
                assert(self@ == su);
            }
        }
    }

    /// Records a cut segment and updates the playlist, returning the
    /// segment's duration in seconds.  `timestamp` is the millisecond
    /// media time of the keyframe that opened the next segment; on the
    /// final push the previous entry's duration is reused.  Afterwards
    /// there is always one more cumulative timestamp than window entries,
    /// and an ending push onto an empty playlist raises no event and
    /// leaves the liveness flag alone.
    pub fn push(&mut self, timestamp: u32, filename: String, end: bool) -> (r: u64)
        requires
            old(self).wf(),
            old(self).sequence < usize::MAX,
            !end ==> timestamp / 1000 + 1 >= old(self)@.timestamp.last(),
            end && old(self)@.ts.len() > 0 ==> old(self)@.ts.last().0
                + old(self)@.timestamp.last() <= u32::MAX,
        ensures
            final(self).wf(),
            final(self)@ == spec_push(old(self)@, timestamp, filename@, end),
            r == spec_push_duration(old(self)@, timestamp, end),
            final(self).sequence >= old(self).sequence,
            final(self)@.timestamp.len() == final(self)@.ts.len() + 1,
            end && old(self)@.ts.len() == 0 ==> final(self)@.events == old(self)@.events
                && final(self).live == old(self).live,
    {
        let ghost m = self@;
        let ts_sec: u32 = timestamp / 1000 + 1;
        let mut new_timestamp: u32 = ts_sec;
        let mut duration: u32 = ts_sec;
        let t: u32 = self.timestamp[self.timestamp.len() - 1];
        proof {
            assert(t == m.timestamp.last());
        }
        if end {
            if self.ts.len() > 0 {
                let d: u32 = self.ts[self.ts.len() - 1].0;
                proof {
                    assert(d == m.ts.last().0);
                }
                new_timestamp = d + t;
                duration = d;
            }
        } else {
            duration = ts_sec - t;
        }
        self.ts.push((duration, filename));
        self.timestamp.push(new_timestamp);
        proof {
            assert(duration == spec_push_duration(m, timestamp, end));
            assert(new_timestamp == spec_push_timestamp(m, timestamp, end));
            assert(self@.ts =~~= m.ts + seq![(spec_push_duration(m, timestamp, end),
                filename@)]);
            assert(self@.timestamp =~= m.timestamp + seq![spec_push_timestamp(m, timestamp,
                end)]);
            assert(self@.ts.last().0 < u32::MAX);
        }
        self.update(end);
        duration as u64
    }

    /// Returns the playlist to its starting state for a new publish; the
    /// liveness flag and pending events are left alone.
    pub fn reset(&mut self)
        ensures
            final(self).wf(),
            final(self).sequence == 0,
            final(self).m3u8@ == Seq::<char>::empty(),
            final(self)@.ts == Seq::<(u32, Seq<char>)>::empty(),
            final(self)@.timestamp == seq![0u32],
            final(self).live == old(self).live,
            final(self)@.events == old(self)@.events,
    {
        self.sequence = 0;
        self.m3u8 = String::new();
        self.ts.clear();
        self.timestamp.clear();
        self.timestamp.push(0);
        proof {
            assert(self@.ts =~= Seq::<(u32, Seq<char>)>::empty());
            assert(self@.timestamp =~= seq![0u32]);
        }
    }
}

/// The advertised target duration is strictly larger than every segment
/// duration in the window.
pub proof fn lemma_target_duration_exceeds(list: Seq<(u32, Seq<char>)>)
    requires
        forall|i: int| 0 <= i < list.len() ==> (#[trigger] list[i]).0 < u32::MAX,
    ensures
        forall|i: int| 0 <= i < list.len() ==> spec_target_duration(list)
            > (#[trigger] list[i]).0,
    decreases list.len(),
{
    if list.len() > 0 {
        assert(forall|i: int| 0 <= i < list.drop_last().len()
            ==> (#[trigger] list.drop_last()[i]).0 < u32::MAX);
        lemma_target_duration_exceeds(list.drop_last());
        assert(forall|i: int| 0 <= i < list.len() - 1 ==> (#[trigger] list[i]).0
            == list.drop_last()[i].0);
    }
}

/// A playlist rendered for a full window of two entries holds exactly two
/// entry blocks, one per segment, each opening with its `#EXTINF:` line.
pub proof fn lemma_entry_lines_window(list: Seq<(u32, Seq<char>)>)
    requires
        list.len() == 2,
    ensures
        spec_entry_lines(list) == spec_extinf(list[0]) + spec_extinf(list[1]),
{
    assert(list.drop_last().drop_last() =~= Seq::<(u32, Seq<char>)>::empty());
    assert(list.drop_last().last() == list[0]);
    assert(spec_entry_lines(list.drop_last().drop_last()) == Seq::<char>::empty());
    assert(spec_entry_lines(list.drop_last()) == Seq::<char>::empty() + spec_extinf(list[0]));
    assert(Seq::<char>::empty() + spec_extinf(list[0]) =~= spec_extinf(list[0]));
    assert(spec_entry_lines(list) =~= spec_extinf(list[0]) + spec_extinf(list[1]));
}

/// A playlist rendered with `end` set closes with the `#EXT-X-ENDLIST`
/// line, and one rendered without it does not.
pub proof fn lemma_m3u8_endlist(list: Seq<(u32, Seq<char>)>, sequence: nat)
    ensures
        spec_m3u8_render(list, sequence, true) == spec_m3u8_render(list, sequence, false)
            + "#EXT-X-ENDLIST\r\n"@,
{
    assert(spec_m3u8_render(list, sequence, false) =~= "#EXTM3U\r\n"@ + "#EXT-X-VERSION:3\r\n"@
        + "#EXT-X-TARGETDURATION:"@ + spec_decimal(spec_target_duration(list) as nat) + "\r\n"@
        + "#EXT-X-MEDIA-SEQUENCE:"@ + spec_decimal(sequence) + "\r\n"@ + spec_entry_lines(list));
    assert(spec_m3u8_render(list, sequence, true) =~= spec_m3u8_render(list, sequence, false)
        + "#EXT-X-ENDLIST\r\n"@);
}

} // verus!
