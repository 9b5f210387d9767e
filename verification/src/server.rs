//! The per-publisher media pipeline.
//!
//! One [`Server`] lives for the length of one RTMP connection.  The caller
//! owns the socket and the session codec; it hands every decoded audio and
//! video message here as plain bytes with its timestamp, writes out the
//! segments this module cuts, and tears the session down when a method
//! returns an error — every error here is fatal for the session, never for
//! the playlist.

use vstd::prelude::*;
use crate::adts::{Adts, AdtsConfig, spec_parse_adts_config, spec_adts_header};
use crate::flv::Flv;
use crate::nalu::{Nalu, NaluConfig, spec_parse_config, spec_split_nalus, spec_annexb, has_idr,
    models_of};
use crate::playlist::{PlayList, spec_push, spec_push_duration};
use crate::ts::{TransportStream, TsPacketRec, spec_video_packets, spec_audio_packets,
    packet_models, spec_pat_packet, spec_pmt_packet, spec_cc_add};
use crate::util::{decimal_string, spec_decimal, spec_be_uint};

verus! {

/// Minimum media time between segment cuts, in milliseconds.
pub const WRITE_DURATION: u32 = 2000;

/// Why a session must end.  Every variant is fatal for the session and
/// leaves the playlist as it was.
#[derive(Clone, Copy, Debug, PartialEq, Eq, Structural)]
pub enum StreamError {
    /// A video tag body shorter than its five header bytes.
    ShortVideoTag,
    /// An audio tag body shorter than its two header bytes.
    ShortAudioTag,
    /// A malformed video sequence header.
    BadVideoConfig,
    /// A malformed audio sequence header.
    BadAudioConfig,
    /// Video data arrived before any video sequence header.
    MissingVideoConfig,
    /// A malformed run of length-prefixed NAL units.
    BadNalu,
    /// A keyframe arrived while the configuration holds no SPS or PPS.
    MissingParameterSets,
    /// An audio frame too large to frame.
    OversizedTag,
    /// A timestamp too large for the 33-bit PES clock fields.
    TimestampOverflow,
    /// A keyframe timestamp behind the playlist's last segment.
    TimestampReversed,
    /// The playlist counters reached their machine limits.
    PlaylistOverflow,
}

/// One cut segment: the file name the playlist advertises and the packets
/// to serialize into it.
#[derive(Debug, PartialEq, Eq)]
pub struct Segment {
    pub filename: String,
    pub packets: Vec<TsPacketRec>,
}

/// The per-session pipeline state.
pub struct Server {
    /// FLV capture builder; idle unless a capture file is requested.
    pub flv: Flv,
    /// The transport-stream packer.
    pub ts: TransportStream,
    /// The H.264 configuration from the last video sequence header.
    pub video_config: NaluConfig,
    /// The AAC configuration from the last audio sequence header.
    pub audio_config: AdtsConfig,
    /// Whether a keyframe has arrived yet; media before it is dropped.
    pub has_keyframe: bool,
    /// Media time after which the next keyframe cuts a segment.
    pub next_write: u32,
}

/// `s` with only the keyframe flag replaced.
pub open spec fn spec_with_keyframe(s: Server, hk: bool) -> Server {
    Server {
        flv: s.flv,
        ts: s.ts,
        video_config: s.video_config,
        audio_config: s.audio_config,
        has_keyframe: hk,
        next_write: s.next_write,
    }
}

impl Server {
    /// The packer counters stay in range and the configured prefix width
    /// fits a big-endian read.
    pub open spec fn wf(&self) -> bool {
        &&& self.ts.wf()
        &&& self.video_config.nalu_size <= 4
    }

    /// A fresh pipeline: nothing buffered, no configurations, the first
    /// segment cut no earlier than one write interval in.
    pub fn new() -> (s: Server)
        ensures
            s.wf(),
            s.has_keyframe == false,
            s.next_write == WRITE_DURATION,
            s.ts.video_continuity_counter == 0,
            s.ts.audio_continuity_counter == 0,
            s.ts.packets@ == Seq::<TsPacketRec>::empty(),
            s.video_config.sps@ == Seq::<Nalu>::empty(),
            s.video_config.pps@ == Seq::<Nalu>::empty(),
            s.video_config.nalu_size == 0,
            s.audio_config.object_type == 0,
            s.audio_config.sampling_frequency_index == 0,
            s.audio_config.channel_configuration == 0,
    {
        let s: Server = Server {
            flv: Flv::new(),
            ts: TransportStream::new(),
            video_config: NaluConfig::new(),
            audio_config: AdtsConfig::new(),
            has_keyframe: false,
            next_write: WRITE_DURATION,
        };
        s
    }

    /// Decides a publish request: refused without touching anything while
    /// the stream is live, accepted after a playlist reset otherwise.
    pub fn handle_publish_requested(&self, playlist: &mut PlayList) -> (accept: bool)
        ensures
            old(playlist).live ==> !accept && *final(playlist) == *old(playlist),
            !old(playlist).live ==> accept && {
                &&& final(playlist).wf()
                &&& final(playlist).sequence == 0
                &&& final(playlist).m3u8@ == Seq::<char>::empty()
                &&& final(playlist)@.ts == Seq::<(u32, Seq<char>)>::empty()
                &&& final(playlist)@.timestamp == seq![0u32]
                &&& final(playlist).live == old(playlist).live
                &&& final(playlist)@.events == old(playlist)@.events
            },
    {
        if playlist.live {
            return false;
        }
        playlist.reset();
        true
    }
}

impl Server {
    /// Feeds one video message through the pipeline.
    ///
    /// The message is parsed as an FLV video tag.  Messages before the
    /// first keyframe are dropped unless they carry a sequence header; a
    /// sequence header replaces the H.264 configuration; any other message
    /// has its NAL units split, re-emitted as Annex-B and packed.  A
    /// keyframe past the write threshold first cuts the buffered packets
    /// into a segment named `{timestamp}.ts` and records it in the
    /// playlist.  Every error is a session-fatal protocol violation or
    /// machine limit and leaves everything but the keyframe flag as it
    /// was.
    pub fn handle_video(&mut self, playlist: &mut PlayList, timestamp: u32, data: &[u8])
        -> (r: Result<Option<Segment>, StreamError>)
        requires
            old(self).wf(),
            old(playlist).wf(),
            old(playlist)@.timestamp.len() >= 1,
        ensures
            final(self).wf(),
            final(playlist).wf(),
            final(playlist)@.timestamp.len() >= 1,
            ({
                let s = *old(self);
                let p = old(playlist)@;
                if data@.len() < 5 {
                    r == Err::<Option<Segment>, StreamError>(StreamError::ShortVideoTag)
                        && *final(self) == s && final(playlist)@ == p
                } else {
                    let kf = (data@[0] >> 4) == 1;
                    let sh = data@[1] == 0;
                    let ct = spec_be_uint(data@.subrange(2, 5));
                    let payload = data@.skip(5);
                    let hk = s.has_keyframe || kf;
                    let s1 = spec_with_keyframe(s, hk);
                    if !hk && !sh {
                        r == Ok::<Option<Segment>, StreamError>(None) && *final(self) == s1
                            && final(playlist)@ == p
                    } else if sh {
                        match spec_parse_config(payload) {
                            Some(cfgm) => r == Ok::<Option<Segment>, StreamError>(None) && {
                                &&& final(self).video_config@ == cfgm
                                &&& final(self).ts == s.ts
                                &&& final(self).audio_config == s.audio_config
                                &&& final(self).has_keyframe == hk
                                &&& final(self).next_write == s.next_write
                                &&& final(playlist)@ == p
                            },
                            None => r == Err::<Option<Segment>, StreamError>(
                                StreamError::BadVideoConfig) && *final(self) == s1
                                && final(playlist)@ == p,
                        }
                    } else {
                        let cfg = s.video_config@;
                        let unchanged = *final(self) == s1 && final(playlist)@ == p;
                        if cfg.nalu_size < 1 {
                            r == Err::<Option<Segment>, StreamError>(
                                StreamError::MissingVideoConfig) && unchanged
                        } else {
                            match spec_split_nalus(payload, cfg.nalu_size as nat) {
                                None => r == Err::<Option<Segment>, StreamError>(
                                    StreamError::BadNalu) && unchanged,
                                Some(units) => {
                                    let es = spec_annexb(cfg, units);
                                    let cut = kf && timestamp > s.next_write;
                                    if has_idr(units) && (cfg.sps.len() < 1 || cfg.pps.len()
                                        < 1) {
                                        r == Err::<Option<Segment>, StreamError>(
                                            StreamError::MissingParameterSets) && unchanged
                                    } else if (timestamp + ct) * 90 >= 0x2_0000_0000 {
                                        r == Err::<Option<Segment>, StreamError>(
                                            StreamError::TimestampOverflow) && unchanged
                                    } else if cut && p.sequence == usize::MAX {
                                        r == Err::<Option<Segment>, StreamError>(
                                            StreamError::PlaylistOverflow) && unchanged
                                    } else if cut && timestamp / 1000 + 1 < p.timestamp.last() {
                                        r == Err::<Option<Segment>, StreamError>(
                                            StreamError::TimestampReversed) && unchanged
                                    } else {
                                        let common = final(self).has_keyframe == hk
                                            && final(self).video_config == s.video_config
                                            && final(self).audio_config == s.audio_config
                                            && final(self).ts.audio_continuity_counter
                                            == s.ts.audio_continuity_counter
                                            && final(self).ts.video_continuity_counter
                                            == spec_cc_add(s.ts.video_continuity_counter,
                                            spec_video_packets(s.ts.video_continuity_counter,
                                            timestamp as u64, ct as u64, kf, es).len());
                                        if cut {
                                            (r matches Ok(o) && o matches Some(seg) && {
                                                &&& common
                                                &&& seg.filename@ == spec_decimal(
                                                    timestamp as nat) + ".ts"@
                                                &&& packet_models(seg.packets@)
                                                    == seq![spec_pat_packet(),
                                                    spec_pmt_packet()] + packet_models(
                                                    s.ts.packets@)
                                                &&& final(playlist)@ == spec_push(p, timestamp,
                                                    seg.filename@, false)
                                                &&& final(self).next_write == timestamp
                                                    + WRITE_DURATION
                                                &&& packet_models(final(self).ts.packets@)
                                                    == spec_video_packets(
                                                    s.ts.video_continuity_counter,
                                                    timestamp as u64, ct as u64, kf, es)
                                            })
                                        } else {
                                            (r matches Ok(o) && o is None && {
                                                &&& common
                                                &&& final(playlist)@ == p
                                                &&& final(self).next_write == s.next_write
                                                &&& packet_models(final(self).ts.packets@)
                                                    == packet_models(s.ts.packets@)
                                                    + spec_video_packets(
                                                    s.ts.video_continuity_counter,
                                                    timestamp as u64, ct as u64, kf, es)
                                            })
                                        }
                                    }
                                }
                            }
                        }
                    }
                }
            }),
    {
        let video = match Flv::read_video(data) {
            Some(v) => v,
            None => {
                return Err(StreamError::ShortVideoTag);
            },
        };
        if video.is_keyframe {
            self.has_keyframe = true;
        }
        if !(self.has_keyframe || video.is_sequence_header) {
            return Ok(None);
        }
        if video.is_sequence_header {
            let set_result = self.video_config.set(video.data.as_slice());
            match set_result {
                Ok(()) => {
                    proof {
                        let ghost b4: u8 = video.data@[4];
                        assert(b4 & 0b11 <= 3) by (bit_vector);
                    }
                    return Ok(None);
                },
                Err(()) => {
                    return Err(StreamError::BadVideoConfig);
                },
            }
        }
        let nalu_size = self.video_config.nalu_size;
        if nalu_size < 1 {
            return Err(StreamError::MissingVideoConfig);
        }
        let units = match Nalu::read(video.data.as_slice(), nalu_size) {
            Some(u) => u,
            None => {
                return Err(StreamError::BadNalu);
            },
        };
        if contains_idr(&units) && (self.video_config.sps.len() < 1
            || self.video_config.pps.len() < 1) {
            return Err(StreamError::MissingParameterSets);
        }
        let t64: u64 = timestamp as u64;
        let ct64: u64 = video.composition_time as u64;
        if (t64 + ct64) * 90 >= 0x2_0000_0000 {
            return Err(StreamError::TimestampOverflow);
        }
        let mut segment: Option<Segment> = None;
        if video.is_keyframe && timestamp > self.next_write {
            if playlist.sequence == usize::MAX {
                return Err(StreamError::PlaylistOverflow);
            }
            let last_ts: u32 = playlist.timestamp[playlist.timestamp.len() - 1];
            if timestamp / 1000 + 1 < last_ts {
                return Err(StreamError::TimestampReversed);
            }
            let mut filename = decimal_string(t64);
            filename.append(".ts");
            let seg_name = filename.clone();
            let packets = self.ts.take_segment();
            self.next_write = timestamp + WRITE_DURATION;
            let _duration: u64 = playlist.push(timestamp, filename, false);
            segment = Some(Segment { filename: seg_name, packets });
        }
        let es = Nalu::to_es_layer(&self.video_config, units);
        let ghost ts_before = self.ts;
        let _pushed: Result<(), ()> = self.ts.push_video(t64, ct64, video.is_keyframe, es);
        proof {
            let emitted = spec_video_packets(ts_before.video_continuity_counter, t64, ct64,
                video.is_keyframe, es@);
            assert(packet_models(self.ts.packets@).len() == self.ts.packets@.len());
            assert(packet_models(ts_before.packets@).len() == ts_before.packets@.len());
            assert(self.ts.packets@.len() - ts_before.packets@.len() == emitted.len());
        }
        Ok(segment)
    }

    /// Feeds one audio message through the pipeline.
    ///
    /// The message is parsed as an FLV audio tag.  Messages before the
    /// first video keyframe are dropped unless they carry a sequence
    /// header; a sequence header replaces the AAC configuration; any other
    /// message is framed in ADTS and packed.  Every error is session-fatal
    /// and leaves the pipeline as it was.
    pub fn handle_audio(&mut self, timestamp: u32, data: &[u8])
        -> (r: Result<(), StreamError>)
        requires
            old(self).wf(),
        ensures
            final(self).wf(),
            ({
                let s = *old(self);
                if data@.len() < 2 {
                    r == Err::<(), StreamError>(StreamError::ShortAudioTag) && *final(self) == s
                } else {
                    let sh = data@[1] == 0;
                    let payload = data@.skip(2);
                    if !s.has_keyframe && !sh {
                        r == Ok::<(), StreamError>(()) && *final(self) == s
                    } else if sh {
                        if payload.len() >= 2 {
                            r == Ok::<(), StreamError>(()) && {
                                &&& final(self).audio_config == spec_parse_adts_config(payload)
                                &&& final(self).ts == s.ts
                                &&& final(self).video_config == s.video_config
                                &&& final(self).has_keyframe == s.has_keyframe
                                &&& final(self).next_write == s.next_write
                            }
                        } else {
                            r == Err::<(), StreamError>(StreamError::BadAudioConfig)
                                && *final(self) == s
                        }
                    } else if payload.len() + 7 > usize::MAX {
                        r == Err::<(), StreamError>(StreamError::OversizedTag)
                            && *final(self) == s
                    } else if timestamp * 90 >= 0x2_0000_0000 {
                        r == Err::<(), StreamError>(StreamError::TimestampOverflow)
                            && *final(self) == s
                    } else {
                        let es = spec_adts_header(s.audio_config, (7 + payload.len()) as u16)
                            + payload;
                        r == Ok::<(), StreamError>(()) && {
                            &&& final(self).audio_config == s.audio_config
                            &&& final(self).video_config == s.video_config
                            &&& final(self).has_keyframe == s.has_keyframe
                            &&& final(self).next_write == s.next_write
                            &&& final(self).ts.video_continuity_counter
                                == s.ts.video_continuity_counter
                            &&& packet_models(final(self).ts.packets@) == packet_models(
                                s.ts.packets@) + spec_audio_packets(
                                s.ts.audio_continuity_counter, timestamp as u64, es)
                            &&& final(self).ts.audio_continuity_counter == spec_cc_add(
                                s.ts.audio_continuity_counter, spec_audio_packets(
                                s.ts.audio_continuity_counter, timestamp as u64, es).len())
                        }
                    }
                }
            }),
    {
        let audio = match Flv::read_audio(data) {
            Some(a) => a,
            None => {
                return Err(StreamError::ShortAudioTag);
            },
        };
        if !(self.has_keyframe || audio.is_sequence_header) {
            return Ok(());
        }
        if audio.is_sequence_header {
            let set_result = self.audio_config.set(audio.data.as_slice());
            match set_result {
                Ok(()) => {
                    return Ok(());
                },
                Err(()) => {
                    return Err(StreamError::BadAudioConfig);
                },
            }
        }
        if audio.data.len() > usize::MAX - 7 {
            return Err(StreamError::OversizedTag);
        }
        let t64: u64 = timestamp as u64;
        if t64 * 90 >= 0x2_0000_0000 {
            return Err(StreamError::TimestampOverflow);
        }
        let es = Adts::to_es_layer(&self.audio_config, audio.data);
        let ghost ts_at_push = self.ts;
        self.ts.push_audio(t64, es);
        proof {
            let emitted = spec_audio_packets(ts_at_push.audio_continuity_counter, t64, es@);
            assert(packet_models(self.ts.packets@).len() == self.ts.packets@.len());
            assert(packet_models(ts_at_push.packets@).len() == ts_at_push.packets@.len());
            assert(self.ts.packets@.len() - ts_at_push.packets@.len() == emitted.len());
        }
        Ok(())
    }

    /// Ends the stream: drains whatever is buffered into a final segment
    /// named `0.ts`, records it in the playlist as the closing entry, and
    /// returns the segment with the delay in milliseconds after which the
    /// caller lets the liveness flag drop — the closing segment's duration
    /// plus one second of viewer drain.
    pub fn end_stream(&mut self, playlist: &mut PlayList)
        -> (r: Result<(Segment, u64), StreamError>)
        requires
            old(self).wf(),
            old(playlist).wf(),
        ensures
            final(self).wf(),
            final(playlist).wf(),
            ({
                let s = *old(self);
                let p = old(playlist)@;
                if p.sequence == usize::MAX || (p.ts.len() > 0 && p.ts.last().0
                    + p.timestamp.last() > u32::MAX) {
                    r == Err::<(Segment, u64), StreamError>(StreamError::PlaylistOverflow)
                        && *final(self) == s && final(playlist)@ == p
                } else {
                    (r matches Ok(out) && {
                        &&& out.0.filename@ == "0.ts"@
                        &&& packet_models(out.0.packets@) == seq![spec_pat_packet(),
                            spec_pmt_packet()] + packet_models(s.ts.packets@)
                        &&& final(self).ts.packets@ == Seq::<TsPacketRec>::empty()
                        &&& final(self).ts.video_continuity_counter
                            == s.ts.video_continuity_counter
                        &&& final(self).ts.audio_continuity_counter
                            == s.ts.audio_continuity_counter
                        &&& final(self).has_keyframe == s.has_keyframe
                        &&& final(self).next_write == s.next_write
                        &&& final(self).video_config == s.video_config
                        &&& final(self).audio_config == s.audio_config
                        &&& final(playlist)@ == spec_push(p, 0, "0.ts"@, true)
                        &&& out.1 == spec_push_duration(p, 0, true) * 1000 + 1000
                    })
                }
            }),
    {
        if playlist.sequence == usize::MAX {
            return Err(StreamError::PlaylistOverflow);
        }
        if playlist.ts.len() > 0 {
            let d: u32 = playlist.ts[playlist.ts.len() - 1].0;
            let t: u32 = playlist.timestamp[playlist.timestamp.len() - 1];
            if d > u32::MAX - t {
                return Err(StreamError::PlaylistOverflow);
            }
        }
        let packets = self.ts.take_segment();
        let filename = "0.ts".to_owned();
        let seg_name = filename.clone();
        let duration: u64 = playlist.push(0, filename, true);
        Ok((Segment { filename: seg_name, packets }, duration * 1000 + 1000))
    }
}

fn contains_idr(units: &Vec<Nalu>) -> (r: bool)
    ensures
        r == has_idr(models_of(units@)),
{
    let mut i: usize = 0;
    while i < units.len()
        invariant
            i <= units@.len(),
            forall|j: int| 0 <= j < i ==> models_of(units@)[j].unit_type != 5,
        decreases units@.len() - i,
    {
        if units[i].unit_type == 5 {
            proof {
                assert(models_of(units@)[i as int].unit_type == 5);
            }
            return true;
        }
        i = i + 1;
    }
    proof {
        assert(!has_idr(models_of(units@)));
    }
    false
}

} // verus!
