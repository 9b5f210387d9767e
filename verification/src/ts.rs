//! MPEG-TS packet model and packer.
//!
//! The packer turns elementary-stream payloads into a run of transport
//! packets: each payload opens with a PES packet carrying the timestamps
//! and up to [`PES_FIRST_CHUNK`] payload bytes, and continues in raw
//! packets of up to [`TS_PAYLOAD_MAX`] bytes.  Each stream keeps its own
//! four-bit continuity counter, stepped once per packet and never reset —
//! not even across segments.  A drained segment always opens with the PAT
//! and PMT packets.  Serializing packets to their 188-byte wire form and
//! writing files stays with the caller.

use vstd::prelude::*;
use vstd::arithmetic::div_mod::lemma_add_mod_noop;
use crate::util::copy_range;

verus! {

/// PID of the program association table.
pub const PAT_PID: u16 = 0;

/// PID of the program map table.
pub const PMT_PID: u16 = 256;

/// PID of the video elementary stream.
pub const VIDEO_PID: u16 = 257;

/// PID of the audio elementary stream.
pub const AUDIO_PID: u16 = 258;

/// PES stream id of the video stream.
pub const VIDEO_STREAM_ID: u8 = 224;

/// PES stream id of the audio stream.
pub const AUDIO_STREAM_ID: u8 = 192;

/// Payload bytes carried by the packet that holds the PES header.
pub const PES_FIRST_CHUNK: usize = 153;

/// Payload bytes carried by a raw continuation packet.
pub const TS_PAYLOAD_MAX: usize = 184;

/// The mathematical view of a packet header.
pub ghost struct TsHeaderModel {
    pub pid: u16,
    pub continuity_counter: u8,
}

/// The mathematical view of an adaptation field.
pub ghost struct AdaptationModel {
    pub random_access_indicator: bool,
    pub pcr: u64,
}

/// The mathematical view of a PES payload.
pub ghost struct PesModel {
    pub stream_id: u8,
    pub pts: u64,
    pub dts: Option<u64>,
    pub data: Seq<u8>,
}

/// The mathematical view of the program association table.
pub ghost struct PatModel {
    pub transport_stream_id: u16,
    pub program_num: u16,
    pub program_map_pid: u16,
}

/// The mathematical view of the program map table.
pub ghost struct PmtModel {
    pub program_num: u16,
    pub pcr_pid: u16,
    pub video_pid: u16,
    pub audio_pid: u16,
}

/// The mathematical view of a packet payload.
pub ghost enum TsPayloadModel {
    Pes(PesModel),
    Raw(Seq<u8>),
    Pat(PatModel),
    Pmt(PmtModel),
}

/// The mathematical view of a transport packet.
pub ghost struct TsPacketModel {
    pub header: TsHeaderModel,
    pub adaptation_field: Option<AdaptationModel>,
    pub payload: TsPayloadModel,
}

/// A packet header: the stream PID and the four-bit continuity counter.
#[derive(Clone, Debug, PartialEq, Eq)]
pub struct TsHeaderRec {
    pub pid: u16,
    pub continuity_counter: u8,
}

impl View for TsHeaderRec {
    type V = TsHeaderModel;

    open spec fn view(&self) -> TsHeaderModel {
        TsHeaderModel { pid: self.pid, continuity_counter: self.continuity_counter }
    }
}

/// An adaptation field, carried by keyframe packets with the program clock
/// reference in 90 kHz units.
#[derive(Clone, Debug, PartialEq, Eq)]
pub struct AdaptationRec {
    pub random_access_indicator: bool,
    pub pcr: u64,
}

impl View for AdaptationRec {
    type V = AdaptationModel;

    open spec fn view(&self) -> AdaptationModel {
        AdaptationModel { random_access_indicator: self.random_access_indicator, pcr: self.pcr }
    }
}

/// A PES header with the first chunk of its payload.  Timestamps are in
/// 90 kHz units and fit the 33-bit PES timestamp fields.
#[derive(Clone, Debug, PartialEq, Eq)]
pub struct PesRec {
    pub stream_id: u8,
    pub pts: u64,
    pub dts: Option<u64>,
    pub data: Vec<u8>,
}

impl View for PesRec {
    type V = PesModel;

    open spec fn view(&self) -> PesModel {
        PesModel { stream_id: self.stream_id, pts: self.pts, dts: self.dts, data: self.data@ }
    }
}

/// The program association table: one program pointing at the PMT.
#[derive(Clone, Debug, PartialEq, Eq)]
pub struct PatRec {
    pub transport_stream_id: u16,
    pub program_num: u16,
    pub program_map_pid: u16,
}

impl View for PatRec {
    type V = PatModel;

    open spec fn view(&self) -> PatModel {
        PatModel {
            transport_stream_id: self.transport_stream_id,
            program_num: self.program_num,
            program_map_pid: self.program_map_pid,
        }
    }
}

/// The program map table: H.264 video and ADTS audio streams, with the
/// clock carried on the video PID.
#[derive(Clone, Debug, PartialEq, Eq)]
pub struct PmtRec {
    pub program_num: u16,
    pub pcr_pid: u16,
    pub video_pid: u16,
    pub audio_pid: u16,
}

impl View for PmtRec {
    type V = PmtModel;

    open spec fn view(&self) -> PmtModel {
        PmtModel {
            program_num: self.program_num,
            pcr_pid: self.pcr_pid,
            video_pid: self.video_pid,
            audio_pid: self.audio_pid,
        }
    }
}

/// A packet payload.
#[derive(Clone, Debug, PartialEq, Eq)]
pub enum TsPayloadRec {
    Pes(PesRec),
    Raw(Vec<u8>),
    Pat(PatRec),
    Pmt(PmtRec),
}

impl View for TsPayloadRec {
    type V = TsPayloadModel;

    open spec fn view(&self) -> TsPayloadModel {
        match self {
            TsPayloadRec::Pes(p) => TsPayloadModel::Pes(p@),
            TsPayloadRec::Raw(d) => TsPayloadModel::Raw(d@),
            TsPayloadRec::Pat(p) => TsPayloadModel::Pat(p@),
            TsPayloadRec::Pmt(p) => TsPayloadModel::Pmt(p@),
        }
    }
}

/// One transport packet, before serialization to its 188-byte wire form.
#[derive(Clone, Debug, PartialEq, Eq)]
pub struct TsPacketRec {
    pub header: TsHeaderRec,
    pub adaptation_field: Option<AdaptationRec>,
    pub payload: TsPayloadRec,
}

impl View for TsPacketRec {
    type V = TsPacketModel;

    open spec fn view(&self) -> TsPacketModel {
        TsPacketModel {
            header: self.header@,
            adaptation_field: match self.adaptation_field {
                Some(a) => Some(a@),
                None => None,
            },
            payload: self.payload@,
        }
    }
}

/// The views of a run of packets.
pub open spec fn packet_models(ps: Seq<TsPacketRec>) -> Seq<TsPacketModel> {
    ps.map_values(|p: TsPacketRec| p@)
}

/// A continuity counter stepped `n` times, modulo 16.
pub open spec fn spec_cc_add(cc: u8, n: nat) -> u8 {
    (((cc + n) % 16) as u8)
}

/// The PES payload chunk of the packet carrying the PES header.
pub open spec fn spec_first_chunk(es: Seq<u8>) -> Seq<u8> {
    if es.len() <= PES_FIRST_CHUNK {
        es
    } else {
        es.take(PES_FIRST_CHUNK as int)
    }
}

/// What is left of the payload after the PES packet.
pub open spec fn spec_after_first_chunk(es: Seq<u8>) -> Seq<u8> {
    if es.len() <= PES_FIRST_CHUNK {
        Seq::empty()
    } else {
        es.skip(PES_FIRST_CHUNK as int)
    }
}

/// The raw continuation packets for the remaining payload: chunks of up to
/// [`TS_PAYLOAD_MAX`] bytes, each stepping the continuity counter.
pub open spec fn spec_raw_packets(pid: u16, cc: u8, rest: Seq<u8>) -> Seq<TsPacketModel>
    decreases rest.len(),
{
    if rest.len() == 0 {
        Seq::empty()
    } else {
        let chunk = if rest.len() <= TS_PAYLOAD_MAX {
            rest
        } else {
            rest.take(TS_PAYLOAD_MAX as int)
        };
        let after = if rest.len() <= TS_PAYLOAD_MAX {
            Seq::empty()
        } else {
            rest.skip(TS_PAYLOAD_MAX as int)
        };
        seq![TsPacketModel {
            header: TsHeaderModel { pid, continuity_counter: cc },
            adaptation_field: None,
            payload: TsPayloadModel::Raw(chunk),
        }] + spec_raw_packets(pid, spec_cc_add(cc, 1), after)
    }
}

/// The packets emitted for one video payload: a PES packet with
/// presentation time `(timestamp + composition_time) * 90`, decoding time
/// `timestamp * 90`, and — on keyframes — a random-access adaptation field
/// with the clock reference `timestamp * 90`; then raw continuation
/// packets.
pub open spec fn spec_video_packets(cc: u8, timestamp: u64, composition_time: u64,
    is_keyframe: bool, es: Seq<u8>) -> Seq<TsPacketModel> {
    seq![TsPacketModel {
        header: TsHeaderModel { pid: VIDEO_PID, continuity_counter: cc },
        adaptation_field: if is_keyframe {
            Some(AdaptationModel { random_access_indicator: true, pcr: (timestamp * 90) as u64 })
        } else {
            None
        },
        payload: TsPayloadModel::Pes(PesModel {
            stream_id: VIDEO_STREAM_ID,
            pts: ((timestamp + composition_time) * 90) as u64,
            dts: Some((timestamp * 90) as u64),
            data: spec_first_chunk(es),
        }),
    }] + spec_raw_packets(VIDEO_PID, spec_cc_add(cc, 1), spec_after_first_chunk(es))
}

/// The packets emitted for one audio payload: a PES packet with
/// presentation time `timestamp * 90` and no decoding time or adaptation
/// field, then raw continuation packets.
pub open spec fn spec_audio_packets(cc: u8, timestamp: u64, es: Seq<u8>) -> Seq<TsPacketModel> {
    seq![TsPacketModel {
        header: TsHeaderModel { pid: AUDIO_PID, continuity_counter: cc },
        adaptation_field: None,
        payload: TsPayloadModel::Pes(PesModel {
            stream_id: AUDIO_STREAM_ID,
            pts: (timestamp * 90) as u64,
            dts: None,
            data: spec_first_chunk(es),
        }),
    }] + spec_raw_packets(AUDIO_PID, spec_cc_add(cc, 1), spec_after_first_chunk(es))
}

/// The fixed program association table packet.
pub open spec fn spec_pat_packet() -> TsPacketModel {
    TsPacketModel {
        header: TsHeaderModel { pid: PAT_PID, continuity_counter: 0 },
        adaptation_field: None,
        payload: TsPayloadModel::Pat(PatModel {
            transport_stream_id: 1,
            program_num: 1,
            program_map_pid: PMT_PID,
        }),
    }
}

/// The fixed program map table packet.
pub open spec fn spec_pmt_packet() -> TsPacketModel {
    TsPacketModel {
        header: TsHeaderModel { pid: PMT_PID, continuity_counter: 0 },
        adaptation_field: None,
        payload: TsPayloadModel::Pmt(PmtModel {
            program_num: 1,
            pcr_pid: VIDEO_PID,
            video_pid: VIDEO_PID,
            audio_pid: AUDIO_PID,
        }),
    }
}

/// The packer: packets buffered for the current segment and one continuity
/// counter per stream.
pub struct TransportStream {
    pub video_continuity_counter: u8,
    pub audio_continuity_counter: u8,
    pub packets: Vec<TsPacketRec>,
}

impl TransportStream {
    /// Both continuity counters stay below sixteen.
    pub open spec fn wf(&self) -> bool {
        &&& self.video_continuity_counter < 16
        &&& self.audio_continuity_counter < 16
    }

    /// An empty packer with both counters at zero.
    pub fn new() -> (ts: TransportStream)
        ensures
            ts.wf(),
            ts.video_continuity_counter == 0,
            ts.audio_continuity_counter == 0,
            ts.packets@ == Seq::<TsPacketRec>::empty(),
    {
        TransportStream {
            video_continuity_counter: 0,
            audio_continuity_counter: 0,
            packets: Vec::new(),
        }
    }

    /// A header for `pid` with the counter at zero.
    pub fn default_header(pid: u16) -> (h: TsHeaderRec)
        ensures
            h@ == (TsHeaderModel { pid, continuity_counter: 0 }),
    {
        TsHeaderRec { pid, continuity_counter: 0 }
    }

    /// The fixed PAT packet: program one, pointing at the PMT PID.
    pub fn default_pat() -> (p: TsPacketRec)
        ensures
            p@ == spec_pat_packet(),
    {
        TsPacketRec {
            header: TransportStream::default_header(PAT_PID),
            adaptation_field: None,
            payload: TsPayloadRec::Pat(PatRec {
                transport_stream_id: 1,
                program_num: 1,
                program_map_pid: PMT_PID,
            }),
        }
    }

    /// Pushes the raw continuation packets for `data[start..]`, stepping
    /// the counter once per packet, and returns the stepped counter.
    fn push_raw_packets(packets: &mut Vec<TsPacketRec>, pid: u16, cc: u8, data: &[u8],
        start: usize) -> (cc_out: u8)
        requires
            cc < 16,
            start <= data@.len(),
        ensures
            cc_out < 16,
            packet_models(final(packets)@) == packet_models(old(packets)@) + spec_raw_packets(
                pid, cc, data@.skip(start as int)),
            final(packets)@.len() >= old(packets)@.len(),
            cc_out == spec_cc_add(cc, (final(packets)@.len() - old(packets)@.len()) as nat),
    {
        let n: usize = data.len();
        let mut pos: usize = start;
        let mut cur: u8 = cc;
        proof {
            assert(packet_models(packets@) + spec_raw_packets(pid, cc, data@.skip(start as int))
                =~= packet_models(old(packets)@) + spec_raw_packets(pid, cc, data@.skip(
                start as int)));
            assert(spec_cc_add(cc, 0) == cc);
        }
        while pos < n
            invariant
                cur < 16,
                start <= pos <= n == data@.len(),
                packets@.len() >= old(packets)@.len(),
                packet_models(old(packets)@) + spec_raw_packets(pid, cc, data@.skip(start as int))
                    == packet_models(packets@) + spec_raw_packets(pid, cur, data@.skip(
                    pos as int)),
                cur == spec_cc_add(cc, (packets@.len() - old(packets)@.len()) as nat),
            decreases n - pos,
        {
            let ghost remaining = data@.skip(pos as int);
            let ghost k = (packets@.len() - old(packets)@.len()) as nat;
            let chunk_len: usize = if n - pos <= TS_PAYLOAD_MAX {
                n - pos
            } else {
                TS_PAYLOAD_MAX
            };
            let chunk = copy_range(data, pos, pos + chunk_len);
            let ghost prev = packets@;
            let packet = TsPacketRec {
                header: TsHeaderRec { pid, continuity_counter: cur },
                adaptation_field: None,
                payload: TsPayloadRec::Raw(chunk),
            };
            packets.push(packet);
            cur = (cur + 1) % 16;
            pos = pos + chunk_len;
            proof {
                if remaining.len() <= TS_PAYLOAD_MAX {
                    assert(chunk@ =~= remaining);
                    assert(data@.skip(pos as int) =~= Seq::<u8>::empty());
                } else {
                    assert(chunk@ =~= remaining.take(TS_PAYLOAD_MAX as int));
                    assert(remaining.skip(TS_PAYLOAD_MAX as int) =~= data@.skip(pos as int));
                }
                assert(packet_models(packets@) =~= packet_models(prev) + seq![packet@]);
                let rest_packets = spec_raw_packets(pid, cur, data@.skip(pos as int));
                assert(packet_models(prev) + (seq![packet@] + rest_packets)
                    =~= (packet_models(prev) + seq![packet@]) + rest_packets);
                lemma_add_mod_noop(cc + k, 1, 16);
                assert(cur == spec_cc_add(cc, k + 1));
            }
        }
        proof {
            assert(data@.skip(pos as int) =~= Seq::<u8>::empty());
            assert(packet_models(packets@) + Seq::<TsPacketModel>::empty()
                =~= packet_models(packets@));
        }
        cur
    }

    /// Packs one video elementary-stream payload: a PES packet carrying
    /// PTS `(timestamp + composition_time) * 90`, DTS `timestamp * 90`,
    /// on keyframes a random-access adaptation field with the clock
    /// reference, then raw continuation packets — exactly
    /// [`spec_video_packets`] appended to the buffer.  Timestamps must fit
    /// the 33-bit PES fields.
    pub fn push_video(&mut self, timestamp: u64, composition_time: u64, is_keyframe: bool,
        video: Vec<u8>) -> (r: Result<(), ()>)
        requires
            old(self).wf(),
            (timestamp + composition_time) * 90 < 0x2_0000_0000,
        ensures
            final(self).wf(),
            r is Ok,
            packet_models(final(self).packets@) == packet_models(old(self).packets@)
                + spec_video_packets(old(self).video_continuity_counter, timestamp,
                composition_time, is_keyframe, video@),
            final(self).packets@.len() > old(self).packets@.len(),
            final(self).video_continuity_counter == spec_cc_add(
                old(self).video_continuity_counter,
                (final(self).packets@.len() - old(self).packets@.len()) as nat),
            final(self).audio_continuity_counter == old(self).audio_continuity_counter,
    {
        let cc0 = self.video_continuity_counter;
        let first_len: usize = if video.len() < PES_FIRST_CHUNK {
            video.len()
        } else {
            PES_FIRST_CHUNK
        };
        let first_data = copy_range(video.as_slice(), 0, first_len);
        let adaptation_field = if is_keyframe {
            Some(AdaptationRec { random_access_indicator: true, pcr: timestamp * 90 })
        } else {
            None
        };
        let packet = TsPacketRec {
            header: TsHeaderRec { pid: VIDEO_PID, continuity_counter: cc0 },
            adaptation_field,
            payload: TsPayloadRec::Pes(PesRec {
                stream_id: VIDEO_STREAM_ID,
                pts: (timestamp + composition_time) * 90,
                dts: Some(timestamp * 90),
                data: first_data,
            }),
        };
        let ghost prev = self.packets@;
        self.packets.push(packet);
        proof {
            assert(packet@.payload->Pes_0.data =~= spec_first_chunk(video@));
            assert(packet_models(self.packets@) =~= packet_models(prev) + seq![packet@]);
            if video@.len() <= PES_FIRST_CHUNK {
                assert(video@.skip(first_len as int) =~= spec_after_first_chunk(video@));
            } else {
                assert(video@.skip(first_len as int) =~= spec_after_first_chunk(video@));
            }
        }
        let cc1 = (cc0 + 1) % 16;
        let cc_out = TransportStream::push_raw_packets(&mut self.packets, VIDEO_PID, cc1,
            video.as_slice(), first_len);
        self.video_continuity_counter = cc_out;
        proof {
            let models = spec_video_packets(cc0, timestamp, composition_time, is_keyframe,
                video@);
            let raws = spec_raw_packets(VIDEO_PID, cc1, video@.skip(first_len as int));
            assert(packet_models(prev) + (seq![packet@] + raws) =~= (packet_models(prev)
                + seq![packet@]) + raws);
            assert(seq![packet@] + raws =~= models);
            let k = (self.packets@.len() - prev.len() - 1) as nat;
            lemma_add_mod_noop(cc0 + 1, k as int, 16);
            assert(cc_out == spec_cc_add(cc0, (self.packets@.len() - prev.len()) as nat));
        }
        Ok(())
    }

    /// Packs one audio elementary-stream payload: a PES packet carrying
    /// PTS `timestamp * 90`, no DTS and no adaptation field, then raw
    /// continuation packets — exactly [`spec_audio_packets`] appended to
    /// the buffer.  The timestamp must fit the 33-bit PES field.
    pub fn push_audio(&mut self, timestamp: u64, audio: Vec<u8>)
        requires
            old(self).wf(),
            timestamp * 90 < 0x2_0000_0000,
        ensures
            final(self).wf(),
            packet_models(final(self).packets@) == packet_models(old(self).packets@)
                + spec_audio_packets(old(self).audio_continuity_counter, timestamp, audio@),
            final(self).packets@.len() > old(self).packets@.len(),
            final(self).audio_continuity_counter == spec_cc_add(
                old(self).audio_continuity_counter,
                (final(self).packets@.len() - old(self).packets@.len()) as nat),
            final(self).video_continuity_counter == old(self).video_continuity_counter,
    {
        let cc0 = self.audio_continuity_counter;
        let first_len: usize = if audio.len() < PES_FIRST_CHUNK {
            audio.len()
        } else {
            PES_FIRST_CHUNK
        };
        let first_data = copy_range(audio.as_slice(), 0, first_len);
        let packet = TsPacketRec {
            header: TsHeaderRec { pid: AUDIO_PID, continuity_counter: cc0 },
            adaptation_field: None,
            payload: TsPayloadRec::Pes(PesRec {
                stream_id: AUDIO_STREAM_ID,
                pts: timestamp * 90,
                dts: None,
                data: first_data,
            }),
        };
        let ghost prev = self.packets@;
        self.packets.push(packet);
        proof {
            assert(packet@.payload->Pes_0.data =~= spec_first_chunk(audio@));
            assert(packet_models(self.packets@) =~= packet_models(prev) + seq![packet@]);
            assert(audio@.skip(first_len as int) =~= spec_after_first_chunk(audio@));
        }
        let cc1 = (cc0 + 1) % 16;
        let cc_out = TransportStream::push_raw_packets(&mut self.packets, AUDIO_PID, cc1,
            audio.as_slice(), first_len);
        self.audio_continuity_counter = cc_out;
        proof {
            let models = spec_audio_packets(cc0, timestamp, audio@);
            let raws = spec_raw_packets(AUDIO_PID, cc1, audio@.skip(first_len as int));
            assert(packet_models(prev) + (seq![packet@] + raws) =~= (packet_models(prev)
                + seq![packet@]) + raws);
            assert(seq![packet@] + raws =~= models);
            let k = (self.packets@.len() - prev.len() - 1) as nat;
            lemma_add_mod_noop(cc0 + 1, k as int, 16);
            assert(cc_out == spec_cc_add(cc0, (self.packets@.len() - prev.len()) as nat));
        }
    }

    /// Drains the buffered packets as one segment: the PAT packet, the PMT
    /// packet, then every buffered packet in insertion order.  The buffer
    /// is left empty; the continuity counters carry over to the next
    /// segment.
    pub fn take_segment(&mut self) -> (seg: Vec<TsPacketRec>)
        ensures
            packet_models(seg@) == seq![spec_pat_packet(), spec_pmt_packet()] + packet_models(
                old(self).packets@),
            final(self).packets@ == Seq::<TsPacketRec>::empty(),
            final(self).video_continuity_counter == old(self).video_continuity_counter,
            final(self).audio_continuity_counter == old(self).audio_continuity_counter,
    {
        let mut seg: Vec<TsPacketRec> = Vec::new();
        seg.push(TransportStream::default_pat());
        seg.push(TransportStream::default_pmt());
        seg.append(&mut self.packets);
        proof {
            assert(packet_models(seg@) =~= seq![spec_pat_packet(), spec_pmt_packet()]
                + packet_models(old(self).packets@));
        }
        seg
    }

    /// The fixed PMT packet: H.264 video and ADTS audio, clock on video.
    pub fn default_pmt() -> (p: TsPacketRec)
        ensures
            p@ == spec_pmt_packet(),
    {
        TsPacketRec {
            header: TransportStream::default_header(PMT_PID),
            adaptation_field: None,
            payload: TsPayloadRec::Pmt(PmtRec {
                program_num: 1,
                pcr_pid: VIDEO_PID,
                video_pid: VIDEO_PID,
                audio_pid: AUDIO_PID,
            }),
        }
    }
}

} // verus!
