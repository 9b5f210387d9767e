//! FLV tag demultiplexing.
//!
//! Each RTMP media message carries one FLV tag body.  Video bodies start
//! with a frame-type/codec byte, an AVC packet-type byte and a 24-bit
//! composition time; audio bodies start with a format byte and an AAC
//! packet-type byte.  The rest is the raw codec payload.  This module also
//! keeps the FLV file builder that frames tags for an on-disk FLV capture.

use vstd::prelude::*;
use crate::util::{copy_range, read_be_uint, spec_be_uint, lemma_be_uint_bound, pow256};

verus! {

/// A parsed FLV video tag body.
pub struct FlvVideo {
    /// Frame-type nibble equals 1.
    pub is_keyframe: bool,
    /// AVC packet-type byte equals 0.
    pub is_sequence_header: bool,
    /// 24-bit big-endian composition time in milliseconds.
    pub composition_time: u32,
    /// Remaining payload bytes.
    pub data: Vec<u8>,
}

impl FlvVideo {
    /// Parses a video tag body.  Bodies shorter than the five header bytes
    /// are a protocol violation and yield `None`.
    pub fn read(data: &[u8]) -> (r: Option<FlvVideo>)
        ensures
            data@.len() >= 5 ==> (r matches Some(v) && {
                &&& v.is_keyframe == ((data@[0] >> 4) == 1)
                &&& v.is_sequence_header == (data@[1] == 0)
                &&& v.composition_time == spec_be_uint(data@.subrange(2, 5))
                &&& v.data@ == data@.skip(5)
            }),
            data@.len() < 5 ==> r is None,
    {
        if data.len() < 5 {
            return None;
        }
        let byte0 = data[0];
        let byte1 = data[1];
        let ct = read_be_uint(data, 2, 3);
        proof {
            lemma_be_uint_bound(data@.subrange(2, 5));
            reveal_with_fuel(pow256, 4);
        }
        let payload = copy_range(data, 5, data.len());
        proof {
            assert(data@.subrange(5, data@.len() as int) =~= data@.skip(5));
        }
        Some(FlvVideo {
            is_keyframe: (byte0 >> 4) == 1,
            is_sequence_header: byte1 == 0,
            composition_time: ct as u32,
            data: payload,
        })
    }
}

/// A parsed FLV audio tag body.
pub struct FlvAudio {
    /// AAC packet-type byte equals 0.
    pub is_sequence_header: bool,
    /// Remaining payload bytes.
    pub data: Vec<u8>,
}

impl FlvAudio {
    /// Parses an audio tag body.  Bodies shorter than the two header bytes
    /// are a protocol violation and yield `None`.
    pub fn read(data: &[u8]) -> (r: Option<FlvAudio>)
        ensures
            data@.len() >= 2 ==> (r matches Some(a) && {
                &&& a.is_sequence_header == (data@[1] == 0)
                &&& a.data@ == data@.skip(2)
            }),
            data@.len() < 2 ==> r is None,
    {
        if data.len() < 2 {
            return None;
        }
        let byte1 = data[1];
        let payload = copy_range(data, 2, data.len());
        proof {
            assert(data@.subrange(2, data@.len() as int) =~= data@.skip(2));
        }
        Some(FlvAudio { is_sequence_header: byte1 == 0, data: payload })
    }
}

/// The kind of media a tag carries.
#[derive(Clone, Copy, Debug, PartialEq, Eq, Structural)]
pub enum DataType {
    Video,
    Audio,
}

/// The FLV tag-type byte for each kind of media.
pub open spec fn spec_data_type(data_type: DataType) -> u8 {
    match data_type {
        DataType::Video => 0x09,
        DataType::Audio => 0x08,
    }
}

/// Returns the FLV tag-type byte for `data_type`.
pub fn get_data_type(data_type: DataType) -> (r: u8)
    ensures
        r == spec_data_type(data_type),
{
    match data_type {
        DataType::Video => 0x09,
        DataType::Audio => 0x08,
    }
}

/// The nine FLV file-header bytes followed by the four-byte size of the
/// (absent) previous tag.
pub open spec fn spec_flv_file_header() -> Seq<u8> {
    seq![0x46u8, 0x4Cu8, 0x56u8, 0x01u8, 0x05u8, 0x00u8, 0x00u8, 0x00u8, 0x09u8, 0x00u8, 0x00u8,
        0x00u8, 0x00u8]
}

/// One framed FLV tag: the eleven header bytes, the payload, and the
/// four-byte size of the tag just written.
pub open spec fn spec_flv_tag(data_type: DataType, timestamp: u32, data: Seq<u8>, len: usize,
) -> Seq<u8>
    recommends
        len == data.len(),
{
    let pre_tag_size = (11 + len) as usize;
    seq![
        spec_data_type(data_type),
        (len >> 16) as u8,
        ((len >> 8) & 0xff) as u8,
        (len & 0xff) as u8,
        (timestamp >> 16) as u8,
        ((timestamp >> 8) & 0xff) as u8,
        (timestamp & 0xff) as u8,
        0u8, 0u8, 0u8, 0u8,
    ] + data + seq![
        (pre_tag_size >> 24) as u8,
        ((pre_tag_size >> 16) & 0xff) as u8,
        ((pre_tag_size >> 8) & 0xff) as u8,
        (pre_tag_size & 0xff) as u8,
    ]
}

/// Accumulates FLV-framed tags for a capture file.
pub struct Flv {
    /// Bytes framed so far and not yet handed out for writing.
    pub bytes: Vec<u8>,
    /// Path the caller writes flushed bytes to.
    pub file_path: String,
}

impl Flv {
    /// Parses a video tag body; see [`FlvVideo::read`].
    pub fn read_video(data: &[u8]) -> (r: Option<FlvVideo>)
        ensures
            data@.len() >= 5 ==> (r matches Some(v) && {
                &&& v.is_keyframe == ((data@[0] >> 4) == 1)
                &&& v.is_sequence_header == (data@[1] == 0)
                &&& v.composition_time == spec_be_uint(data@.subrange(2, 5))
                &&& v.data@ == data@.skip(5)
            }),
            data@.len() < 5 ==> r is None,
    {
        FlvVideo::read(data)
    }

    /// Parses an audio tag body; see [`FlvAudio::read`].
    pub fn read_audio(data: &[u8]) -> (r: Option<FlvAudio>)
        ensures
            data@.len() >= 2 ==> (r matches Some(a) && {
                &&& a.is_sequence_header == (data@[1] == 0)
                &&& a.data@ == data@.skip(2)
            }),
            data@.len() < 2 ==> r is None,
    {
        FlvAudio::read(data)
    }

    /// An empty builder with no target path.
    pub fn new() -> (f: Flv)
        ensures
            f.bytes@ == Seq::<u8>::empty(),
            f.file_path@ == Seq::<char>::empty(),
    {
        Flv { bytes: Vec::new(), file_path: String::new() }
    }

    /// Sets the target path and appends the FLV file header to the buffer.
    pub fn init_file(&mut self, file_path: String)
        ensures
            final(self).file_path@ == file_path@,
            final(self).bytes@ == old(self).bytes@ + spec_flv_file_header(),
    {
        self.file_path = file_path;
        self.bytes.push(0x46);
        self.bytes.push(0x4C);
        self.bytes.push(0x56);
        self.bytes.push(0x01);
        self.bytes.push(0x05);
        self.bytes.push(0x00);
        self.bytes.push(0x00);
        self.bytes.push(0x00);
        self.bytes.push(0x09);
        self.bytes.push(0x00);
        self.bytes.push(0x00);
        self.bytes.push(0x00);
        self.bytes.push(0x00);
        proof {
            assert(self.bytes@ =~= old(self).bytes@ + spec_flv_file_header());
        }
    }

    /// Frames one tag.  On a keyframe the bytes buffered so far are handed
    /// back first (for the caller to write out) and the buffer restarts with
    /// this tag alone; otherwise the tag is appended and nothing is flushed.
    pub fn push(&mut self, data_type: DataType, timestamp: u32, is_keyframe: bool, data: &[u8])
        -> (r: Option<Vec<u8>>)
        requires
            data@.len() + 11 <= usize::MAX,
        ensures
            is_keyframe ==> (r matches Some(flushed) && flushed@ == old(self).bytes@
                && final(self).bytes@ == spec_flv_tag(data_type, timestamp, data@,
                data@.len() as usize)),
            !is_keyframe ==> (r is None && final(self).bytes@ == old(self).bytes@ + spec_flv_tag(
                data_type, timestamp, data@, data@.len() as usize)),
            final(self).file_path@ == old(self).file_path@,
    {
        let mut r: Option<Vec<u8>> = None;
        if is_keyframe {
            let flushed = copy_range(self.bytes.as_slice(), 0, self.bytes.len());
            self.bytes.clear();
            proof {
                assert(flushed@ =~= old(self).bytes@);
            }
            r = Some(flushed);
        }
        let ghost at_tag_start = self.bytes@;

        let tag_type = get_data_type(data_type);
        let data_len: usize = data.len();
        self.bytes.push(tag_type);
        self.bytes.push((data_len >> 16) as u8);
        self.bytes.push(((data_len >> 8) & 0xff) as u8);
        self.bytes.push((data_len & 0xff) as u8);
        self.bytes.push((timestamp >> 16) as u8);
        self.bytes.push(((timestamp >> 8) & 0xff) as u8);
        self.bytes.push((timestamp & 0xff) as u8);
        self.bytes.push(0);
        self.bytes.push(0);
        self.bytes.push(0);
        self.bytes.push(0);
        self.bytes.extend_from_slice(data);
        let pre_tag_size: usize = 11 + data_len;
        self.bytes.push((pre_tag_size >> 24) as u8);
        self.bytes.push(((pre_tag_size >> 16) & 0xff) as u8);
        self.bytes.push(((pre_tag_size >> 8) & 0xff) as u8);
        self.bytes.push((pre_tag_size & 0xff) as u8);
        proof {
            assert(self.bytes@ =~= at_tag_start + spec_flv_tag(data_type, timestamp, data@,
                data@.len() as usize));
            if is_keyframe {
                assert(at_tag_start + spec_flv_tag(data_type, timestamp, data@,
                    data@.len() as usize) =~= spec_flv_tag(data_type, timestamp, data@,
                    data@.len() as usize));
            }
        }
        r
    }
}

} // verus!
