//! AAC audio configuration and ADTS framing.
//!
//! An FLV audio sequence header carries a two-byte AudioSpecificConfig; the
//! fields read from it are kept in [`AdtsConfig`].  Every raw AAC frame is
//! then wrapped in a seven-byte ADTS header whose thirteen-bit frame-length
//! field counts the header itself.

use vstd::prelude::*;

verus! {

/// The fields of a two-byte AudioSpecificConfig.
///
/// Layout: object type (5 bits), sampling frequency index (4 bits),
/// channel configuration (4 bits).
#[derive(Clone, Copy, Debug, PartialEq, Eq, Structural)]
pub struct AdtsConfig {
    pub object_type: u8,
    pub sampling_frequency_index: u8,
    pub channel_configuration: u8,
}

/// Object type read from the first config byte.
pub open spec fn spec_object_type(b0: u8) -> u8 {
    (b0 & 0xF8) >> 3
}

/// Sampling frequency index straddling the two config bytes.
pub open spec fn spec_sampling_frequency_index(b0: u8, b1: u8) -> u8 {
    ((b0 & 0x07) << 1) | (b1 >> 7)
}

/// Channel configuration read from the second config byte.
pub open spec fn spec_channel_configuration(b1: u8) -> u8 {
    (b1 >> 3) & 0x0F
}

/// The configuration parsed from the first two bytes of `data`.
pub open spec fn spec_parse_adts_config(data: Seq<u8>) -> AdtsConfig
    recommends
        data.len() >= 2,
{
    AdtsConfig {
        object_type: spec_object_type(data[0]),
        sampling_frequency_index: spec_sampling_frequency_index(data[0], data[1]),
        channel_configuration: spec_channel_configuration(data[1]),
    }
}

impl AdtsConfig {
    /// An empty configuration, used until the first audio sequence header.
    pub fn new() -> (c: AdtsConfig)
        ensures
            c.object_type == 0,
            c.sampling_frequency_index == 0,
            c.channel_configuration == 0,
    {
        AdtsConfig { object_type: 0, sampling_frequency_index: 0, channel_configuration: 0 }
    }

    /// Replaces the configuration with the one parsed from `data`.
    /// Input shorter than two bytes is a protocol violation: the
    /// configuration is left unchanged and an error is returned.
    pub fn set(&mut self, data: &[u8]) -> (r: Result<(), ()>)
        ensures
            data@.len() >= 2 ==> r is Ok && *final(self) == spec_parse_adts_config(data@),
            data@.len() < 2 ==> r is Err && *final(self) == *old(self),
    {
        if data.len() < 2 {
            return Err(());
        }
        let byte0 = data[0];
        let byte1 = data[1];
        self.object_type = (byte0 & 0xF8) >> 3;
        self.sampling_frequency_index = ((byte0 & 0x07) << 1) | (byte1 >> 7);
        self.channel_configuration = (byte1 >> 3) & 0x0F;
        Ok(())
    }
}

/// The seven ADTS header bytes for a frame of `frame_length` total bytes
/// (header included) under configuration `cfg`: syncword `FF F1`, profile
/// AAC-LC, then the sampling-frequency index, channel configuration and the
/// thirteen-bit frame length packed over bytes 2 to 5, and `FC` last.
pub open spec fn spec_adts_header(cfg: AdtsConfig, frame_length: u16) -> Seq<u8> {
    let b2 = 0x40u8 | (cfg.sampling_frequency_index << 2) | ((cfg.channel_configuration & 0x07)
        >> 2);
    let b3 = ((cfg.channel_configuration & 0x03) << 6) | (((frame_length & 0x1FFF) >> 11) as u8);
    let packed = ((frame_length & 0x7FF) << 5) | 0x1F;
    seq![0xFFu8, 0xF1u8, b2, b3, (packed >> 8) as u8, (packed & 0xFF) as u8, 0xFCu8]
}

/// Marker type owning the ADTS framing rule.
pub struct Adts {}

impl Adts {
    /// Wraps one raw AAC frame in an ADTS header.
    pub fn to_es_layer(adts_config: &AdtsConfig, data: Vec<u8>) -> (es: Vec<u8>)
        requires
            data@.len() + 7 <= usize::MAX,
        ensures
            es@ == spec_adts_header(*adts_config, (7 + data@.len()) as u16) + data@,
            es@.len() == 7 + data@.len(),
    {
        let mut es: Vec<u8> = Vec::with_capacity(7 + data.len());

        es.push(0xFF);
        es.push(0xF1);

        let profile: u8 = 0x40;
        let sampling_frequency_index: u8 = adts_config.sampling_frequency_index << 2;
        let channel_configuration0: u8 = (adts_config.channel_configuration & 0x07) >> 2;
        es.push(profile | sampling_frequency_index | channel_configuration0);

        let channel_configuration1: u8 = (adts_config.channel_configuration & 0x03) << 6;
        #[verifier::truncate]
        let frame_length: u16 = (7 + data.len()) as u16;
        let frame_length0: u8 = ((frame_length & 0x1FFF) >> 11) as u8;
        es.push(channel_configuration1 | frame_length0);

        let frame_length1: u16 = (frame_length & 0x7FF) << 5;
        let frame_length2: u16 = frame_length1 | 0b0000_0000_0001_1111;
        es.push((frame_length2 >> 8) as u8);
        es.push((frame_length2 & 0xff) as u8);

        es.push(0b1111_1100);

        let ghost header_only = es@;
        let mut i: usize = 0;
        while i < data.len()
            invariant
                i <= data@.len(),
                es@ == header_only + data@.subrange(0, i as int),
            decreases data@.len() - i,
        {
            es.push(data[i]);
            proof {
                assert(data@.subrange(0, i + 1 as int)
                    =~= data@.subrange(0, i as int).push(data@[i as int]));
            }
            i = i + 1;
        }

        proof {
            assert(data@.subrange(0, data@.len() as int) =~= data@);
            assert(header_only =~= spec_adts_header(*adts_config, (7 + data@.len()) as u16));
        }
        es
    }
}

/// The thirteen-bit frame-length field read back from an ADTS header.
pub open spec fn spec_adts_frame_length_field(h: Seq<u8>) -> nat
    recommends
        h.len() >= 7,
{
    ((h[3] & 0x03) as nat) * 2048 + (h[4] as nat) * 8 + ((h[5] >> 5) as nat)
}

/// Framing a raw frame of `n` bytes yields a header that starts with the
/// syncword `FF F1` and whose frame-length field reads back as `7 + n`,
/// whenever `7 + n` fits in thirteen bits.
pub proof fn lemma_adts_frame_length_round_trip(cfg: AdtsConfig, n: nat)
    requires
        7 + n < 8192,
    ensures
        spec_adts_header(cfg, (7 + n) as u16)[0] == 0xFF,
        spec_adts_header(cfg, (7 + n) as u16)[1] == 0xF1,
        spec_adts_frame_length_field(spec_adts_header(cfg, (7 + n) as u16)) == 7 + n,
{
    let fl = (7 + n) as u16;
    let cc = cfg.channel_configuration;
    assert(fl < 8192);
    let b3 = ((cc & 0x03) << 6) | (((fl & 0x1FFF) >> 11) as u8);
    let packed = ((fl & 0x7FF) << 5) | 0x1F;
    let b4 = (packed >> 8) as u8;
    let b5 = (packed & 0xFF) as u8;
    assert(fl < 8192 ==> ((b3 & 0x03) as nat) * 2048 + (b4 as nat) * 8 + ((b5 >> 5) as nat)
        == fl as nat) by (bit_vector)
        requires
            b3 == ((cc & 0x03) << 6) | (((fl & 0x1FFF) >> 11) as u8),
            b4 == ((((fl & 0x7FF) << 5) | 0x1F) >> 8) as u8,
            b5 == ((((fl & 0x7FF) << 5) | 0x1F) & 0xFF) as u8,
    ;
}

} // verus!
