use restream::adts::{Adts, AdtsConfig};
use restream::flv::{DataType, Flv, FlvAudio, FlvVideo, get_data_type};
use restream::nalu::{Nalu, NaluConfig};

#[test]
fn adts_config_parse_stereo_44k() {
    let mut cfg = AdtsConfig::new();
    assert!(cfg.set(&[0x12, 0x10]).is_ok());
    assert_eq!(cfg.object_type, 2);
    assert_eq!(cfg.sampling_frequency_index, 4);
    assert_eq!(cfg.channel_configuration, 2);
}

#[test]
fn adts_config_short_input_rejected() {
    let mut cfg = AdtsConfig::new();
    assert!(cfg.set(&[0x12]).is_err());
    assert_eq!(cfg.object_type, 0);
    assert_eq!(cfg.sampling_frequency_index, 0);
    assert_eq!(cfg.channel_configuration, 0);
}

#[test]
fn adts_header_stereo_44k_500_bytes() {
    let mut cfg = AdtsConfig::new();
    cfg.set(&[0x12, 0x10]).unwrap();
    let frame = vec![0u8; 500];
    let es = Adts::to_es_layer(&cfg, frame);
    assert_eq!(es.len(), 507);
    assert_eq!(&es[..7], &[0xFF, 0xF1, 0x50, 0x80, 0x3F, 0x7F, 0xFC]);
    assert!(es[7..].iter().all(|&b| b == 0));
}

#[test]
fn adts_frame_length_field_counts_header() {
    let mut cfg = AdtsConfig::new();
    cfg.set(&[0x12, 0x10]).unwrap();
    let es = Adts::to_es_layer(&cfg, vec![7u8; 100]);
    let frame_length =
        (((es[3] & 0x03) as usize) << 11) | ((es[4] as usize) << 3) | ((es[5] >> 5) as usize);
    assert_eq!(frame_length, 107);
}

fn sample_config() -> NaluConfig {
    let mut cfg = NaluConfig::new();
    let record = [
        0x01, 0x42, 0x00, 0x1E, // version, profile, compatibility, level
        0xFF, // low two bits: prefix width 4
        0xE1, // one SPS
        0x00, 0x04, 0x67, 0x42, 0x00, 0x1E, // SPS unit
        0x01, // one PPS
        0x00, 0x04, 0x68, 0xCE, 0x3C, 0x80, // PPS unit
    ];
    cfg.set(&record).unwrap();
    cfg
}

#[test]
fn nalu_config_parse_record() {
    let cfg = sample_config();
    assert_eq!(cfg.version, 1);
    assert_eq!(cfg.profile_indication, 0x42);
    assert_eq!(cfg.profile_compatability, 0x00);
    assert_eq!(cfg.level_indication, 0x1E);
    assert_eq!(cfg.nalu_size, 4);
    assert_eq!(cfg.sps.len(), 1);
    assert_eq!(cfg.pps.len(), 1);
    assert_eq!(cfg.sps[0].ref_idc, 3);
    assert_eq!(cfg.sps[0].unit_type, 7);
    assert_eq!(cfg.sps[0].data, vec![0x42, 0x00, 0x1E]);
    assert_eq!(cfg.pps[0].ref_idc, 3);
    assert_eq!(cfg.pps[0].unit_type, 8);
    assert_eq!(cfg.pps[0].data, vec![0xCE, 0x3C, 0x80]);
}

#[test]
fn nalu_config_truncated_record_rejected() {
    let mut cfg = NaluConfig::new();
    assert!(cfg.set(&[0x01, 0x42, 0x00, 0x1E, 0xFF]).is_err());
    assert!(cfg.set(&[0x01, 0x42, 0x00, 0x1E, 0xFF, 0xE1, 0x00, 0x04, 0x67]).is_err());
    assert_eq!(cfg.nalu_size, 0);
}

#[test]
fn split_nalus_roundtrip() {
    let data = [
        0x00, 0x00, 0x00, 0x02, 0x65, 0xAB, // one IDR unit
        0x00, 0x00, 0x00, 0x03, 0x06, 0x01, 0x02, // one SEI unit
    ];
    let units = Nalu::read(&data, 4).unwrap();
    assert_eq!(units.len(), 2);
    assert_eq!(units[0].unit_type, 5);
    assert_eq!(units[0].ref_idc, 3);
    assert_eq!(units[0].data, vec![0xAB]);
    assert_eq!(units[1].unit_type, 6);
    assert_eq!(units[1].data, vec![0x01, 0x02]);
}

#[test]
fn split_nalus_rejects_bad_lengths() {
    assert!(Nalu::read(&[0x00, 0x00, 0x00, 0x05, 0x65], 4).is_none());
    assert!(Nalu::read(&[0x00, 0x00], 4).is_none());
    assert!(Nalu::read(&[0x00, 0x00, 0x00, 0x00, 0x65], 4).is_none());
}

#[test]
fn annexb_idr_and_sei() {
    let cfg = sample_config();
    let units = vec![
        Nalu { ref_idc: 0, unit_type: 6, data: vec![0xAA] },
        Nalu { ref_idc: 3, unit_type: 5, data: vec![0xBB] },
    ];
    let es = Nalu::to_es_layer(&cfg, units);
    let expected: Vec<u8> = vec![
        0x00, 0x00, 0x00, 0x01, 0x09, 0x00, // access-unit delimiter
        0x00, 0x00, 0x01, 0x06, 0xAA, // SEI
        0x00, 0x00, 0x00, 0x01, 0x67, 0x42, 0x00, 0x1E, // SPS
        0x00, 0x00, 0x00, 0x01, 0x68, 0xCE, 0x3C, 0x80, // PPS
        0x00, 0x00, 0x01, 0x65, 0xBB, // IDR
    ];
    assert_eq!(es, expected);
}

#[test]
fn annexb_skips_other_unit_types() {
    let cfg = sample_config();
    let units = vec![
        Nalu { ref_idc: 0, unit_type: 9, data: vec![0x10] },
        Nalu { ref_idc: 2, unit_type: 1, data: vec![0x20] },
        Nalu { ref_idc: 0, unit_type: 12, data: vec![0x30] },
    ];
    let es = Nalu::to_es_layer(&cfg, units);
    let expected: Vec<u8> = vec![
        0x00, 0x00, 0x00, 0x01, 0x09, 0x00, // access-unit delimiter
        0x00, 0x00, 0x01, 0x41, 0x20, // the non-IDR slice alone
    ];
    assert_eq!(es, expected);
}

#[test]
fn annexb_emits_prelude_once_for_two_idrs() {
    let cfg = sample_config();
    let units = vec![
        Nalu { ref_idc: 3, unit_type: 5, data: vec![0x01] },
        Nalu { ref_idc: 3, unit_type: 5, data: vec![0x02] },
    ];
    let es = Nalu::to_es_layer(&cfg, units);
    let sps_starts = es.windows(4).filter(|w| w == &[0x01, 0x67, 0x42, 0x00]).count();
    assert_eq!(sps_starts, 1);
    assert_eq!(&es[..6], &[0x00, 0x00, 0x00, 0x01, 0x09, 0x00]);
}

#[test]
fn flv_video_read_fields() {
    let v = FlvVideo::read(&[0x17, 0x01, 0x00, 0x00, 0x64, 0xDE, 0xAD]).unwrap();
    assert!(v.is_keyframe);
    assert!(!v.is_sequence_header);
    assert_eq!(v.composition_time, 100);
    assert_eq!(v.data, vec![0xDE, 0xAD]);

    let inter = FlvVideo::read(&[0x27, 0x01, 0x00, 0x00, 0x00]).unwrap();
    assert!(!inter.is_keyframe);
    assert!(FlvVideo::read(&[0x17, 0x01, 0x00]).is_none());
}

#[test]
fn flv_audio_read_fields() {
    let a = FlvAudio::read(&[0xAF, 0x00, 0x12, 0x10]).unwrap();
    assert!(a.is_sequence_header);
    assert_eq!(a.data, vec![0x12, 0x10]);

    let frame = FlvAudio::read(&[0xAF, 0x01, 0x55]).unwrap();
    assert!(!frame.is_sequence_header);
    assert!(FlvAudio::read(&[0xAF]).is_none());
}

#[test]
fn flv_tag_framing_and_flush() {
    assert_eq!(get_data_type(DataType::Video), 0x09);
    assert_eq!(get_data_type(DataType::Audio), 0x08);

    let mut flv = Flv::new();
    flv.init_file(String::from("capture.flv"));
    assert_eq!(
        flv.bytes,
        vec![0x46, 0x4C, 0x56, 0x01, 0x05, 0x00, 0x00, 0x00, 0x09, 0x00, 0x00, 0x00, 0x00]
    );

    let flushed = flv.push(DataType::Audio, 0x010203, false, &[0xAB, 0xCD]);
    assert!(flushed.is_none());
    let tail = flv.bytes[13..].to_vec();
    assert_eq!(
        tail,
        vec![
            0x08, 0x00, 0x00, 0x02, // type, 24-bit length
            0x01, 0x02, 0x03, // 24-bit timestamp
            0x00, 0x00, 0x00, 0x00, // extended timestamp, stream id
            0xAB, 0xCD, // payload
            0x00, 0x00, 0x00, 0x0D, // previous tag size: 11 + 2
        ]
    );

    let before = flv.bytes.clone();
    let flushed = flv.push(DataType::Video, 0, true, &[0x01]).unwrap();
    assert_eq!(flushed, before);
    assert_eq!(flv.bytes.len(), 11 + 1 + 4);
}
