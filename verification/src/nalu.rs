//! H.264 NAL-unit handling.
//!
//! A video sequence header carries an AVCDecoderConfigurationRecord with the
//! stream's SPS and PPS units and the byte width of the NALU length prefixes;
//! every later video payload is a run of length-prefixed NAL units.  The
//! units are re-emitted as an Annex-B elementary stream: an access-unit
//! delimiter first, the configured SPS and PPS once before the first IDR
//! slice, and each kept unit behind a `00 00 01` start code.

use vstd::prelude::*;
use crate::util::{copy_range, read_be_uint, spec_be_uint, lemma_be_uint_bound, pow256,
    spec_be_bytes, lemma_be_bytes_len, lemma_be_uint_of_be_bytes};

verus! {

/// The mathematical view of a NAL unit.
pub ghost struct NaluModel {
    pub ref_idc: u8,
    pub unit_type: u8,
    pub data: Seq<u8>,
}

/// One NAL unit: two header fields and the raw byte sequence payload.
pub struct Nalu {
    /// Importance of the unit for reference, two bits.
    pub ref_idc: u8,
    /// Kind of the unit, five bits; 1 non-IDR slice, 5 IDR slice, 6 SEI,
    /// 7 SPS, 8 PPS.
    pub unit_type: u8,
    /// Raw byte sequence payload, without the header byte.
    pub data: Vec<u8>,
}

impl View for Nalu {
    type V = NaluModel;

    open spec fn view(&self) -> NaluModel {
        NaluModel { ref_idc: self.ref_idc, unit_type: self.unit_type, data: self.data@ }
    }
}

/// The views of a run of units.
pub open spec fn models_of(units: Seq<Nalu>) -> Seq<NaluModel> {
    units.map_values(|u: Nalu| u@)
}

/// The unit parsed from one header byte followed by its payload.
pub open spec fn spec_parse_unit(data: Seq<u8>) -> NaluModel
    recommends
        data.len() >= 1,
{
    NaluModel { ref_idc: (data[0] >> 5) & 0x03, unit_type: data[0] & 0x1f, data: data.skip(1) }
}

/// The serialized unit: header byte, then payload.
pub open spec fn spec_nalu_bytes(n: NaluModel) -> Seq<u8> {
    seq![(n.ref_idc << 5) | n.unit_type] + n.data
}

/// The units split out of a run of length-prefixed units, or `None` when a
/// prefix is truncated, zero, or runs past the end.
pub open spec fn spec_split_nalus(data: Seq<u8>, size: nat) -> Option<Seq<NaluModel>>
    recommends
        1 <= size <= 4,
    decreases data.len(),
{
    if data.len() == 0 {
        Some(Seq::empty())
    } else if data.len() < size {
        None
    } else {
        let len = spec_be_uint(data.take(size as int));
        if len == 0 || size + len > data.len() {
            None
        } else {
            let unit = spec_parse_unit(data.subrange(size as int, (size + len) as int));
            match spec_split_nalus(data.skip((size + len) as int), size) {
                Some(rest) => Some(seq![unit] + rest),
                None => None,
            }
        }
    }
}

/// Prepends already-split units to a split of the remaining bytes.
pub open spec fn spec_split_join(prefix: Seq<NaluModel>, rest: Option<Seq<NaluModel>>)
    -> Option<Seq<NaluModel>> {
    match rest {
        Some(r) => Some(prefix + r),
        None => None,
    }
}

impl Nalu {
    /// Parses one unit from its serialized bytes.  An empty unit is a
    /// protocol violation and yields `None`.
    pub fn read_unit(data: &[u8]) -> (r: Option<Nalu>)
        ensures
            data@.len() >= 1 ==> (r matches Some(n) && n@ == spec_parse_unit(data@)),
            data@.len() == 0 ==> r is None,
    {
        if data.len() == 0 {
            return None;
        }
        let nalu = data[0];
        let rbsp = copy_range(data, 1, data.len());
        proof {
            assert(data@.subrange(1, data@.len() as int) =~= data@.skip(1));
        }
        Some(Nalu { ref_idc: (nalu >> 5) & 0x03, unit_type: nalu & 0x1f, data: rbsp })
    }

    /// Splits a run of length-prefixed units.  Returns `None` exactly where
    /// [`spec_split_nalus`] does: a truncated prefix, a zero length, or a
    /// length past the end of the data.
    pub fn read(data: &[u8], nalu_size: u8) -> (r: Option<Vec<Nalu>>)
        requires
            1 <= nalu_size <= 4,
        ensures
            match spec_split_nalus(data@, nalu_size as nat) {
                Some(models) => r matches Some(units) && models_of(units@) == models,
                None => r is None,
            },
    {
        let size: usize = nalu_size as usize;
        let n: usize = data.len();
        let mut units: Vec<Nalu> = Vec::new();
        let mut pos: usize = 0;
        proof {
            assert(data@.skip(0) =~= data@);
            assert(models_of(units@) =~= Seq::<NaluModel>::empty());
        }
        while pos < n
            invariant
                1 <= size <= 4,
                size == nalu_size as usize,
                pos <= n == data@.len(),
                spec_split_nalus(data@, size as nat) == spec_split_join(models_of(units@),
                    spec_split_nalus(data@.skip(pos as int), size as nat)),
            decreases n - pos,
        {
            let ghost remaining = data@.skip(pos as int);
            if n - pos < size {
                return None;
            }
            let len64 = read_be_uint(data, pos, size);
            proof {
                lemma_be_uint_bound(data@.subrange(pos as int, pos as int + size as int));
                reveal_with_fuel(pow256, 5);
                assert(remaining.take(size as int)
                    =~= data@.subrange(pos as int, pos as int + size as int));
            }
            let len: usize = len64 as usize;
            if len == 0 {
                return None;
            }
            if n - pos - size < len {
                return None;
            }
            let unit_bytes = copy_range(data, pos + size, pos + size + len);
            let unit = match Nalu::read_unit(unit_bytes.as_slice()) {
                Some(u) => u,
                None => {
                    return None;
                },
            };
            let ghost prev_models = models_of(units@);
            units.push(unit);
            proof {
                assert(remaining.subrange(size as int, size as int + len as int)
                    =~= data@.subrange(pos + size, pos + size + len));
                assert(remaining.skip(size as int + len as int)
                    =~= data@.skip(pos + size + len));
                assert(models_of(units@) =~= prev_models + seq![unit@]);
                match spec_split_nalus(data@.skip(pos + size + len), size as nat) {
                    Some(rest) => {
                        assert(prev_models + (seq![unit@] + rest)
                            =~= (prev_models + seq![unit@]) + rest);
                    },
                    None => {},
                }
            }
            pos = pos + size + len;
        }
        proof {
            assert(data@.skip(pos as int) =~= Seq::<u8>::empty());
            assert(models_of(units@) + Seq::<NaluModel>::empty() =~= models_of(units@));
        }
        Some(units)
    }

    /// Parses `count` length-prefixed units (two-byte big-endian lengths)
    /// starting at `start`, returning them with the position just past the
    /// last one.  Returns `None` exactly where [`spec_parse_units`] does.
    fn read_units(data: &[u8], start: usize, count: u8) -> (r: Option<(Vec<Nalu>, usize)>)
        requires
            start <= data@.len(),
        ensures
            match spec_parse_units(data@.skip(start as int), count as nat) {
                Some(parsed) => r matches Some(p) && {
                    &&& models_of(p.0@) == parsed.0
                    &&& start <= p.1 <= data@.len()
                    &&& parsed.1 == data@.skip(p.1 as int)
                },
                None => r is None,
            },
    {
        let n: usize = data.len();
        let mut units: Vec<Nalu> = Vec::new();
        let mut pos: usize = start;
        let mut i: u8 = 0;
        proof {
            assert(models_of(units@) =~= Seq::<NaluModel>::empty());
        }
        while i < count
            invariant
                i <= count,
                start <= pos <= n == data@.len(),
                spec_parse_units(data@.skip(start as int), count as nat) == spec_units_join(
                    models_of(units@), spec_parse_units(data@.skip(pos as int),
                    (count - i) as nat)),
            decreases count - i,
        {
            let ghost remaining = data@.skip(pos as int);
            if n - pos < 2 {
                return None;
            }
            let len64 = read_be_uint(data, pos, 2);
            proof {
                lemma_be_uint_bound(data@.subrange(pos as int, pos as int + 2));
                reveal_with_fuel(pow256, 3);
                assert(remaining.take(2) =~= data@.subrange(pos as int, pos as int + 2));
            }
            let len: usize = len64 as usize;
            if len == 0 {
                return None;
            }
            if n - pos - 2 < len {
                return None;
            }
            let unit_bytes = copy_range(data, pos + 2, pos + 2 + len);
            let unit = match Nalu::read_unit(unit_bytes.as_slice()) {
                Some(u) => u,
                None => {
                    return None;
                },
            };
            let ghost prev_models = models_of(units@);
            units.push(unit);
            proof {
                assert(remaining.subrange(2, 2 + len as int)
                    =~= data@.subrange(pos + 2, pos + 2 + len));
                assert(remaining.skip(2 + len as int) =~= data@.skip(pos + 2 + len));
                assert(models_of(units@) =~= prev_models + seq![unit@]);
                match spec_parse_units(data@.skip(pos + 2 + len), (count - (i + 1)) as nat) {
                    Some(parsed) => {
                        assert(prev_models + (seq![unit@] + parsed.0)
                            =~= (prev_models + seq![unit@]) + parsed.0);
                    },
                    None => {},
                }
            }
            pos = pos + 2 + len;
            i = i + 1;
        }
        proof {
            assert(models_of(units@) + Seq::<NaluModel>::empty() =~= models_of(units@));
        }
        Some((units, pos))
    }

    /// Serializes this unit: header byte, then payload.
    fn to_vec(&self) -> (v: Vec<u8>)
        ensures
            v@ == spec_nalu_bytes(self@),
    {
        let mut v: Vec<u8> = Vec::new();
        let header: u8 = (self.ref_idc << 5) | self.unit_type;
        v.push(header);
        v.extend_from_slice(self.data.as_slice());
        proof {
            assert(v@ =~= spec_nalu_bytes(self@));
        }
        v
    }

    /// Emits the Annex-B elementary stream for a run of units: an
    /// access-unit delimiter before the first kept unit, the configured SPS
    /// and PPS once before the first IDR slice, a `00 00 01` start code
    /// before every kept unit, and nothing for the skipped types.
    ///
    /// A run holding an IDR slice needs at least one configured SPS and PPS;
    /// the caller checks that before any keyframe reaches the stream.
    pub fn to_es_layer(nalu_config: &NaluConfig, data: Vec<Nalu>) -> (es: Vec<u8>)
        requires
            has_idr(models_of(data@)) ==> nalu_config.sps@.len() >= 1 && nalu_config.pps@.len()
                >= 1,
        ensures
            es@ == spec_annexb(nalu_config@, models_of(data@)),
    {
        let ghost cfg = nalu_config@;
        let ghost models = models_of(data@);
        let mut es: Vec<u8> = Vec::new();
        let mut is_delimit = false;
        let mut is_keyframe_delimit = false;
        let mut i: usize = 0;
        proof {
            assert(models.skip(0) =~= models);
        }
        while i < data.len()
            invariant
                i <= data@.len(),
                models == models_of(data@),
                cfg == nalu_config@,
                has_idr(models) ==> nalu_config.sps@.len() >= 1 && nalu_config.pps@.len() >= 1,
                spec_annexb(cfg, models) == es@ + spec_annexb_from(cfg, models.skip(i as int),
                    is_delimit, is_keyframe_delimit),
            decreases data@.len() - i,
        {
            let ghost d0 = is_delimit;
            let ghost k0 = is_keyframe_delimit;
            let ghost es0 = es@;
            let ghost m = models[i as int];
            proof {
                assert(m == data@[i as int]@);
            }
            let t = data[i].unit_type;
            if t == 1 || t == 6 {
                if !is_delimit {
                    es.push(0x00);
                    es.push(0x00);
                    es.push(0x00);
                    es.push(0x01);
                    es.push(0x09);
                    es.push(0x00);
                    is_delimit = true;
                }
                es.push(0x00);
                es.push(0x00);
                es.push(0x01);
                let mut unit = data[i].to_vec();
                es.append(&mut unit);
            } else if t == 5 {
                if !is_delimit {
                    es.push(0x00);
                    es.push(0x00);
                    es.push(0x00);
                    es.push(0x01);
                    es.push(0x09);
                    es.push(0x00);
                    is_delimit = true;
                }
                if !is_keyframe_delimit {
                    proof {
                        assert(has_idr(models)) by {
                            assert(0 <= i < models.len() && models[i as int].unit_type == 5);
                        }
                    }
                    es.push(0x00);
                    es.push(0x00);
                    es.push(0x00);
                    es.push(0x01);
                    let mut sps = nalu_config.sps[0].to_vec();
                    es.append(&mut sps);
                    es.push(0x00);
                    es.push(0x00);
                    es.push(0x00);
                    es.push(0x01);
                    let mut pps = nalu_config.pps[0].to_vec();
                    es.append(&mut pps);
                    is_keyframe_delimit = true;
                }
                es.push(0x00);
                es.push(0x00);
                es.push(0x01);
                let mut unit = data[i].to_vec();
                es.append(&mut unit);
            }
            proof {
                assert(es@ =~= es0 + spec_annexb_step(cfg, m, d0, k0));
                assert(models.skip(i as int).drop_first() =~= models.skip(i + 1));
                let rest = spec_annexb_from(cfg, models.skip(i + 1), is_delimit,
                    is_keyframe_delimit);
                assert(es0 + (spec_annexb_step(cfg, m, d0, k0) + rest)
                    =~= (es0 + spec_annexb_step(cfg, m, d0, k0)) + rest);
            }
            i = i + 1;
        }
        proof {
            assert(models.skip(i as int) =~= Seq::<NaluModel>::empty());
            assert(es@ + Seq::<u8>::empty() =~= es@);
        }
        es
    }
}

/// The six-byte access-unit delimiter: a four-byte start code, the AUD
/// unit-type header, and one payload byte.
pub open spec fn spec_aud() -> Seq<u8> {
    seq![0x00u8, 0x00u8, 0x00u8, 0x01u8, 0x09u8, 0x00u8]
}

/// The four-byte start code put before in-band SPS and PPS units.
pub open spec fn spec_begin_delimiter() -> Seq<u8> {
    seq![0x00u8, 0x00u8, 0x00u8, 0x01u8]
}

/// The three-byte start code put before every kept unit.
pub open spec fn spec_inter_delimiter() -> Seq<u8> {
    seq![0x00u8, 0x00u8, 0x01u8]
}

/// Whether a unit of this type is kept in the elementary stream: non-IDR
/// slices, IDR slices and SEI units are; everything else is skipped.
pub open spec fn spec_emitted_type(t: u8) -> bool {
    t == 1 || t == 5 || t == 6
}

/// Whether the run holds an IDR slice.
pub open spec fn has_idr(ns: Seq<NaluModel>) -> bool {
    exists|i: int| 0 <= i < ns.len() && ns[i].unit_type == 5
}

/// The in-band parameter sets put before the first IDR slice: the first
/// configured SPS and the first configured PPS, each behind a four-byte
/// start code.
pub open spec fn spec_keyframe_prelude(cfg: NaluConfigModel) -> Seq<u8>
    recommends
        cfg.sps.len() >= 1,
        cfg.pps.len() >= 1,
{
    spec_begin_delimiter() + spec_nalu_bytes(cfg.sps[0]) + spec_begin_delimiter()
        + spec_nalu_bytes(cfg.pps[0])
}

/// What one unit contributes to the elementary stream, given whether the
/// access-unit delimiter and the keyframe prelude were already emitted.
pub open spec fn spec_annexb_step(cfg: NaluConfigModel, n: NaluModel, delimited: bool,
    prelude_done: bool) -> Seq<u8> {
    if n.unit_type == 1 || n.unit_type == 6 {
        (if delimited {
            Seq::empty()
        } else {
            spec_aud()
        }) + spec_inter_delimiter() + spec_nalu_bytes(n)
    } else if n.unit_type == 5 {
        (if delimited {
            Seq::empty()
        } else {
            spec_aud()
        }) + (if prelude_done {
            Seq::empty()
        } else {
            spec_keyframe_prelude(cfg)
        }) + spec_inter_delimiter() + spec_nalu_bytes(n)
    } else {
        Seq::empty()
    }
}

/// The elementary stream emitted for a run of units, threading the two
/// emission flags from front to back.
pub open spec fn spec_annexb_from(cfg: NaluConfigModel, ns: Seq<NaluModel>, delimited: bool,
    prelude_done: bool) -> Seq<u8>
    decreases ns.len(),
{
    if ns.len() == 0 {
        Seq::empty()
    } else {
        spec_annexb_step(cfg, ns[0], delimited, prelude_done) + spec_annexb_from(cfg,
            ns.drop_first(), delimited || spec_emitted_type(ns[0].unit_type), prelude_done
            || ns[0].unit_type == 5)
    }
}

/// The Annex-B elementary stream for a run of units under a configuration.
pub open spec fn spec_annexb(cfg: NaluConfigModel, ns: Seq<NaluModel>) -> Seq<u8> {
    spec_annexb_from(cfg, ns, false, false)
}

/// `count` units parsed off the front of `data`, each behind a two-byte
/// big-endian length, together with the bytes left over; `None` when a
/// length is truncated, zero, or runs past the end.
pub open spec fn spec_parse_units(data: Seq<u8>, count: nat) -> Option<(Seq<NaluModel>, Seq<u8>)>
    decreases count,
{
    if count == 0 {
        Some((Seq::empty(), data))
    } else if data.len() < 2 {
        None
    } else {
        let len = spec_be_uint(data.take(2));
        if len == 0 || 2 + len > data.len() {
            None
        } else {
            let unit = spec_parse_unit(data.subrange(2, 2 + len as int));
            match spec_parse_units(data.skip(2 + len as int), (count - 1) as nat) {
                Some(parsed) => Some((seq![unit] + parsed.0, parsed.1)),
                None => None,
            }
        }
    }
}

/// Prepends already-parsed units to a parse of the remaining bytes.
pub open spec fn spec_units_join(prefix: Seq<NaluModel>, rest: Option<(Seq<NaluModel>, Seq<u8>)>)
    -> Option<(Seq<NaluModel>, Seq<u8>)> {
    match rest {
        Some(parsed) => Some((prefix + parsed.0, parsed.1)),
        None => None,
    }
}

/// The mathematical view of a decoder configuration record.
pub ghost struct NaluConfigModel {
    pub version: u8,
    pub profile_indication: u8,
    pub profile_compatability: u8,
    pub level_indication: u8,
    pub nalu_size: u8,
    pub sps: Seq<NaluModel>,
    pub pps: Seq<NaluModel>,
}

/// An AVCDecoderConfigurationRecord: fixed header fields, the width of NALU
/// length prefixes, and the configured SPS and PPS units.
pub struct NaluConfig {
    pub version: u8,
    pub profile_indication: u8,
    pub profile_compatability: u8,
    pub level_indication: u8,
    /// Width in bytes of each NALU length prefix, between 1 and 4.
    pub nalu_size: u8,
    pub sps: Vec<Nalu>,
    pub pps: Vec<Nalu>,
}

impl View for NaluConfig {
    type V = NaluConfigModel;

    open spec fn view(&self) -> NaluConfigModel {
        NaluConfigModel {
            version: self.version,
            profile_indication: self.profile_indication,
            profile_compatability: self.profile_compatability,
            level_indication: self.level_indication,
            nalu_size: self.nalu_size,
            sps: models_of(self.sps@),
            pps: models_of(self.pps@),
        }
    }
}

/// The configuration record parsed from a video sequence header payload:
/// four fixed bytes, the prefix width in the low two bits of byte 4, a
/// five-bit SPS count with that many units, then a PPS count byte with that
/// many units.  Trailing bytes are ignored.
pub open spec fn spec_parse_config(data: Seq<u8>) -> Option<NaluConfigModel> {
    if data.len() < 6 {
        None
    } else {
        let sps_count = data[5] & 0b11111;
        match spec_parse_units(data.skip(6), sps_count as nat) {
            None => None,
            Some(sps_parsed) => {
                if sps_parsed.1.len() < 1 {
                    None
                } else {
                    let pps_count = sps_parsed.1[0];
                    match spec_parse_units(sps_parsed.1.skip(1), pps_count as nat) {
                        None => None,
                        Some(pps_parsed) => Some(NaluConfigModel {
                            version: data[0],
                            profile_indication: data[1],
                            profile_compatability: data[2],
                            level_indication: data[3],
                            nalu_size: ((data[4] & 0b11) + 1) as u8,
                            sps: sps_parsed.0,
                            pps: pps_parsed.0,
                        }),
                    }
                }
            },
        }
    }
}

impl NaluConfig {
    /// An empty configuration, used until the first video sequence header.
    pub fn new() -> (c: NaluConfig)
        ensures
            c.version == 0,
            c.profile_indication == 0,
            c.profile_compatability == 0,
            c.level_indication == 0,
            c.nalu_size == 0,
            c.sps@ == Seq::<Nalu>::empty(),
            c.pps@ == Seq::<Nalu>::empty(),
    {
        NaluConfig {
            version: 0,
            profile_indication: 0,
            profile_compatability: 0,
            level_indication: 0,
            nalu_size: 0,
            sps: Vec::new(),
            pps: Vec::new(),
        }
    }

    /// Replaces the configuration with the one parsed from `data`.
    /// Malformed input is a protocol violation: the configuration is left
    /// unchanged and an error is returned.
    pub fn set(&mut self, data: &[u8]) -> (r: Result<(), ()>)
        ensures
            match spec_parse_config(data@) {
                Some(m) => r is Ok && final(self)@ == m,
                None => r is Err && *final(self) == *old(self),
            },
    {
        if data.len() < 6 {
            return Err(());
        }
        let sps_count: u8 = data[5] & 0b11111;
        let (sps, after_sps) = match Nalu::read_units(data, 6, sps_count) {
            Some(p) => p,
            None => {
                return Err(());
            },
        };
        if after_sps >= data.len() {
            return Err(());
        }
        let pps_count: u8 = data[after_sps];
        proof {
            let rest = data@.skip(after_sps as int);
            assert(rest[0] == data@[after_sps as int]);
            assert(rest.skip(1) =~= data@.skip(after_sps + 1));
        }
        let (pps, _after_pps) = match Nalu::read_units(data, after_sps + 1, pps_count) {
            Some(p) => p,
            None => {
                return Err(());
            },
        };
        self.version = data[0];
        self.profile_indication = data[1];
        self.profile_compatability = data[2];
        self.level_indication = data[3];
        let byte4: u8 = data[4];
        let width_bits: u8 = byte4 & 0b11;
        proof {
            assert(width_bits <= 3) by (bit_vector)
                requires
                    width_bits == byte4 & 0b11,
            ;
        }
        self.nalu_size = width_bits + 1;
        self.sps = sps;
        self.pps = pps;
        Ok(())
    }
}

proof fn lemma_annexb_from_starts_with_aud(cfg: NaluConfigModel, ns: Seq<NaluModel>,
    prelude_done: bool)
    ensures
        spec_annexb_from(cfg, ns, false, prelude_done).len() > 0 ==> {
            &&& spec_annexb_from(cfg, ns, false, prelude_done).len() >= 6
            &&& spec_annexb_from(cfg, ns, false, prelude_done).take(6) == spec_aud()
        },
    decreases ns.len(),
{
    if ns.len() == 0 {
    } else {
        let n = ns[0];
        let step = spec_annexb_step(cfg, n, false, prelude_done);
        let rest = spec_annexb_from(cfg, ns.drop_first(), spec_emitted_type(n.unit_type),
            prelude_done || n.unit_type == 5);
        if spec_emitted_type(n.unit_type) {
            assert((step + rest).take(6) =~= spec_aud());
        } else {
            lemma_annexb_from_starts_with_aud(cfg, ns.drop_first(), prelude_done);
            assert(step + rest =~= rest);
        }
    }
}

/// An emitted elementary stream always opens with the six-byte access-unit
/// delimiter `00 00 00 01 09 00`: whenever [`spec_annexb`] emits any bytes
/// at all, its first six bytes are that delimiter.
pub proof fn lemma_annexb_starts_with_aud(cfg: NaluConfigModel, ns: Seq<NaluModel>)
    ensures
        spec_annexb(cfg, ns).len() > 0 ==> {
            &&& spec_annexb(cfg, ns).len() >= 6
            &&& spec_annexb(cfg, ns).take(6) == spec_aud()
        },
{
    lemma_annexb_from_starts_with_aud(cfg, ns, false);
}

/// Whether a kept unit stands before position `i` in the run.
pub open spec fn spec_emitted_before(ns: Seq<NaluModel>, i: int) -> bool {
    exists|j: int| 0 <= j < i && spec_emitted_type(ns[j].unit_type)
}

/// Whether an IDR slice stands before position `i` in the run.
pub open spec fn spec_idr_before(ns: Seq<NaluModel>, i: int) -> bool {
    exists|j: int| 0 <= j < i && ns[j].unit_type == 5
}

/// The per-unit contributions to the elementary stream, with each unit's
/// emission flags written out as facts about the units before it.
pub open spec fn spec_annexb_blocks(cfg: NaluConfigModel, ns: Seq<NaluModel>) -> Seq<Seq<u8>> {
    Seq::new(ns.len(), |i: int| spec_annexb_step(cfg, ns[i], spec_emitted_before(ns, i),
        spec_idr_before(ns, i)))
}

proof fn lemma_annexb_blocks_from(cfg: NaluConfigModel, ns: Seq<NaluModel>, i: int)
    requires
        0 <= i <= ns.len(),
    ensures
        spec_annexb_from(cfg, ns.skip(i), spec_emitted_before(ns, i), spec_idr_before(ns, i))
            == spec_annexb_blocks(cfg, ns).skip(i).flatten(),
    decreases ns.len() - i,
{
    let blocks = spec_annexb_blocks(cfg, ns);
    if i == ns.len() {
        assert(ns.skip(i) =~= Seq::<NaluModel>::empty());
        assert(blocks.skip(i) =~= Seq::<Seq<u8>>::empty());
    } else {
        let n = ns[i];
        assert(ns.skip(i)[0] == n);
        assert(spec_emitted_before(ns, i + 1) == (spec_emitted_before(ns, i) || spec_emitted_type(
            n.unit_type))) by {
            if spec_emitted_before(ns, i) {
                let j = choose|j: int| 0 <= j < i && spec_emitted_type(ns[j].unit_type);
                assert(0 <= j < i + 1 && spec_emitted_type(ns[j].unit_type));
            }
            if spec_emitted_type(n.unit_type) {
                assert(0 <= i < i + 1 && spec_emitted_type(ns[i].unit_type));
            }
            if spec_emitted_before(ns, i + 1) && !spec_emitted_type(n.unit_type) {
                let j = choose|j: int| 0 <= j < i + 1 && spec_emitted_type(ns[j].unit_type);
                assert(j != i);
                assert(0 <= j < i && spec_emitted_type(ns[j].unit_type));
            }
        }
        assert(spec_idr_before(ns, i + 1) == (spec_idr_before(ns, i) || n.unit_type == 5)) by {
            if spec_idr_before(ns, i) {
                let j = choose|j: int| 0 <= j < i && ns[j].unit_type == 5;
                assert(0 <= j < i + 1 && ns[j].unit_type == 5);
            }
            if n.unit_type == 5 {
                assert(0 <= i < i + 1 && ns[i].unit_type == 5);
            }
            if spec_idr_before(ns, i + 1) && n.unit_type != 5 {
                let j = choose|j: int| 0 <= j < i + 1 && ns[j].unit_type == 5;
                assert(j != i);
                assert(0 <= j < i && ns[j].unit_type == 5);
            }
        }
        lemma_annexb_blocks_from(cfg, ns, i + 1);
        assert(ns.skip(i).drop_first() =~= ns.skip(i + 1));
        assert(blocks.skip(i).drop_first() =~= blocks.skip(i + 1));
        assert(blocks.skip(i)[0] == blocks[i]);
    }
}

/// The elementary stream is exactly the concatenation of one block per
/// unit: nothing for a skipped type, and for every kept unit the
/// `00 00 01`-prefixed unit bytes, behind the access-unit delimiter when no
/// kept unit stands earlier, and behind the in-band SPS and PPS when the
/// unit is an IDR slice with no earlier IDR slice.  Every byte after the
/// leading delimiter therefore belongs to a start-code-prefixed unit or to
/// the one keyframe prelude.
pub proof fn lemma_annexb_block_structure(cfg: NaluConfigModel, ns: Seq<NaluModel>)
    ensures
        spec_annexb(cfg, ns) == spec_annexb_blocks(cfg, ns).flatten(),
{
    lemma_annexb_blocks_from(cfg, ns, 0);
    assert(ns.skip(0) =~= ns);
    assert(spec_annexb_blocks(cfg, ns).skip(0) =~= spec_annexb_blocks(cfg, ns));
}

/// Whether the block for unit `i` carries the in-band SPS and PPS.
pub open spec fn spec_block_has_prelude(ns: Seq<NaluModel>, i: int) -> bool {
    ns[i].unit_type == 5 && !spec_idr_before(ns, i)
}

proof fn lemma_first_idr_exists(ns: Seq<NaluModel>, w: int)
    requires
        0 <= w < ns.len(),
        ns[w].unit_type == 5,
    ensures
        exists|i: int| 0 <= i < ns.len() && #[trigger] spec_block_has_prelude(ns, i),
    decreases w,
{
    if spec_idr_before(ns, w) {
        let j = choose|j: int| 0 <= j < w && ns[j].unit_type == 5;
        lemma_first_idr_exists(ns, j);
    } else {
        assert(spec_block_has_prelude(ns, w));
    }
}

/// The keyframe prelude is emitted exactly once when the run holds an IDR
/// slice — in the block of the first IDR slice, between that block's
/// delimiter and the slice's own start code — and never otherwise.
pub proof fn lemma_keyframe_prelude_once(ns: Seq<NaluModel>)
    ensures
        forall|i: int, j: int| 0 <= i < ns.len() && 0 <= j < ns.len()
            && #[trigger] spec_block_has_prelude(ns, i) && #[trigger] spec_block_has_prelude(
            ns, j) ==> i == j,
        has_idr(ns) ==> exists|i: int| 0 <= i < ns.len() && #[trigger] spec_block_has_prelude(
            ns, i),
        !has_idr(ns) ==> forall|i: int| 0 <= i < ns.len() ==> !#[trigger] spec_block_has_prelude(
            ns, i),
{
    assert forall|i: int, j: int| 0 <= i < ns.len() && 0 <= j < ns.len()
        && #[trigger] spec_block_has_prelude(ns, i) && #[trigger] spec_block_has_prelude(ns, j)
        implies i == j by {
        if i < j {
            assert(0 <= i < j && ns[i].unit_type == 5);
            assert(spec_idr_before(ns, j));
        }
        if j < i {
            assert(0 <= j < i && ns[j].unit_type == 5);
            assert(spec_idr_before(ns, i));
        }
    }
    if has_idr(ns) {
        let w = choose|w: int| 0 <= w < ns.len() && ns[w].unit_type == 5;
        lemma_first_idr_exists(ns, w);
    }
    assert forall|i: int| 0 <= i < ns.len() && !has_idr(ns)
        implies !spec_block_has_prelude(ns, i) by {
        if ns[i].unit_type == 5 {
            assert(has_idr(ns));
        }
    }
}

/// A unit whose serialized form survives a round trip behind a `size`-byte
/// length prefix: the header fields fit their bit widths and the serialized
/// length fits the prefix.
pub open spec fn spec_nalu_wf(n: NaluModel, size: nat) -> bool {
    &&& n.ref_idc <= 3
    &&& n.unit_type <= 31
    &&& 1 + n.data.len() < pow256(size)
}

proof fn lemma_parse_unit_of_bytes(n: NaluModel)
    requires
        n.ref_idc <= 3,
        n.unit_type <= 31,
    ensures
        spec_parse_unit(spec_nalu_bytes(n)) == n,
{
    let r = n.ref_idc;
    let t = n.unit_type;
    let header = (r << 5) | t;
    assert((header >> 5) & 0x03 == r && header & 0x1f == t) by (bit_vector)
        requires
            header == (r << 5) | t,
            r <= 3,
            t <= 31,
    ;
    assert(spec_nalu_bytes(n).skip(1) =~= n.data);
}

/// The length-prefixed serialization of a run of units: each unit's byte
/// count in a `size`-byte big-endian prefix, then the unit's bytes.
pub open spec fn spec_encode_nalus(ns: Seq<NaluModel>, size: nat) -> Seq<u8>
    decreases ns.len(),
{
    if ns.len() == 0 {
        Seq::empty()
    } else {
        spec_be_bytes(1 + ns[0].data.len(), size) + spec_nalu_bytes(ns[0]) + spec_encode_nalus(
            ns.drop_first(), size)
    }
}

/// Splitting a length-prefixed serialization recovers the original run of
/// units, for any prefix width and any units that fit it.
pub proof fn lemma_split_nalus_round_trip(ns: Seq<NaluModel>, size: nat)
    requires
        1 <= size <= 4,
        forall|i: int| 0 <= i < ns.len() ==> spec_nalu_wf(#[trigger] ns[i], size),
    ensures
        spec_split_nalus(spec_encode_nalus(ns, size), size) == Some(ns),
    decreases ns.len(),
{
    let data = spec_encode_nalus(ns, size);
    if ns.len() == 0 {
        assert(Seq::<NaluModel>::empty() =~= ns);
    } else {
        let n0 = ns[0];
        let len: nat = 1 + n0.data.len();
        let lenbytes = spec_be_bytes(len, size);
        let unit = spec_nalu_bytes(n0);
        let rest = spec_encode_nalus(ns.drop_first(), size);
        lemma_be_bytes_len(len, size);
        lemma_be_uint_of_be_bytes(len, size);
        assert(data.take(size as int) =~= lenbytes);
        assert(data.subrange(size as int, (size + len) as int) =~= unit);
        assert(data.skip((size + len) as int) =~= rest);
        lemma_parse_unit_of_bytes(n0);
        assert(forall|i: int| 0 <= i < ns.drop_first().len() ==> spec_nalu_wf(
            #[trigger] ns.drop_first()[i], size));
        lemma_split_nalus_round_trip(ns.drop_first(), size);
        assert(seq![n0] + ns.drop_first() =~= ns);
    }
}

/// The serialization of a run of units behind two-byte length prefixes, as
/// a configuration record carries them.
pub open spec fn spec_encode_units(ns: Seq<NaluModel>) -> Seq<u8>
    decreases ns.len(),
{
    if ns.len() == 0 {
        Seq::empty()
    } else {
        spec_be_bytes(1 + ns[0].data.len(), 2) + spec_nalu_bytes(ns[0]) + spec_encode_units(
            ns.drop_first())
    }
}

proof fn lemma_parse_units_round_trip(ns: Seq<NaluModel>, tail: Seq<u8>)
    requires
        forall|i: int| 0 <= i < ns.len() ==> spec_nalu_wf(#[trigger] ns[i], 2),
    ensures
        spec_parse_units(spec_encode_units(ns) + tail, ns.len()) == Some((ns, tail)),
    decreases ns.len(),
{
    let data = spec_encode_units(ns) + tail;
    if ns.len() == 0 {
        assert(data =~= tail);
        assert(Seq::<NaluModel>::empty() =~= ns);
    } else {
        let n0 = ns[0];
        let len: nat = 1 + n0.data.len();
        let lenbytes = spec_be_bytes(len, 2);
        let unit = spec_nalu_bytes(n0);
        let rest = spec_encode_units(ns.drop_first()) + tail;
        lemma_be_bytes_len(len, 2);
        lemma_be_uint_of_be_bytes(len, 2);
        assert(data.take(2) =~= lenbytes);
        assert(data.subrange(2, 2 + len as int) =~= unit);
        assert(data.skip(2 + len as int) =~= rest);
        lemma_parse_unit_of_bytes(n0);
        assert(forall|i: int| 0 <= i < ns.drop_first().len() ==> spec_nalu_wf(
            #[trigger] ns.drop_first()[i], 2));
        lemma_parse_units_round_trip(ns.drop_first(), tail);
        assert(seq![n0] + ns.drop_first() =~= ns);
    }
}

/// A configuration record whose serialization survives a round trip: the
/// prefix width and unit counts fit their fields and every unit fits a
/// two-byte length.
pub open spec fn spec_config_wf(m: NaluConfigModel) -> bool {
    &&& 1 <= m.nalu_size <= 4
    &&& m.sps.len() <= 31
    &&& m.pps.len() <= 255
    &&& forall|i: int| 0 <= i < m.sps.len() ==> spec_nalu_wf(#[trigger] m.sps[i], 2)
    &&& forall|i: int| 0 <= i < m.pps.len() ==> spec_nalu_wf(#[trigger] m.pps[i], 2)
}

/// The serialized AVCDecoderConfigurationRecord for a configuration model.
pub open spec fn spec_encode_config(m: NaluConfigModel) -> Seq<u8> {
    seq![m.version, m.profile_indication, m.profile_compatability, m.level_indication,
        (m.nalu_size - 1) as u8, m.sps.len() as u8] + spec_encode_units(m.sps)
        + seq![m.pps.len() as u8] + spec_encode_units(m.pps)
}

/// Parsing a serialized configuration record recovers the original
/// configuration: the fixed fields, the prefix width, and the SPS and PPS
/// runs in order.
pub proof fn lemma_config_round_trip(m: NaluConfigModel)
    requires
        spec_config_wf(m),
    ensures
        spec_parse_config(spec_encode_config(m)) == Some(m),
{
    let data = spec_encode_config(m);
    let sps_byte = m.sps.len() as u8;
    let width_byte = (m.nalu_size - 1) as u8;
    assert(data[5] == sps_byte);
    assert(sps_byte & 0b11111 == sps_byte) by (bit_vector)
        requires
            sps_byte <= 31,
    ;
    let tail1 = seq![m.pps.len() as u8] + spec_encode_units(m.pps);
    assert(data.skip(6) =~= spec_encode_units(m.sps) + tail1);
    lemma_parse_units_round_trip(m.sps, tail1);
    assert(tail1[0] == m.pps.len() as u8);
    assert(tail1.skip(1) =~= spec_encode_units(m.pps) + Seq::<u8>::empty());
    lemma_parse_units_round_trip(m.pps, Seq::<u8>::empty());
    assert(width_byte <= 3);
    assert(width_byte & 0b11 == width_byte) by (bit_vector)
        requires
            width_byte <= 3,
    ;
}

} // verus!
