//! Index reader: the package's top-level layout — counts of sections, pages
//! and components per kind, block offsets, the streaming mode, the two
//! page-size tables, and the embedded streaming-texture records.

use vstd::prelude::*;

use crate::bytes::{be32, read_slice, read_u32_be};
use crate::gct::{spec_parse_gct_header, GCNTextureHeader, GctHeaderView};
use crate::PackError;

verus! {

/// How the streamed-data file is paged.
#[derive(Clone, Copy, Debug, PartialEq, Eq, Structural)]
pub enum StreamingMode {
    Unknown,
    OneD,
    TwoD,
    Manual,
}

/// The streaming mode a code stands for, if any.
pub open spec fn spec_mode_of_code(c: int) -> Option<StreamingMode> {
    if c == 0xFFFF_FFFF {
        Some(StreamingMode::Unknown)
    } else if c == 0 {
        Some(StreamingMode::OneD)
    } else if c == 1 {
        Some(StreamingMode::TwoD)
    } else if c == 2 {
        Some(StreamingMode::Manual)
    } else {
        None
    }
}

impl StreamingMode {
    /// Looks a streaming mode up by its on-disk code.
    pub fn from_code(c: u32) -> (r: Option<StreamingMode>)
        ensures
            r == spec_mode_of_code(c as int),
    {
        if c == 0xFFFF_FFFF {
            Some(StreamingMode::Unknown)
        } else if c == 0 {
            Some(StreamingMode::OneD)
        } else if c == 1 {
            Some(StreamingMode::TwoD)
        } else if c == 2 {
            Some(StreamingMode::Manual)
        } else {
            None
        }
    }
}

/// Mathematical image of the index header.
pub ghost struct SoiHeaderView {
    pub version: u32,
    pub flags: u32,
    pub sections: u32,
    pub collision_models: u32,
    pub renderable_models: u32,
    pub motion_packs: u32,
    pub streaming_textures: u32,
    pub static_textures: u32,
    pub uncached_pages: u32,
    pub cached_pages: u32,
    pub motion_packs_offset: u32,
    pub renderable_models_offset: u32,
    pub collision_models_offset: u32,
    pub textures_offset: u32,
    pub collision_grids_offset: u32,
    pub streaming_mode: StreamingMode,
    pub reserved: Seq<u8>,
}

/// The index header: fifteen counts and offsets, the streaming mode, and a
/// reserved trailer, 80 bytes in all, big-endian.
#[derive(Clone, Debug, PartialEq, Eq)]
pub struct SoiHeader {
    pub version: u32,
    pub flags: u32,
    pub sections: u32,
    pub collision_models: u32,
    pub renderable_models: u32,
    pub motion_packs: u32,
    pub streaming_textures: u32,
    pub static_textures: u32,
    pub uncached_pages: u32,
    pub cached_pages: u32,
    pub motion_packs_offset: u32,
    pub renderable_models_offset: u32,
    pub collision_models_offset: u32,
    pub textures_offset: u32,
    pub collision_grids_offset: u32,
    pub streaming_mode: StreamingMode,
    pub reserved: Vec<u8>,
}

impl View for SoiHeader {
    type V = SoiHeaderView;

    open spec fn view(&self) -> SoiHeaderView {
        SoiHeaderView {
            version: self.version,
            flags: self.flags,
            sections: self.sections,
            collision_models: self.collision_models,
            renderable_models: self.renderable_models,
            motion_packs: self.motion_packs,
            streaming_textures: self.streaming_textures,
            static_textures: self.static_textures,
            uncached_pages: self.uncached_pages,
            cached_pages: self.cached_pages,
            motion_packs_offset: self.motion_packs_offset,
            renderable_models_offset: self.renderable_models_offset,
            collision_models_offset: self.collision_models_offset,
            textures_offset: self.textures_offset,
            collision_grids_offset: self.collision_grids_offset,
            streaming_mode: self.streaming_mode,
            reserved: self.reserved@,
        }
    }
}

/// Byte length of the index header.
pub const SOI_HEADER_SIZE: usize = 80;

/// The index header a byte string holds at `pos`.
pub open spec fn spec_parse_soi_header(b: Seq<u8>, pos: int) -> Option<(SoiHeaderView, int)> {
    if pos < 0 || pos + 80 > b.len() {
        None
    } else {
        match spec_mode_of_code(be32(b, pos + 60)) {
            None => None,
            Some(mode) => Some(
                (
                    SoiHeaderView {
                        version: be32(b, pos) as u32,
                        flags: be32(b, pos + 4) as u32,
                        sections: be32(b, pos + 8) as u32,
                        collision_models: be32(b, pos + 12) as u32,
                        renderable_models: be32(b, pos + 16) as u32,
                        motion_packs: be32(b, pos + 20) as u32,
                        streaming_textures: be32(b, pos + 24) as u32,
                        static_textures: be32(b, pos + 28) as u32,
                        uncached_pages: be32(b, pos + 32) as u32,
                        cached_pages: be32(b, pos + 36) as u32,
                        motion_packs_offset: be32(b, pos + 40) as u32,
                        renderable_models_offset: be32(b, pos + 44) as u32,
                        collision_models_offset: be32(b, pos + 48) as u32,
                        textures_offset: be32(b, pos + 52) as u32,
                        collision_grids_offset: be32(b, pos + 56) as u32,
                        streaming_mode: mode,
                        reserved: b.subrange(pos + 64, pos + 80),
                    },
                    pos + 80,
                ),
            ),
        }
    }
}

/// Mathematical image of one placed-object record's common fields.
pub ghost struct ModelInfoView {
    pub flags: u32,
    pub position: Seq<u8>,
    pub look_vector: Seq<u8>,
    pub up_vector: Seq<u8>,
    pub is_animated: u32,
    pub section_id: u32,
    pub component_id: u32,
    pub name: Seq<u8>,
    pub zone: u32,
    pub parameter_count: u32,
}

/// Common fields of every placed-object record: flags, three homogeneous
/// placement vectors (kept as raw float bit patterns), the animated flag,
/// the identity pair (section id, component id), a fixed 1040-byte name
/// buffer, a zone id (stored -1 meaning "no zone"), and the count that
/// drives the record's parameter list.
#[derive(Clone, Debug, PartialEq, Eq)]
pub struct ModelInfo {
    pub flags: u32,
    pub position: Vec<u8>,
    pub look_vector: Vec<u8>,
    pub up_vector: Vec<u8>,
    pub is_animated: u32,
    pub section_id: u32,
    pub component_id: u32,
    pub name: Vec<u8>,
    pub zone: u32,
    pub parameter_count: u32,
}

impl View for ModelInfo {
    type V = ModelInfoView;

    open spec fn view(&self) -> ModelInfoView {
        ModelInfoView {
            flags: self.flags,
            position: self.position@,
            look_vector: self.look_vector@,
            up_vector: self.up_vector@,
            is_animated: self.is_animated,
            section_id: self.section_id,
            component_id: self.component_id,
            name: self.name@,
            zone: self.zone,
            parameter_count: self.parameter_count,
        }
    }
}

/// Zone value standing for "no zone" (-1 on disk).
pub const NO_ZONE: u32 = 0xFFFF_FFFF;

/// Byte length of one placed-object record's common fields.
pub const MODEL_INFO_SIZE: usize = 1112;

/// The placed-object fields a byte string holds at `pos`.
pub open spec fn spec_parse_model_info(b: Seq<u8>, pos: int) -> Option<(ModelInfoView, int)> {
    if pos < 0 || pos + 1112 > b.len() {
        None
    } else {
        Some(
            (
                ModelInfoView {
                    flags: be32(b, pos) as u32,
                    position: b.subrange(pos + 4, pos + 20),
                    look_vector: b.subrange(pos + 20, pos + 36),
                    up_vector: b.subrange(pos + 36, pos + 52),
                    is_animated: be32(b, pos + 52) as u32,
                    section_id: be32(b, pos + 56) as u32,
                    component_id: be32(b, pos + 60) as u32,
                    name: b.subrange(pos + 64, pos + 1104),
                    zone: be32(b, pos + 1104) as u32,
                    parameter_count: be32(b, pos + 1108) as u32,
                },
                pos + 1112,
            ),
        )
    }
}

/// Reads one placed-object record's common fields.
pub fn decode_model_info(b: &Vec<u8>, pos: usize) -> (r: Result<(ModelInfo, usize), PackError>)
    ensures
        match r {
            Ok((mi, end)) => spec_parse_model_info(b@, pos as int) == Some((mi@, end as int))
                && pos <= end <= b@.len(),
            Err(e) => spec_parse_model_info(b@, pos as int) is None && e == PackError::Format,
        },
{
    let l = b.len();
    if l < 1112 || pos > l - 1112 {
        return Err(PackError::Format);
    }
    let mi = ModelInfo {
        flags: read_u32_be(b, pos),
        position: read_slice(b, pos + 4, 16),
        look_vector: read_slice(b, pos + 20, 16),
        up_vector: read_slice(b, pos + 36, 16),
        is_animated: read_u32_be(b, pos + 52),
        section_id: read_u32_be(b, pos + 56),
        component_id: read_u32_be(b, pos + 60),
        name: read_slice(b, pos + 64, 1040),
        zone: read_u32_be(b, pos + 1104),
        parameter_count: read_u32_be(b, pos + 1108),
    };
    Ok((mi, pos + 1112))
}

/// Mathematical image of one streaming-texture record.
pub ghost struct StreamingTextureView {
    pub model_info: ModelInfoView,
    pub padding: u32,
    pub header: GctHeaderView,
}

/// One streaming-texture record of the index: the placement fields, a
/// padding word, and the texture header whose payload arrives later through
/// the streamed-data file.
#[derive(Clone, Debug)]
pub struct StreamingTexture {
    pub model_info: ModelInfo,
    pub padding: u32,
    pub header: GCNTextureHeader,
}

impl View for StreamingTexture {
    type V = StreamingTextureView;

    open spec fn view(&self) -> StreamingTextureView {
        StreamingTextureView {
            model_info: self.model_info@,
            padding: self.padding,
            header: self.header@,
        }
    }
}

/// The streaming-texture record a byte string holds at `pos`.
pub open spec fn spec_parse_streaming_texture(b: Seq<u8>, pos: int) -> Option<
    (StreamingTextureView, int),
> {
    match spec_parse_model_info(b, pos) {
        None => None,
        Some((mi, p1)) => if p1 + 4 > b.len() {
            None
        } else {
            match spec_parse_gct_header(b, p1 + 4) {
                None => None,
                Some((h, n)) => Some(
                    (
                        StreamingTextureView {
                            model_info: mi,
                            padding: be32(b, p1) as u32,
                            header: h,
                        },
                        p1 + 4 + n,
                    ),
                ),
            }
        },
    }
}

/// Reads one streaming-texture record.
pub fn decode_streaming_texture(b: &Vec<u8>, pos: usize) -> (r: Result<
    (StreamingTexture, usize),
    PackError,
>)
    ensures
        match r {
            Ok((t, end)) => spec_parse_streaming_texture(b@, pos as int) == Some(
                (t@, end as int),
            ) && pos <= end <= b@.len(),
            Err(e) => spec_parse_streaming_texture(b@, pos as int) is None && e
                == PackError::Format,
        },
{
    let (model_info, p1) = match decode_model_info(b, pos) {
        Ok(p) => p,
        Err(_) => {
            return Err(PackError::Format);
        },
    };
    let l = b.len();
    if l - p1 < 4 {
        return Err(PackError::Format);
    }
    let padding = read_u32_be(b, p1);
    let (header, n) = match GCNTextureHeader::decode(b, p1 + 4) {
        Ok(p) => p,
        Err(_) => {
            return Err(PackError::Format);
        },
    };
    Ok((StreamingTexture { model_info, padding, header }, p1 + 4 + n))
}

/// `count` 32-bit values read back to back, with the position after them.
pub open spec fn spec_parse_u32s(b: Seq<u8>, pos: int, count: nat) -> Option<(Seq<u32>, int)>
    decreases count,
{
    if pos < 0 || pos > b.len() {
        None
    } else if count == 0 {
        Some((Seq::empty(), pos))
    } else if pos + 4 > b.len() {
        None
    } else {
        match spec_parse_u32s(b, pos + 4, (count - 1) as nat) {
            None => None,
            Some((rest, end)) => Some((seq![be32(b, pos) as u32] + rest, end)),
        }
    }
}

/// Reads `count` 32-bit values at `pos`.
pub fn decode_u32s(b: &Vec<u8>, pos: usize, count: u32) -> (r: Result<(Vec<u32>, usize), PackError>)
    requires
        pos <= b@.len(),
    ensures
        match r {
            Ok((v, end)) => spec_parse_u32s(b@, pos as int, count as nat) == Some(
                (v@, end as int),
            ) && pos <= end <= b@.len(),
            Err(e) => spec_parse_u32s(b@, pos as int, count as nat) is None && e
                == PackError::Format,
        },
{
    let l = b.len();
    let mut acc: Vec<u32> = Vec::new();
    let mut cur: usize = pos;
    let mut k: u32 = 0;
    while k < count
        invariant
            k <= count,
            pos <= cur <= l,
            l == b@.len(),
            acc@.len() == k,
            spec_parse_u32s(b@, pos as int, count as nat) == (
            match spec_parse_u32s(b@, cur as int, (count - k) as nat) {
                Some((rest, end)) => Some((acc@ + rest, end)),
                None => None::<(Seq<u32>, int)>,
            }),
        decreases count - k,
    {
        if l - cur < 4 {
            return Err(PackError::Format);
        }
        let x = read_u32_be(b, cur);
        let ghost old_acc = acc@;
        acc.push(x);
        proof {
            let tail = spec_parse_u32s(b@, cur + 4, (count - k - 1) as nat);
            if tail is Some {
                let (rest2, end2) = tail->Some_0;
                assert(old_acc + (seq![x] + rest2) =~= acc@ + rest2);
            }
        }
        cur = cur + 4;
        k = k + 1;
    }
    proof {
        assert(acc@ + Seq::<u32>::empty() =~= acc@);
    }
    Ok((acc, cur))
}

/// `count` streaming-texture records read back to back.
pub open spec fn spec_parse_streaming_textures(b: Seq<u8>, pos: int, count: nat) -> Option<
    (Seq<StreamingTextureView>, int),
>
    decreases count,
{
    if count == 0 {
        if pos < 0 || pos > b.len() {
            None
        } else {
            Some((Seq::empty(), pos))
        }
    } else {
        match spec_parse_streaming_texture(b, pos) {
            None => None,
            Some((t, end1)) => match spec_parse_streaming_textures(b, end1, (count - 1) as nat) {
                None => None,
                Some((rest, end)) => Some((seq![t] + rest, end)),
            },
        }
    }
}

/// Reads `count` streaming-texture records at `pos`.
pub fn decode_streaming_textures(b: &Vec<u8>, pos: usize, count: u32) -> (r: Result<
    (Vec<StreamingTexture>, usize),
    PackError,
>)
    requires
        pos <= b@.len(),
    ensures
        match r {
            Ok((v, end)) => spec_parse_streaming_textures(b@, pos as int, count as nat) == Some(
                (v@.map_values(|t: StreamingTexture| t@), end as int),
            ) && pos <= end <= b@.len(),
            Err(e) => spec_parse_streaming_textures(b@, pos as int, count as nat) is None && e
                == PackError::Format,
        },
{
    let l = b.len();
    let mut acc: Vec<StreamingTexture> = Vec::new();
    let mut cur: usize = pos;
    let mut k: u32 = 0;
    while k < count
        invariant
            k <= count,
            pos <= cur <= l,
            l == b@.len(),
            acc@.len() == k,
            spec_parse_streaming_textures(b@, pos as int, count as nat) == (
            match spec_parse_streaming_textures(b@, cur as int, (count - k) as nat) {
                Some((rest, end)) => Some(
                    (acc@.map_values(|t: StreamingTexture| t@) + rest, end),
                ),
                None => None::<(Seq<StreamingTextureView>, int)>,
            }),
        decreases count - k,
    {
        let (t, end1) = match decode_streaming_texture(b, cur) {
            Ok(p) => p,
            Err(_) => {
                return Err(PackError::Format);
            },
        };
        let ghost old_acc = acc@;
        acc.push(t);
        proof {
            assert(acc@.map_values(|t: StreamingTexture| t@) =~= old_acc.map_values(
                |t: StreamingTexture| t@,
            ).push(acc@[old_acc.len() as int]@));
            let tail = spec_parse_streaming_textures(b@, end1 as int, (count - k - 1) as nat);
            if tail is Some {
                let (rest2, end2) = tail->Some_0;
                assert(old_acc.map_values(|t: StreamingTexture| t@) + (seq![
                    acc@[old_acc.len() as int]@,
                ] + rest2) =~= acc@.map_values(|t: StreamingTexture| t@) + rest2);
            }
        }
        cur = end1;
        k = k + 1;
    }
    proof {
        assert(acc@.map_values(|t: StreamingTexture| t@) + Seq::<StreamingTextureView>::empty()
            =~= acc@.map_values(|t: StreamingTexture| t@));
    }
    Ok((acc, cur))
}

/// Mathematical image of a parsed index file.
pub ghost struct SoiView {
    pub header: SoiHeaderView,
    pub uncached_page_sizes: Seq<u32>,
    pub cached_page_sizes: Seq<u32>,
    pub streaming_textures: Seq<StreamingTextureView>,
}

/// A parsed index file: the header, the two page-size tables, and the
/// streaming-texture records.
#[derive(Clone, Debug)]
pub struct Soi {
    pub header: SoiHeader,
    pub uncached_page_sizes: Vec<u32>,
    pub cached_page_sizes: Vec<u32>,
    pub streaming_textures: Vec<StreamingTexture>,
}

impl View for Soi {
    type V = SoiView;

    open spec fn view(&self) -> SoiView {
        SoiView {
            header: self.header@,
            uncached_page_sizes: self.uncached_page_sizes@,
            cached_page_sizes: self.cached_page_sizes@,
            streaming_textures: self.streaming_textures@.map_values(|t: StreamingTexture| t@),
        }
    }
}

/// The index structure a byte string holds from its start: header, uncached
/// page sizes, cached page sizes, streaming-texture records.  Trailing
/// bytes beyond the last record are ignored.
pub open spec fn spec_parse_soi(b: Seq<u8>) -> Option<SoiView> {
    match spec_parse_soi_header(b, 0) {
        None => None,
        Some((h, p0)) => match spec_parse_u32s(b, p0, h.uncached_pages as nat) {
            None => None,
            Some((ups, p1)) => match spec_parse_u32s(b, p1, h.cached_pages as nat) {
                None => None,
                Some((cps, p2)) => match spec_parse_streaming_textures(
                    b,
                    p2,
                    h.streaming_textures as nat,
                ) {
                    None => None,
                    Some((texs, p3)) => Some(
                        SoiView {
                            header: h,
                            uncached_page_sizes: ups,
                            cached_page_sizes: cps,
                            streaming_textures: texs,
                        },
                    ),
                },
            },
        },
    }
}

/// Index of the first key equal to `(s, c)` at or after `from`, after
/// skipping `inst` earlier matches.
pub open spec fn spec_find_idx_from(
    keys: Seq<(u32, u32)>,
    s: u32,
    c: u32,
    inst: nat,
    from: int,
) -> Option<int>
    decreases keys.len() - from,
{
    if from < 0 || from >= keys.len() {
        None
    } else if keys[from] == (s, c) {
        if inst == 0 {
            Some(from)
        } else {
            spec_find_idx_from(keys, s, c, (inst - 1) as nat, from + 1)
        }
    } else {
        spec_find_idx_from(keys, s, c, inst, from + 1)
    }
}

/// Number of keys equal to `(s, c)` at or after `from`.
pub open spec fn spec_count_key(keys: Seq<(u32, u32)>, s: u32, c: u32, from: int) -> nat
    decreases keys.len() - from,
{
    if from < 0 || from >= keys.len() {
        0
    } else if keys[from] == (s, c) {
        1 + spec_count_key(keys, s, c, from + 1)
    } else {
        spec_count_key(keys, s, c, from + 1)
    }
}

/// A lookup succeeds exactly when the instance ordinal is below the number
/// of records carrying the key, and lands on a record carrying the key.
pub proof fn lemma_find_idx_iff_present(
    keys: Seq<(u32, u32)>,
    s: u32,
    c: u32,
    inst: nat,
    from: int,
)
    requires
        0 <= from <= keys.len(),
    ensures
        spec_find_idx_from(keys, s, c, inst, from) is Some <==> inst < spec_count_key(
            keys,
            s,
            c,
            from,
        ),
        spec_find_idx_from(keys, s, c, inst, from) matches Some(i) ==> from <= i < keys.len()
            && keys[i] == (s, c),
    decreases keys.len() - from,
{
    if from < keys.len() {
        if keys[from] == (s, c) {
            if inst > 0 {
                lemma_find_idx_iff_present(keys, s, c, (inst - 1) as nat, from + 1);
            }
        } else {
            lemma_find_idx_iff_present(keys, s, c, inst, from + 1);
        }
    }
}

/// The identity keys of a streaming-texture list.
pub open spec fn spec_texture_keys(texs: Seq<StreamingTextureView>) -> Seq<(u32, u32)> {
    texs.map_values(|t: StreamingTextureView| (t.model_info.section_id, t.model_info.component_id))
}

impl Soi {
    /// Parses an index file held in memory.  `Format` exactly where the
    /// bytes are truncated or a stored code is unknown.
    pub fn parse(b: &Vec<u8>) -> (r: Result<Soi, PackError>)
        ensures
            match r {
                Ok(soi) => spec_parse_soi(b@) == Some(soi@),
                Err(e) => spec_parse_soi(b@) is None && e == PackError::Format,
            },
    {
        let l = b.len();
        if l < 80 {
            return Err(PackError::Format);
        }
        let mode = match StreamingMode::from_code(read_u32_be(b, 60)) {
            Some(m) => m,
            None => {
                return Err(PackError::Format);
            },
        };
        let header = SoiHeader {
            version: read_u32_be(b, 0),
            flags: read_u32_be(b, 4),
            sections: read_u32_be(b, 8),
            collision_models: read_u32_be(b, 12),
            renderable_models: read_u32_be(b, 16),
            motion_packs: read_u32_be(b, 20),
            streaming_textures: read_u32_be(b, 24),
            static_textures: read_u32_be(b, 28),
            uncached_pages: read_u32_be(b, 32),
            cached_pages: read_u32_be(b, 36),
            motion_packs_offset: read_u32_be(b, 40),
            renderable_models_offset: read_u32_be(b, 44),
            collision_models_offset: read_u32_be(b, 48),
            textures_offset: read_u32_be(b, 52),
            collision_grids_offset: read_u32_be(b, 56),
            streaming_mode: mode,
            reserved: read_slice(b, 64, 16),
        };
        proof {
            assert(spec_parse_soi_header(b@, 0) == Some((header@, 80int)));
        }
        let (uncached_page_sizes, p1) = match decode_u32s(b, 80, header.uncached_pages) {
            Ok(p) => p,
            Err(_) => {
                return Err(PackError::Format);
            },
        };
        let (cached_page_sizes, p2) = match decode_u32s(b, p1, header.cached_pages) {
            Ok(p) => p,
            Err(_) => {
                return Err(PackError::Format);
            },
        };
        let (streaming_textures, _p3) = match decode_streaming_textures(
            b,
            p2,
            header.streaming_textures,
        ) {
            Ok(p) => p,
            Err(_) => {
                return Err(PackError::Format);
            },
        };
        Ok(Soi { header, uncached_page_sizes, cached_page_sizes, streaming_textures })
    }

    /// Finds the texture header of the first streaming-texture record whose
    /// placement matches the section and component ids.  A miss is a normal
    /// outcome: the texture may be static instead.
    pub fn find_texture_header(&self, section_id: u32, component_id: u32) -> (r: Option<
        &GCNTextureHeader,
    >)
        ensures
            match spec_find_idx_from(
                spec_texture_keys(self@.streaming_textures),
                section_id,
                component_id,
                0,
                0,
            ) {
                Some(i) => r is Some && (r->Some_0)@ == self@.streaming_textures[i].header,
                None => r is None,
            },
    {
        let ghost keys = spec_texture_keys(self@.streaming_textures);
        let n = self.streaming_textures.len();
        let mut i: usize = 0;
        while i < n
            invariant
                i <= n,
                n == self.streaming_textures@.len(),
                keys == spec_texture_keys(self@.streaming_textures),
                spec_find_idx_from(keys, section_id, component_id, 0, 0) == spec_find_idx_from(
                    keys,
                    section_id,
                    component_id,
                    0,
                    i as int,
                ),
            decreases n - i,
        {
            let t = &self.streaming_textures[i];
            if t.model_info.section_id == section_id && t.model_info.component_id == component_id {
                proof {
                    assert(keys[i as int] == (section_id, component_id));
                }
                return Some(&t.header);
            }
            proof {
                assert(keys[i as int] !== (section_id, component_id));
            }
            i = i + 1;
        }
        None
    }
}

} // verus!
