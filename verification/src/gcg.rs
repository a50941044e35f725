//! Streaming model codec: the per-mesh header format whose optional fields
//! are gated by bits of `vertex_type`, and the archive write path that
//! reconstructs vertex and face byte spans inside the flat streamed blob.

use vstd::prelude::*;

use crate::bytes::{be16, be32, u16_be_bytes, u32_be_bytes, read_u16_be, read_u32_be};
use crate::PackError;

verus! {

/// Per-component storage types of the console geometry processor.
#[allow(non_camel_case_types)]
#[derive(Clone, Copy, Debug, PartialEq, Eq)]
pub enum GXCompType {
    GX_U8,
    GX_S8,
    GX_U16,
    GX_S16,
    GX_F32,
    GX_U32,
}

/// Attribute addressing modes of the console geometry processor.
#[allow(non_camel_case_types)]
#[derive(Clone, Copy, Debug, PartialEq, Eq)]
pub enum GXAttrType {
    GX_NONE,
    GX_DIRECT,
    GX_INDEX8,
    GX_INDEX16,
}

/// On-disk code of a component type.
pub open spec fn spec_comp_code(t: GXCompType) -> u8 {
    match t {
        GXCompType::GX_U8 => 0,
        GXCompType::GX_S8 => 1,
        GXCompType::GX_U16 => 2,
        GXCompType::GX_S16 => 3,
        GXCompType::GX_F32 => 4,
        GXCompType::GX_U32 => 5,
    }
}

/// The component type an on-disk code stands for, if any.
pub open spec fn spec_comp_of_code(c: u8) -> Option<GXCompType> {
    if c == 0 {
        Some(GXCompType::GX_U8)
    } else if c == 1 {
        Some(GXCompType::GX_S8)
    } else if c == 2 {
        Some(GXCompType::GX_U16)
    } else if c == 3 {
        Some(GXCompType::GX_S16)
    } else if c == 4 {
        Some(GXCompType::GX_F32)
    } else if c == 5 {
        Some(GXCompType::GX_U32)
    } else {
        None
    }
}

/// On-disk code of an attribute type.
pub open spec fn spec_attr_code(t: GXAttrType) -> u8 {
    match t {
        GXAttrType::GX_NONE => 0,
        GXAttrType::GX_DIRECT => 1,
        GXAttrType::GX_INDEX8 => 2,
        GXAttrType::GX_INDEX16 => 3,
    }
}

/// The attribute type an on-disk code stands for, if any.
pub open spec fn spec_attr_of_code(c: u8) -> Option<GXAttrType> {
    if c == 0 {
        Some(GXAttrType::GX_NONE)
    } else if c == 1 {
        Some(GXAttrType::GX_DIRECT)
    } else if c == 2 {
        Some(GXAttrType::GX_INDEX8)
    } else if c == 3 {
        Some(GXAttrType::GX_INDEX16)
    } else {
        None
    }
}

/// Bytes one stored component of the given type occupies.
pub open spec fn spec_comp_width(t: GXCompType) -> int {
    match t {
        GXCompType::GX_U8 => 1,
        GXCompType::GX_S8 => 1,
        GXCompType::GX_U16 => 2,
        GXCompType::GX_S16 => 2,
        GXCompType::GX_F32 => 4,
        GXCompType::GX_U32 => 4,
    }
}

impl GXCompType {
    /// On-disk code.
    pub fn code(&self) -> (r: u8)
        ensures
            r == spec_comp_code(*self),
    {
        match self {
            GXCompType::GX_U8 => 0,
            GXCompType::GX_S8 => 1,
            GXCompType::GX_U16 => 2,
            GXCompType::GX_S16 => 3,
            GXCompType::GX_F32 => 4,
            GXCompType::GX_U32 => 5,
        }
    }

    /// Looks a component type up by its on-disk code.
    pub fn from_code(c: u8) -> (r: Option<GXCompType>)
        ensures
            r == spec_comp_of_code(c),
    {
        if c == 0 {
            Some(GXCompType::GX_U8)
        } else if c == 1 {
            Some(GXCompType::GX_S8)
        } else if c == 2 {
            Some(GXCompType::GX_U16)
        } else if c == 3 {
            Some(GXCompType::GX_S16)
        } else if c == 4 {
            Some(GXCompType::GX_F32)
        } else if c == 5 {
            Some(GXCompType::GX_U32)
        } else {
            None
        }
    }
}

impl GXAttrType {
    /// On-disk code.
    pub fn code(&self) -> (r: u8)
        ensures
            r == spec_attr_code(*self),
    {
        match self {
            GXAttrType::GX_NONE => 0,
            GXAttrType::GX_DIRECT => 1,
            GXAttrType::GX_INDEX8 => 2,
            GXAttrType::GX_INDEX16 => 3,
        }
    }

    /// Looks an attribute type up by its on-disk code.
    pub fn from_code(c: u8) -> (r: Option<GXAttrType>)
        ensures
            r == spec_attr_of_code(c),
    {
        if c == 0 {
            Some(GXAttrType::GX_NONE)
        } else if c == 1 {
            Some(GXAttrType::GX_DIRECT)
        } else if c == 2 {
            Some(GXAttrType::GX_INDEX8)
        } else if c == 3 {
            Some(GXAttrType::GX_INDEX16)
        } else {
            None
        }
    }
}

/// One mesh descriptor of the streaming model header.  Bit 0 of
/// `vertex_type` set selects normals (together with bit 3) over vertex
/// colors (bit 0 clear); bit 1 gates whether UV data occupies space in the
/// vertex block.
#[derive(Clone, Copy, Debug, PartialEq, Eq)]
pub struct StreamingGCGMesh {
    pub surface_index: u32,
    pub vertex_type: u8,
    pub vertex_attr_type: GXAttrType,
    pub vertex_data_type: GXCompType,
    pub xyz_frac_bits: u8,
    pub normal_attr_type: Option<GXAttrType>,
    pub normal_data_type: Option<GXCompType>,
    pub color_attr_type: Option<GXAttrType>,
    pub color_data_type: Option<GXCompType>,
    pub uv_attr_type: GXAttrType,
    pub uv_data_type: GXCompType,
    pub tex_frac_bits: u8,
    pub vertex_count: u16,
    pub byte_stride: u8,
    pub normal_count: u16,
    pub normal_stride: u8,
    pub color_count: u16,
    pub color_stride: u8,
    pub uv_count: u16,
    pub uv_stride: u8,
    pub face_chunk_size: u32,
}

/// Whether the mesh carries normal channels: bits 0 and 3 both set.
pub open spec fn spec_has_normals(vertex_type: u8) -> bool {
    (vertex_type & 0x1) == 0x1 && (vertex_type & 0x8) == 0x8
}

/// Whether the mesh carries vertex colors: bit 0 clear.
pub open spec fn spec_has_colors(vertex_type: u8) -> bool {
    (vertex_type & 0x1) == 0x0
}

/// Whether UV data occupies space in the vertex block: bit 1 set.
pub open spec fn spec_has_uv_data(vertex_type: u8) -> bool {
    (vertex_type & 0x2) == 0x2
}

impl StreamingGCGMesh {
    /// Presence of the optional fields is exactly what the `vertex_type`
    /// bits dictate; absent channels carry zeroed counts and strides.
    pub open spec fn wf(self) -> bool {
        &&& (self.normal_attr_type is Some <==> spec_has_normals(self.vertex_type))
        &&& (self.normal_data_type is Some <==> spec_has_normals(self.vertex_type))
        &&& (!spec_has_normals(self.vertex_type) ==> self.normal_count == 0
            && self.normal_stride == 0)
        &&& (self.color_attr_type is Some <==> spec_has_colors(self.vertex_type))
        &&& (self.color_data_type is Some <==> spec_has_colors(self.vertex_type))
        &&& (!spec_has_colors(self.vertex_type) ==> self.color_count == 0
            && self.color_stride == 0)
    }
}

/// The on-disk bytes of one mesh descriptor in the object-index form.
pub open spec fn spec_encode_mesh(m: StreamingGCGMesh) -> Seq<u8> {
    u32_be_bytes(m.surface_index) + seq![
        m.vertex_type,
        spec_attr_code(m.vertex_attr_type),
        spec_comp_code(m.vertex_data_type),
        m.xyz_frac_bits,
    ] + (if spec_has_normals(m.vertex_type) {
        seq![
            spec_attr_code(m.normal_attr_type->Some_0),
            spec_comp_code(m.normal_data_type->Some_0),
        ]
    } else {
        Seq::<u8>::empty()
    }) + (if spec_has_colors(m.vertex_type) {
        seq![
            spec_attr_code(m.color_attr_type->Some_0),
            spec_comp_code(m.color_data_type->Some_0),
        ]
    } else {
        Seq::<u8>::empty()
    }) + seq![
        spec_attr_code(m.uv_attr_type),
        spec_comp_code(m.uv_data_type),
        m.tex_frac_bits,
    ] + u16_be_bytes(m.vertex_count) + seq![m.byte_stride] + (if spec_has_normals(m.vertex_type) {
        u16_be_bytes(m.normal_count) + seq![m.normal_stride]
    } else {
        Seq::<u8>::empty()
    }) + (if spec_has_colors(m.vertex_type) {
        u16_be_bytes(m.color_count) + seq![m.color_stride]
    } else {
        Seq::<u8>::empty()
    }) + u16_be_bytes(m.uv_count) + seq![m.uv_stride] + u32_be_bytes(m.face_chunk_size)
}

/// Byte count of one encoded mesh descriptor: 21 fixed bytes plus 5 for
/// each optional channel present.
pub open spec fn spec_mesh_len(vertex_type: u8) -> int {
    21 + (if spec_has_normals(vertex_type) {
        5int
    } else {
        0
    }) + (if spec_has_colors(vertex_type) {
        5int
    } else {
        0
    })
}

/// The mesh descriptor a byte string holds at `pos`, with the count of
/// bytes it occupies, or `None` where the bytes are truncated or a stored
/// attribute or component code is unknown.
pub open spec fn spec_parse_mesh(b: Seq<u8>, pos: int) -> Option<(StreamingGCGMesh, int)> {
    if pos < 0 || pos + 8 > b.len() {
        None
    } else {
        let vertex_type = b[pos + 4];
        let nrm = spec_has_normals(vertex_type);
        let col = spec_has_colors(vertex_type);
        let o_nrm = pos + 8;
        let o_col = o_nrm + (if nrm { 2int } else { 0 });
        let o_uv = o_col + (if col { 2int } else { 0 });
        let o_vc = o_uv + 3;
        let o_nc = o_vc + 3;
        let o_cc = o_nc + (if nrm { 3int } else { 0 });
        let o_uc = o_cc + (if col { 3int } else { 0 });
        let o_fc = o_uc + 3;
        let end = o_fc + 4;
        if end > b.len() {
            None
        } else {
            match (spec_attr_of_code(b[pos + 5]), spec_comp_of_code(b[pos + 6])) {
                (Some(vat), Some(vdt)) => {
                    let nat_ok = !nrm || (spec_attr_of_code(b[o_nrm]) is Some
                        && spec_comp_of_code(b[o_nrm + 1]) is Some);
                    let col_ok = !col || (spec_attr_of_code(b[o_col]) is Some
                        && spec_comp_of_code(b[o_col + 1]) is Some);
                    let uv_ok = spec_attr_of_code(b[o_uv]) is Some && spec_comp_of_code(
                        b[o_uv + 1],
                    ) is Some;
                    if nat_ok && col_ok && uv_ok {
                        Some(
                            (
                                StreamingGCGMesh {
                                    surface_index: be32(b, pos) as u32,
                                    vertex_type,
                                    vertex_attr_type: vat,
                                    vertex_data_type: vdt,
                                    xyz_frac_bits: b[pos + 7],
                                    normal_attr_type: if nrm {
                                        spec_attr_of_code(b[o_nrm])
                                    } else {
                                        None
                                    },
                                    normal_data_type: if nrm {
                                        spec_comp_of_code(b[o_nrm + 1])
                                    } else {
                                        None
                                    },
                                    color_attr_type: if col {
                                        spec_attr_of_code(b[o_col])
                                    } else {
                                        None
                                    },
                                    color_data_type: if col {
                                        spec_comp_of_code(b[o_col + 1])
                                    } else {
                                        None
                                    },
                                    uv_attr_type: spec_attr_of_code(b[o_uv])->Some_0,
                                    uv_data_type: spec_comp_of_code(b[o_uv + 1])->Some_0,
                                    tex_frac_bits: b[o_uv + 2],
                                    vertex_count: be16(b, o_vc) as u16,
                                    byte_stride: b[o_vc + 2],
                                    normal_count: if nrm {
                                        be16(b, o_nc) as u16
                                    } else {
                                        0
                                    },
                                    normal_stride: if nrm {
                                        b[o_nc + 2]
                                    } else {
                                        0
                                    },
                                    color_count: if col {
                                        be16(b, o_cc) as u16
                                    } else {
                                        0
                                    },
                                    color_stride: if col {
                                        b[o_cc + 2]
                                    } else {
                                        0
                                    },
                                    uv_count: be16(b, o_uc) as u16,
                                    uv_stride: b[o_uc + 2],
                                    face_chunk_size: be32(b, o_fc) as u32,
                                },
                                end - pos,
                            ),
                        )
                    } else {
                        None
                    }
                },
                _ => None,
            }
        }
    }
}

/// A successfully parsed mesh descriptor is well formed, occupies exactly
/// the byte count its `vertex_type` dictates, and re-encodes to exactly the
/// bytes it was parsed from.
#[verifier::rlimit(100)]
#[verifier::spinoff_prover]
proof fn lemma_mesh_parse_print_nrm(b: Seq<u8>, pos: int)
    requires
        spec_parse_mesh(b, pos) is Some,
        spec_has_normals(b[pos + 4]),
    ensures
        ({
            let (m, n) = spec_parse_mesh(b, pos)->Some_0;
            m.wf() && n == spec_mesh_len(m.vertex_type) && pos + n <= b.len()
                && spec_encode_mesh(m) == b.subrange(pos, pos + n)
        }),
{
    let (m, n) = spec_parse_mesh(b, pos)->Some_0;
    let vertex_type = b[pos + 4];
    let nrm = spec_has_normals(vertex_type);
    let col = spec_has_colors(vertex_type);
    let o_nrm = pos + 8;
    let o_col = o_nrm + (if nrm { 2int } else { 0 });
    let o_uv = o_col + (if col { 2int } else { 0 });
    let o_vc = o_uv + 3;
    let o_nc = o_vc + 3;
    let o_cc = o_nc + (if nrm { 3int } else { 0 });
    let o_uc = o_cc + (if col { 3int } else { 0 });
    let o_fc = o_uc + 3;
    crate::bytes::lemma_be32_reencode(b, pos);
    crate::bytes::lemma_be16_reencode(b, o_vc);
    if nrm {
        crate::bytes::lemma_be16_reencode(b, o_nc);
    }
    if col {
        crate::bytes::lemma_be16_reencode(b, o_cc);
    }
    crate::bytes::lemma_be16_reencode(b, o_uc);
    crate::bytes::lemma_be32_reencode(b, o_fc);
    assert(spec_encode_mesh(m) =~= b.subrange(pos, pos + n));
}

#[verifier::rlimit(100)]
#[verifier::spinoff_prover]
proof fn lemma_mesh_parse_print_col(b: Seq<u8>, pos: int)
    requires
        spec_parse_mesh(b, pos) is Some,
        spec_has_colors(b[pos + 4]),
    ensures
        ({
            let (m, n) = spec_parse_mesh(b, pos)->Some_0;
            m.wf() && n == spec_mesh_len(m.vertex_type) && pos + n <= b.len()
                && spec_encode_mesh(m) == b.subrange(pos, pos + n)
        }),
{
    let (m, n) = spec_parse_mesh(b, pos)->Some_0;
    let vertex_type = b[pos + 4];
    let nrm = spec_has_normals(vertex_type);
    let col = spec_has_colors(vertex_type);
    let o_nrm = pos + 8;
    let o_col = o_nrm + (if nrm { 2int } else { 0 });
    let o_uv = o_col + (if col { 2int } else { 0 });
    let o_vc = o_uv + 3;
    let o_nc = o_vc + 3;
    let o_cc = o_nc + (if nrm { 3int } else { 0 });
    let o_uc = o_cc + (if col { 3int } else { 0 });
    let o_fc = o_uc + 3;
    crate::bytes::lemma_be32_reencode(b, pos);
    crate::bytes::lemma_be16_reencode(b, o_vc);
    if nrm {
        crate::bytes::lemma_be16_reencode(b, o_nc);
    }
    if col {
        crate::bytes::lemma_be16_reencode(b, o_cc);
    }
    crate::bytes::lemma_be16_reencode(b, o_uc);
    crate::bytes::lemma_be32_reencode(b, o_fc);
    assert(spec_encode_mesh(m) =~= b.subrange(pos, pos + n));
}

#[verifier::rlimit(100)]
#[verifier::spinoff_prover]
proof fn lemma_mesh_parse_print_plain(b: Seq<u8>, pos: int)
    requires
        spec_parse_mesh(b, pos) is Some,
        !spec_has_normals(b[pos + 4]),
        !spec_has_colors(b[pos + 4]),
    ensures
        ({
            let (m, n) = spec_parse_mesh(b, pos)->Some_0;
            m.wf() && n == spec_mesh_len(m.vertex_type) && pos + n <= b.len()
                && spec_encode_mesh(m) == b.subrange(pos, pos + n)
        }),
{
    let (m, n) = spec_parse_mesh(b, pos)->Some_0;
    let vertex_type = b[pos + 4];
    let nrm = spec_has_normals(vertex_type);
    let col = spec_has_colors(vertex_type);
    let o_nrm = pos + 8;
    let o_col = o_nrm + (if nrm { 2int } else { 0 });
    let o_uv = o_col + (if col { 2int } else { 0 });
    let o_vc = o_uv + 3;
    let o_nc = o_vc + 3;
    let o_cc = o_nc + (if nrm { 3int } else { 0 });
    let o_uc = o_cc + (if col { 3int } else { 0 });
    let o_fc = o_uc + 3;
    crate::bytes::lemma_be32_reencode(b, pos);
    crate::bytes::lemma_be16_reencode(b, o_vc);
    if nrm {
        crate::bytes::lemma_be16_reencode(b, o_nc);
    }
    if col {
        crate::bytes::lemma_be16_reencode(b, o_cc);
    }
    crate::bytes::lemma_be16_reencode(b, o_uc);
    crate::bytes::lemma_be32_reencode(b, o_fc);
    assert(spec_encode_mesh(m) =~= b.subrange(pos, pos + n));
}

/// A successfully parsed mesh descriptor is well formed, occupies exactly
/// the byte count its `vertex_type` dictates, and re-encodes to exactly the
/// bytes it was parsed from.
pub proof fn lemma_mesh_parse_print(b: Seq<u8>, pos: int)
    requires
        spec_parse_mesh(b, pos) is Some,
    ensures
        ({
            let (m, n) = spec_parse_mesh(b, pos)->Some_0;
            m.wf() && n == spec_mesh_len(m.vertex_type) && pos + n <= b.len()
                && spec_encode_mesh(m) == b.subrange(pos, pos + n)
        }),
{
    if spec_has_normals(b[pos + 4]) {
        lemma_mesh_parse_print_nrm(b, pos);
    } else if spec_has_colors(b[pos + 4]) {
        lemma_mesh_parse_print_col(b, pos);
    } else {
        lemma_mesh_parse_print_plain(b, pos);
    }
}

/// Reads one mesh descriptor from `b` at `pos`.
pub fn decode_mesh(b: &Vec<u8>, pos: usize) -> (r: Result<(StreamingGCGMesh, usize), PackError>)
    ensures
        match r {
            Ok((m, n)) => spec_parse_mesh(b@, pos as int) == Some((m, n as int)),
            Err(e) => spec_parse_mesh(b@, pos as int) is None && e == PackError::Format,
        },
{
    let l = b.len();
    if l < 8 || pos > l - 8 {
        return Err(PackError::Format);
    }
    let surface_index = read_u32_be(b, pos);
    let vertex_type = b[pos + 4];
    let nrm = (vertex_type & 0x1) == 0x1 && (vertex_type & 0x8) == 0x8;
    let col = (vertex_type & 0x1) == 0x0;
    let need: usize = 21 + (if nrm { 5 } else { 0 }) + (if col { 5 } else { 0 });
    if l - pos < need {
        return Err(PackError::Format);
    }
    let o_nrm = pos + 8;
    let o_col = o_nrm + (if nrm { 2 } else { 0 });
    let o_uv = o_col + (if col { 2 } else { 0 });
    let o_vc = o_uv + 3;
    let o_nc = o_vc + 3;
    let o_cc = o_nc + (if nrm { 3 } else { 0 });
    let o_uc = o_cc + (if col { 3 } else { 0 });
    let o_fc = o_uc + 3;
    let vat = match GXAttrType::from_code(b[pos + 5]) {
        Some(t) => t,
        None => {
            return Err(PackError::Format);
        },
    };
    let vdt = match GXCompType::from_code(b[pos + 6]) {
        Some(t) => t,
        None => {
            return Err(PackError::Format);
        },
    };
    let mut normal_attr_type: Option<GXAttrType> = None;
    let mut normal_data_type: Option<GXCompType> = None;
    if nrm {
        normal_attr_type = match GXAttrType::from_code(b[o_nrm]) {
            Some(t) => Some(t),
            None => {
                return Err(PackError::Format);
            },
        };
        normal_data_type = match GXCompType::from_code(b[o_nrm + 1]) {
            Some(t) => Some(t),
            None => {
                return Err(PackError::Format);
            },
        };
    }
    let mut color_attr_type: Option<GXAttrType> = None;
    let mut color_data_type: Option<GXCompType> = None;
    if col {
        color_attr_type = match GXAttrType::from_code(b[o_col]) {
            Some(t) => Some(t),
            None => {
                return Err(PackError::Format);
            },
        };
        color_data_type = match GXCompType::from_code(b[o_col + 1]) {
            Some(t) => Some(t),
            None => {
                return Err(PackError::Format);
            },
        };
    }
    let uv_attr_type = match GXAttrType::from_code(b[o_uv]) {
        Some(t) => t,
        None => {
            return Err(PackError::Format);
        },
    };
    let uv_data_type = match GXCompType::from_code(b[o_uv + 1]) {
        Some(t) => t,
        None => {
            return Err(PackError::Format);
        },
    };
    let m = StreamingGCGMesh {
        surface_index,
        vertex_type,
        vertex_attr_type: vat,
        vertex_data_type: vdt,
        xyz_frac_bits: b[pos + 7],
        normal_attr_type,
        normal_data_type,
        color_attr_type,
        color_data_type,
        uv_attr_type,
        uv_data_type,
        tex_frac_bits: b[o_uv + 2],
        vertex_count: read_u16_be(b, o_vc),
        byte_stride: b[o_vc + 2],
        normal_count: if nrm { read_u16_be(b, o_nc) } else { 0 },
        normal_stride: if nrm { b[o_nc + 2] } else { 0 },
        color_count: if col { read_u16_be(b, o_cc) } else { 0 },
        color_stride: if col { b[o_cc + 2] } else { 0 },
        uv_count: read_u16_be(b, o_uc),
        uv_stride: b[o_uc + 2],
        face_chunk_size: read_u32_be(b, o_fc),
    };
    Ok((m, need))
}

/// One bone record, kept as its raw 224 on-disk bytes: a 128-byte name
/// field, a 4x4 float matrix, bounding-box center, half extent and radius
/// (all float bit patterns), and a parent index.  The codec never reads
/// inside a bone; it only carries the bytes through.
#[derive(Clone, Debug, PartialEq, Eq)]
pub struct Bone {
    pub raw: Vec<u8>,
}

impl View for Bone {
    type V = Seq<u8>;

    open spec fn view(&self) -> Seq<u8> {
        self.raw@
    }
}

/// Byte length of one bone record.
pub const BONE_SIZE: usize = 224;

/// One mesh name: a fixed 64-byte field.
#[derive(Clone, Debug, PartialEq, Eq)]
pub struct MeshName {
    pub name: Vec<u8>,
}

impl View for MeshName {
    type V = Seq<u8>;

    open spec fn view(&self) -> Seq<u8> {
        self.name@
    }
}

/// Byte length of one mesh name field.
pub const MESH_NAME_SIZE: usize = 64;

/// One skin weight: a bone index and the weight's float bit pattern.
#[derive(Clone, Copy, Debug, PartialEq, Eq)]
pub struct GCGWeight {
    pub bone_id: u16,
    pub weight_bits: u32,
}

/// Mathematical image of one level-of-detail record.
pub ghost struct GcgLodView {
    pub auto_lod_value_bits: u32,
    pub meshes: Seq<StreamingGCGMesh>,
}

/// One level-of-detail record: a selection value (float bit pattern) and
/// its ordered mesh descriptors.
#[derive(Clone, Debug, PartialEq, Eq)]
pub struct GCGLod {
    pub auto_lod_value_bits: u32,
    pub meshes: Vec<StreamingGCGMesh>,
}

impl View for GCGLod {
    type V = GcgLodView;

    open spec fn view(&self) -> GcgLodView {
        GcgLodView { auto_lod_value_bits: self.auto_lod_value_bits, meshes: self.meshes@ }
    }
}

impl GcgLodView {
    pub open spec fn wf(self) -> bool {
        &&& self.meshes.len() <= 0xFFFF_FFFF
        &&& forall|i: int| 0 <= i < self.meshes.len() ==> (#[trigger] self.meshes[i]).wf()
    }
}

/// Mathematical image of a streaming model header.
pub ghost struct GcgHeaderView {
    pub version: u32,
    pub bones: Seq<Seq<u8>>,
    pub mesh_names: Seq<Seq<u8>>,
    pub skin_animates_flag: u8,
    pub has_weight: u8,
    pub unused: u8,
    pub weights: Option<Seq<GCGWeight>>,
    pub lods: Seq<GcgLodView>,
}

impl GcgHeaderView {
    pub open spec fn wf(self) -> bool {
        &&& self.bones.len() <= 0xFFFF_FFFF
        &&& forall|i: int| 0 <= i < self.bones.len() ==> (#[trigger] self.bones[i]).len()
            == BONE_SIZE
        &&& self.mesh_names.len() <= 0xFFFF_FFFF
        &&& forall|i: int|
            0 <= i < self.mesh_names.len() ==> (#[trigger] self.mesh_names[i]).len()
                == MESH_NAME_SIZE
        &&& self.lods.len() <= 0xFF
        &&& (self.weights is Some <==> self.has_weight != 0)
        &&& (self.weights matches Some(ws) ==> ws.len() <= 0xFFFF)
        &&& forall|i: int| 0 <= i < self.lods.len() ==> (#[trigger] self.lods[i]).wf()
    }
}

/// Streaming model header as stored in the object index, magic `"ggs\0"`.
#[derive(Clone, Debug, PartialEq, Eq)]
pub struct GCGHeader {
    pub version: u32,
    pub bones: Vec<Bone>,
    pub mesh_names: Vec<MeshName>,
    pub skin_animates_flag: u8,
    pub has_weight: u8,
    pub unused: u8,
    pub weights: Option<Vec<GCGWeight>>,
    pub lods: Vec<GCGLod>,
}

impl View for GCGHeader {
    type V = GcgHeaderView;

    open spec fn view(&self) -> GcgHeaderView {
        GcgHeaderView {
            version: self.version,
            bones: self.bones@.map_values(|bn: Bone| bn@),
            mesh_names: self.mesh_names@.map_values(|mn: MeshName| mn@),
            skin_animates_flag: self.skin_animates_flag,
            has_weight: self.has_weight,
            unused: self.unused,
            weights: match self.weights {
                Some(ws) => Some(ws@),
                None => None,
            },
            lods: self.lods@.map_values(|l: GCGLod| l@),
        }
    }
}

/// Concatenation of fixed-size byte blocks.
pub open spec fn spec_concat_blocks(ss: Seq<Seq<u8>>) -> Seq<u8>
    decreases ss.len(),
{
    if ss.len() == 0 {
        Seq::empty()
    } else {
        ss.first() + spec_concat_blocks(ss.drop_first())
    }
}

/// `count` fixed-size byte blocks read back to back, with the position
/// after them.
pub open spec fn spec_parse_blocks(b: Seq<u8>, pos: int, count: nat, size: int) -> Option<
    (Seq<Seq<u8>>, int),
>
    decreases count,
{
    if pos < 0 || pos > b.len() {
        None
    } else if count == 0 {
        Some((Seq::empty(), pos))
    } else if pos + size > b.len() {
        None
    } else {
        match spec_parse_blocks(b, pos + size, (count - 1) as nat, size) {
            None => None,
            Some((rest, end)) => Some((seq![b.subrange(pos, pos + size)] + rest, end)),
        }
    }
}

pub proof fn lemma_blocks_parse_print(b: Seq<u8>, pos: int, count: nat, size: int)
    requires
        size >= 0,
        spec_parse_blocks(b, pos, count, size) is Some,
    ensures
        ({
            let (ss, end) = spec_parse_blocks(b, pos, count, size)->Some_0;
            &&& ss.len() == count
            &&& forall|i: int| 0 <= i < ss.len() ==> (#[trigger] ss[i]).len() == size
            &&& pos <= end <= b.len()
            &&& end == pos + count * size
            &&& spec_concat_blocks(ss) == b.subrange(pos, end)
        }),
    decreases count,
{
    let (ss, end) = spec_parse_blocks(b, pos, count, size)->Some_0;
    if count == 0 {
        assert(spec_concat_blocks(ss) =~= b.subrange(pos, pos));
    } else {
        lemma_blocks_parse_print(b, pos + size, (count - 1) as nat, size);
        let (rest, _) = spec_parse_blocks(b, pos + size, (count - 1) as nat, size)->Some_0;
        assert(seq![b.subrange(pos, pos + size)] + rest == ss);
        assert(ss.drop_first() =~= rest);
        assert((count - 1) * size == count * size - size) by (nonlinear_arith);
        assert(spec_concat_blocks(ss) =~= b.subrange(pos, end));
    }
}

/// The on-disk bytes of one skin weight.
pub open spec fn spec_encode_weight(w: GCGWeight) -> Seq<u8> {
    u16_be_bytes(w.bone_id) + u32_be_bytes(w.weight_bits)
}

/// The on-disk bytes of a weight table.
pub open spec fn spec_encode_weights(ws: Seq<GCGWeight>) -> Seq<u8>
    decreases ws.len(),
{
    if ws.len() == 0 {
        Seq::empty()
    } else {
        spec_encode_weight(ws.first()) + spec_encode_weights(ws.drop_first())
    }
}

/// `count` skin weights read back to back, with the position after them.
pub open spec fn spec_parse_weights(b: Seq<u8>, pos: int, count: nat) -> Option<
    (Seq<GCGWeight>, int),
>
    decreases count,
{
    if pos < 0 || pos > b.len() {
        None
    } else if count == 0 {
        Some((Seq::empty(), pos))
    } else if pos + 6 > b.len() {
        None
    } else {
        let w = GCGWeight { bone_id: be16(b, pos) as u16, weight_bits: be32(b, pos + 2) as u32 };
        match spec_parse_weights(b, pos + 6, (count - 1) as nat) {
            None => None,
            Some((rest, end)) => Some((seq![w] + rest, end)),
        }
    }
}

pub proof fn lemma_weights_parse_print(b: Seq<u8>, pos: int, count: nat)
    requires
        spec_parse_weights(b, pos, count) is Some,
    ensures
        ({
            let (ws, end) = spec_parse_weights(b, pos, count)->Some_0;
            &&& ws.len() == count
            &&& pos <= end <= b.len()
            &&& end == pos + count * 6
            &&& spec_encode_weights(ws) == b.subrange(pos, end)
        }),
    decreases count,
{
    let (ws, end) = spec_parse_weights(b, pos, count)->Some_0;
    if count == 0 {
        assert(spec_encode_weights(ws) =~= b.subrange(pos, pos));
    } else {
        lemma_weights_parse_print(b, pos + 6, (count - 1) as nat);
        let (rest, _) = spec_parse_weights(b, pos + 6, (count - 1) as nat)->Some_0;
        assert(ws.drop_first() =~= rest);
        crate::bytes::lemma_be16_reencode(b, pos);
        crate::bytes::lemma_be32_reencode(b, pos + 2);
        assert((count - 1) * 6 == count * 6 - 6) by (nonlinear_arith);
        assert(spec_encode_weights(ws) =~= b.subrange(pos, end));
    }
}

/// The on-disk bytes of an ordered mesh list.
pub open spec fn spec_encode_meshes(ms: Seq<StreamingGCGMesh>) -> Seq<u8>
    decreases ms.len(),
{
    if ms.len() == 0 {
        Seq::empty()
    } else {
        spec_encode_mesh(ms.first()) + spec_encode_meshes(ms.drop_first())
    }
}

/// `count` mesh descriptors read back to back, with the position after
/// them.
pub open spec fn spec_parse_meshes(b: Seq<u8>, pos: int, count: nat) -> Option<
    (Seq<StreamingGCGMesh>, int),
>
    decreases count,
{
    if count == 0 {
        if pos < 0 || pos > b.len() {
            None
        } else {
            Some((Seq::empty(), pos))
        }
    } else {
        match spec_parse_mesh(b, pos) {
            None => None,
            Some((m, n)) => match spec_parse_meshes(b, pos + n, (count - 1) as nat) {
                None => None,
                Some((rest, end)) => Some((seq![m] + rest, end)),
            },
        }
    }
}

pub proof fn lemma_meshes_parse_print(b: Seq<u8>, pos: int, count: nat)
    requires
        spec_parse_meshes(b, pos, count) is Some,
    ensures
        ({
            let (ms, end) = spec_parse_meshes(b, pos, count)->Some_0;
            &&& ms.len() == count
            &&& pos <= end <= b.len()
            &&& forall|i: int| 0 <= i < ms.len() ==> (#[trigger] ms[i]).wf()
            &&& spec_encode_meshes(ms) == b.subrange(pos, end)
        }),
    decreases count,
{
    let (ms, end) = spec_parse_meshes(b, pos, count)->Some_0;
    if count == 0 {
        assert(spec_encode_meshes(ms) =~= b.subrange(pos, pos));
    } else {
        let (m, n) = spec_parse_mesh(b, pos)->Some_0;
        lemma_mesh_parse_print(b, pos);
        lemma_meshes_parse_print(b, pos + n, (count - 1) as nat);
        let (rest, _) = spec_parse_meshes(b, pos + n, (count - 1) as nat)->Some_0;
        assert(ms.drop_first() =~= rest);
        assert(spec_encode_meshes(ms) =~= b.subrange(pos, end));
    }
}

/// The on-disk bytes of one level-of-detail record.
pub open spec fn spec_encode_lod(l: GcgLodView) -> Seq<u8> {
    u32_be_bytes(l.auto_lod_value_bits) + u32_be_bytes(l.meshes.len() as u32) + spec_encode_meshes(
        l.meshes,
    )
}

/// The on-disk bytes of an ordered level-of-detail list.
pub open spec fn spec_encode_lods(ls: Seq<GcgLodView>) -> Seq<u8>
    decreases ls.len(),
{
    if ls.len() == 0 {
        Seq::empty()
    } else {
        spec_encode_lod(ls.first()) + spec_encode_lods(ls.drop_first())
    }
}

/// One level-of-detail record read at `pos`, with the position after it.
pub open spec fn spec_parse_lod(b: Seq<u8>, pos: int) -> Option<(GcgLodView, int)> {
    if pos < 0 || pos + 8 > b.len() {
        None
    } else {
        let auto_lod = be32(b, pos) as u32;
        let num_meshes = be32(b, pos + 4);
        match spec_parse_meshes(b, pos + 8, num_meshes as nat) {
            None => None,
            Some((ms, end)) => Some(
                (GcgLodView { auto_lod_value_bits: auto_lod, meshes: ms }, end),
            ),
        }
    }
}

/// `count` level-of-detail records read back to back.
pub open spec fn spec_parse_lods(b: Seq<u8>, pos: int, count: nat) -> Option<
    (Seq<GcgLodView>, int),
>
    decreases count,
{
    if count == 0 {
        if pos < 0 || pos > b.len() {
            None
        } else {
            Some((Seq::empty(), pos))
        }
    } else {
        match spec_parse_lod(b, pos) {
            None => None,
            Some((l, end1)) => match spec_parse_lods(b, end1, (count - 1) as nat) {
                None => None,
                Some((rest, end)) => Some((seq![l] + rest, end)),
            },
        }
    }
}

pub proof fn lemma_lod_parse_print(b: Seq<u8>, pos: int)
    requires
        spec_parse_lod(b, pos) is Some,
    ensures
        ({
            let (l, end) = spec_parse_lod(b, pos)->Some_0;
            &&& l.wf()
            &&& pos <= end <= b.len()
            &&& spec_encode_lod(l) == b.subrange(pos, end)
        }),
{
    let (l, end) = spec_parse_lod(b, pos)->Some_0;
    let num_meshes = be32(b, pos + 4);
    crate::bytes::lemma_be32_bounds(b, pos + 4);
    lemma_meshes_parse_print(b, pos + 8, num_meshes as nat);
    crate::bytes::lemma_be32_reencode(b, pos);
    crate::bytes::lemma_be32_reencode(b, pos + 4);
    assert(l.meshes.len() as u32 == num_meshes as u32);
    assert(spec_encode_lod(l) =~= b.subrange(pos, end));
}

#[verifier::rlimit(100)]
#[verifier::spinoff_prover]
pub proof fn lemma_lods_parse_print(b: Seq<u8>, pos: int, count: nat)
    requires
        spec_parse_lods(b, pos, count) is Some,
    ensures
        ({
            let (ls, end) = spec_parse_lods(b, pos, count)->Some_0;
            &&& ls.len() == count
            &&& pos <= end <= b.len()
            &&& forall|i: int| 0 <= i < ls.len() ==> (#[trigger] ls[i]).wf()
            &&& spec_encode_lods(ls) == b.subrange(pos, end)
        }),
    decreases count,
{
    let (ls, end) = spec_parse_lods(b, pos, count)->Some_0;
    if count == 0 {
        assert(spec_encode_lods(ls) =~= b.subrange(pos, pos));
    } else {
        let (l, end1) = spec_parse_lod(b, pos)->Some_0;
        lemma_lod_parse_print(b, pos);
        lemma_lods_parse_print(b, end1, (count - 1) as nat);
        let (rest, _) = spec_parse_lods(b, end1, (count - 1) as nat)->Some_0;
        assert(ls.drop_first() =~= rest);
        assert(spec_encode_lods(ls) =~= b.subrange(pos, end));
    }
}

/// The on-disk bytes of a whole streaming model header in the object-index
/// form, magic `"ggs\0"` first.
pub open spec fn spec_encode_ggs(h: GcgHeaderView) -> Seq<u8> {
    seq![0x67u8, 0x67u8, 0x73u8, 0u8] + u32_be_bytes(h.version) + u32_be_bytes(
        h.bones.len() as u32,
    ) + spec_concat_blocks(h.bones) + u32_be_bytes(h.mesh_names.len() as u32) + spec_concat_blocks(
        h.mesh_names,
    ) + seq![h.lods.len() as u8, h.skin_animates_flag, h.has_weight, h.unused] + (if h.has_weight
        != 0 {
        u16_be_bytes((h.weights->Some_0).len() as u16) + spec_encode_weights(h.weights->Some_0)
    } else {
        Seq::<u8>::empty()
    }) + spec_encode_lods(h.lods)
}

/// The streaming model header a byte string holds at `pos`, with the
/// position after it, or `None` where the magic is wrong, the bytes are
/// truncated, or an inner field is malformed.
pub open spec fn spec_parse_ggs(b: Seq<u8>, pos: int) -> Option<(GcgHeaderView, int)> {
    if pos < 0 || pos + 12 > b.len() {
        None
    } else if !(b[pos] == 0x67 && b[pos + 1] == 0x67 && b[pos + 2] == 0x73 && b[pos + 3] == 0) {
        None
    } else {
        let version = be32(b, pos + 4) as u32;
        let num_bones = be32(b, pos + 8);
        match spec_parse_blocks(b, pos + 12, num_bones as nat, BONE_SIZE as int) {
            None => None,
            Some((bones, p1)) => if p1 + 4 > b.len() {
                None
            } else {
                let num_names = be32(b, p1);
                match spec_parse_blocks(b, p1 + 4, num_names as nat, MESH_NAME_SIZE as int) {
                    None => None,
                    Some((names, p2)) => if p2 + 4 > b.len() {
                        None
                    } else {
                        let num_lod = b[p2];
                        let skin = b[p2 + 1];
                        let hw = b[p2 + 2];
                        let unused = b[p2 + 3];
                        if hw != 0 {
                            if p2 + 6 > b.len() {
                                None
                            } else {
                                let wc = be16(b, p2 + 4);
                                match spec_parse_weights(b, p2 + 6, wc as nat) {
                                    None => None,
                                    Some((ws, p3)) => match spec_parse_lods(
                                        b,
                                        p3,
                                        num_lod as nat,
                                    ) {
                                        None => None,
                                        Some((lods, p4)) => Some(
                                            (
                                                GcgHeaderView {
                                                    version,
                                                    bones,
                                                    mesh_names: names,
                                                    skin_animates_flag: skin,
                                                    has_weight: hw,
                                                    unused,
                                                    weights: Some(ws),
                                                    lods,
                                                },
                                                p4,
                                            ),
                                        ),
                                    },
                                }
                            }
                        } else {
                            match spec_parse_lods(b, p2 + 4, num_lod as nat) {
                                None => None,
                                Some((lods, p4)) => Some(
                                    (
                                        GcgHeaderView {
                                            version,
                                            bones,
                                            mesh_names: names,
                                            skin_animates_flag: skin,
                                            has_weight: hw,
                                            unused,
                                            weights: None,
                                            lods,
                                        },
                                        p4,
                                    ),
                                ),
                            }
                        }
                    },
                }
            },
        }
    }
}

/// A successfully parsed streaming model header is well formed and
/// re-encodes to exactly the bytes it was parsed from: decoding followed by
/// re-encoding reproduces the original encoded bytes.
#[verifier::rlimit(100)]
#[verifier::spinoff_prover]
pub proof fn lemma_ggs_parse_print(b: Seq<u8>, pos: int)
    requires
        spec_parse_ggs(b, pos) is Some,
    ensures
        ({
            let (h, end) = spec_parse_ggs(b, pos)->Some_0;
            h.wf() && pos <= end <= b.len() && spec_encode_ggs(h) == b.subrange(pos, end)
        }),
{
    let (h, end) = spec_parse_ggs(b, pos)->Some_0;
    let num_bones = be32(b, pos + 8);
    crate::bytes::lemma_be32_bounds(b, pos + 8);
    lemma_blocks_parse_print(b, pos + 12, num_bones as nat, BONE_SIZE as int);
    let (bones, p1) = spec_parse_blocks(b, pos + 12, num_bones as nat, BONE_SIZE as int)->Some_0;
    let num_names = be32(b, p1);
    crate::bytes::lemma_be32_bounds(b, p1);
    lemma_blocks_parse_print(b, p1 + 4, num_names as nat, MESH_NAME_SIZE as int);
    let (names, p2) = spec_parse_blocks(b, p1 + 4, num_names as nat, MESH_NAME_SIZE as int)
        ->Some_0;
    let num_lod = b[p2];
    let hw = b[p2 + 2];
    crate::bytes::lemma_be32_reencode(b, pos + 4);
    crate::bytes::lemma_be32_reencode(b, pos + 8);
    crate::bytes::lemma_be32_reencode(b, p1);
    let magic = seq![0x67u8, 0x67u8, 0x73u8, 0u8];
    assert(magic =~= b.subrange(pos, pos + 4));
    crate::bytes::lemma_subrange_cat(
        b,
        pos,
        pos + 4,
        pos + 8,
        magic,
        u32_be_bytes(h.version),
    );
    crate::bytes::lemma_subrange_cat(
        b,
        pos,
        pos + 8,
        pos + 12,
        magic + u32_be_bytes(h.version),
        u32_be_bytes(h.bones.len() as u32),
    );
    let t3 = magic + u32_be_bytes(h.version) + u32_be_bytes(h.bones.len() as u32);
    crate::bytes::lemma_subrange_cat(b, pos, pos + 12, p1, t3, spec_concat_blocks(h.bones));
    let t4 = t3 + spec_concat_blocks(h.bones);
    crate::bytes::lemma_subrange_cat(b, pos, p1, p1 + 4, t4, u32_be_bytes(
        h.mesh_names.len() as u32,
    ));
    let t5 = t4 + u32_be_bytes(h.mesh_names.len() as u32);
    crate::bytes::lemma_subrange_cat(b, pos, p1 + 4, p2, t5, spec_concat_blocks(h.mesh_names));
    let t6 = t5 + spec_concat_blocks(h.mesh_names);
    let four = seq![h.lods.len() as u8, h.skin_animates_flag, h.has_weight, h.unused];
    if hw != 0 {
        let wc = be16(b, p2 + 4);
        crate::bytes::lemma_be16_bounds(b, p2 + 4);
        lemma_weights_parse_print(b, p2 + 6, wc as nat);
        let (ws, p3) = spec_parse_weights(b, p2 + 6, wc as nat)->Some_0;
        crate::bytes::lemma_be16_reencode(b, p2 + 4);
        lemma_lods_parse_print(b, p3, num_lod as nat);
        assert(four =~= b.subrange(p2, p2 + 4));
        crate::bytes::lemma_subrange_cat(b, pos, p2, p2 + 4, t6, four);
        let t7 = t6 + four;
        crate::bytes::lemma_subrange_cat(b, pos, p2 + 4, p2 + 6, t7, u16_be_bytes(
            ws.len() as u16,
        ));
        let t8 = t7 + u16_be_bytes(ws.len() as u16);
        crate::bytes::lemma_subrange_cat(b, pos, p2 + 6, p3, t8, spec_encode_weights(ws));
        let t9 = t8 + spec_encode_weights(ws);
        crate::bytes::lemma_subrange_cat(b, pos, p3, end, t9, spec_encode_lods(h.lods));
        assert(t7 + (u16_be_bytes(ws.len() as u16) + spec_encode_weights(ws)) =~= t9);
        assert(spec_encode_ggs(h) == t9 + spec_encode_lods(h.lods));
    } else {
        lemma_lods_parse_print(b, p2 + 4, num_lod as nat);
        assert(four =~= b.subrange(p2, p2 + 4));
        crate::bytes::lemma_subrange_cat(b, pos, p2, p2 + 4, t6, four);
        let t7 = t6 + four;
        crate::bytes::lemma_subrange_cat(b, pos, p2 + 4, end, t7, spec_encode_lods(h.lods));
        assert(t7 + Seq::<u8>::empty() =~= t7);
        assert(spec_encode_ggs(h) == (t7 + Seq::<u8>::empty()) + spec_encode_lods(h.lods));
    }
}

/// Reads `count` bone records at `pos`.
fn decode_bones(b: &Vec<u8>, pos: usize, count: u32) -> (r: Result<(Vec<Bone>, usize), PackError>)
    requires
        pos <= b@.len(),
    ensures
        match r {
            Ok((v, end)) => spec_parse_blocks(b@, pos as int, count as nat, BONE_SIZE as int)
                == Some((v@.map_values(|bn: Bone| bn@), end as int)) && pos <= end <= b@.len(),
            Err(e) => spec_parse_blocks(b@, pos as int, count as nat, BONE_SIZE as int) is None
                && e == PackError::Format,
        },
{
    let l = b.len();
    let mut acc: Vec<Bone> = Vec::new();
    let mut cur: usize = pos;
    let mut k: u32 = 0;
    while k < count
        invariant
            k <= count,
            pos <= cur <= l,
            l == b@.len(),
            acc@.len() == k,
            spec_parse_blocks(b@, pos as int, count as nat, BONE_SIZE as int) == (
            match spec_parse_blocks(b@, cur as int, (count - k) as nat, BONE_SIZE as int) {
                Some((rest, end)) => Some((acc@.map_values(|bn: Bone| bn@) + rest, end)),
                None => None::<(Seq<Seq<u8>>, int)>,
            }),
        decreases count - k,
    {
        if l - cur < BONE_SIZE {
            return Err(PackError::Format);
        }
        let raw = crate::bytes::read_slice(b, cur, BONE_SIZE);
        let ghost old_acc = acc@;
        acc.push(Bone { raw });
        proof {
            let sub = b@.subrange(cur as int, cur + BONE_SIZE);
            assert(acc@.map_values(|bn: Bone| bn@) =~= old_acc.map_values(|bn: Bone| bn@).push(
                sub,
            ));
            let tail = spec_parse_blocks(
                b@,
                cur + BONE_SIZE,
                (count - k - 1) as nat,
                BONE_SIZE as int,
            );
            if tail is Some {
                let (rest2, end2) = tail->Some_0;
                assert(old_acc.map_values(|bn: Bone| bn@) + (seq![sub] + rest2) =~= acc@.map_values(
                    |bn: Bone| bn@,
                ) + rest2);
            }
        }
        cur = cur + BONE_SIZE;
        k = k + 1;
    }
    proof {
        assert(acc@.map_values(|bn: Bone| bn@) + Seq::<Seq<u8>>::empty() =~= acc@.map_values(
            |bn: Bone| bn@,
        ));
    }
    Ok((acc, cur))
}

/// Reads `count` mesh name fields at `pos`.
fn decode_mesh_names(b: &Vec<u8>, pos: usize, count: u32) -> (r: Result<
    (Vec<MeshName>, usize),
    PackError,
>)
    requires
        pos <= b@.len(),
    ensures
        match r {
            Ok((v, end)) => spec_parse_blocks(b@, pos as int, count as nat, MESH_NAME_SIZE as int)
                == Some((v@.map_values(|mn: MeshName| mn@), end as int)) && pos <= end <= b@.len(),
            Err(e) => spec_parse_blocks(
                b@,
                pos as int,
                count as nat,
                MESH_NAME_SIZE as int,
            ) is None && e == PackError::Format,
        },
{
    let l = b.len();
    let mut acc: Vec<MeshName> = Vec::new();
    let mut cur: usize = pos;
    let mut k: u32 = 0;
    while k < count
        invariant
            k <= count,
            pos <= cur <= l,
            l == b@.len(),
            acc@.len() == k,
            spec_parse_blocks(b@, pos as int, count as nat, MESH_NAME_SIZE as int) == (
            match spec_parse_blocks(b@, cur as int, (count - k) as nat, MESH_NAME_SIZE as int) {
                Some((rest, end)) => Some((acc@.map_values(|mn: MeshName| mn@) + rest, end)),
                None => None::<(Seq<Seq<u8>>, int)>,
            }),
        decreases count - k,
    {
        if l - cur < MESH_NAME_SIZE {
            return Err(PackError::Format);
        }
        let name = crate::bytes::read_slice(b, cur, MESH_NAME_SIZE);
        let ghost old_acc = acc@;
        acc.push(MeshName { name });
        proof {
            let sub = b@.subrange(cur as int, cur + MESH_NAME_SIZE);
            assert(acc@.map_values(|mn: MeshName| mn@) =~= old_acc.map_values(
                |mn: MeshName| mn@,
            ).push(sub));
            let tail = spec_parse_blocks(
                b@,
                cur + MESH_NAME_SIZE,
                (count - k - 1) as nat,
                MESH_NAME_SIZE as int,
            );
            if tail is Some {
                let (rest2, end2) = tail->Some_0;
                assert(old_acc.map_values(|mn: MeshName| mn@) + (seq![sub] + rest2)
                    =~= acc@.map_values(|mn: MeshName| mn@) + rest2);
            }
        }
        cur = cur + MESH_NAME_SIZE;
        k = k + 1;
    }
    proof {
        assert(acc@.map_values(|mn: MeshName| mn@) + Seq::<Seq<u8>>::empty() =~= acc@.map_values(
            |mn: MeshName| mn@,
        ));
    }
    Ok((acc, cur))
}

/// Reads `count` skin weights at `pos`.
fn decode_weights(b: &Vec<u8>, pos: usize, count: u16) -> (r: Result<
    (Vec<GCGWeight>, usize),
    PackError,
>)
    requires
        pos <= b@.len(),
    ensures
        match r {
            Ok((v, end)) => spec_parse_weights(b@, pos as int, count as nat) == Some(
                (v@, end as int),
            ) && pos <= end <= b@.len(),
            Err(e) => spec_parse_weights(b@, pos as int, count as nat) is None && e
                == PackError::Format,
        },
{
    let l = b.len();
    let mut acc: Vec<GCGWeight> = Vec::new();
    let mut cur: usize = pos;
    let mut k: u16 = 0;
    while k < count
        invariant
            k <= count,
            pos <= cur <= l,
            l == b@.len(),
            acc@.len() == k,
            spec_parse_weights(b@, pos as int, count as nat) == (
            match spec_parse_weights(b@, cur as int, (count - k) as nat) {
                Some((rest, end)) => Some((acc@ + rest, end)),
                None => None::<(Seq<GCGWeight>, int)>,
            }),
        decreases count - k,
    {
        if l - cur < 6 {
            return Err(PackError::Format);
        }
        let w = GCGWeight { bone_id: read_u16_be(b, cur), weight_bits: read_u32_be(b, cur + 2) };
        let ghost old_acc = acc@;
        acc.push(w);
        proof {
            let tail = spec_parse_weights(b@, cur + 6, (count - k - 1) as nat);
            if tail is Some {
                let (rest2, end2) = tail->Some_0;
                assert(old_acc + (seq![w] + rest2) =~= acc@ + rest2);
            }
        }
        cur = cur + 6;
        k = k + 1;
    }
    proof {
        assert(acc@ + Seq::<GCGWeight>::empty() =~= acc@);
    }
    Ok((acc, cur))
}

/// Reads `count` mesh descriptors at `pos`.
fn decode_meshes(b: &Vec<u8>, pos: usize, count: u32) -> (r: Result<
    (Vec<StreamingGCGMesh>, usize),
    PackError,
>)
    requires
        pos <= b@.len(),
    ensures
        match r {
            Ok((v, end)) => spec_parse_meshes(b@, pos as int, count as nat) == Some(
                (v@, end as int),
            ) && pos <= end <= b@.len(),
            Err(e) => spec_parse_meshes(b@, pos as int, count as nat) is None && e
                == PackError::Format,
        },
{
    let l = b.len();
    let mut acc: Vec<StreamingGCGMesh> = Vec::new();
    let mut cur: usize = pos;
    let mut k: u32 = 0;
    while k < count
        invariant
            k <= count,
            pos <= cur <= l,
            l == b@.len(),
            acc@.len() == k,
            spec_parse_meshes(b@, pos as int, count as nat) == (
            match spec_parse_meshes(b@, cur as int, (count - k) as nat) {
                Some((rest, end)) => Some((acc@ + rest, end)),
                None => None::<(Seq<StreamingGCGMesh>, int)>,
            }),
        decreases count - k,
    {
        let (m, n) = match decode_mesh(b, cur) {
            Ok(p) => p,
            Err(_) => {
                return Err(PackError::Format);
            },
        };
        let ghost old_acc = acc@;
        acc.push(m);
        proof {
            lemma_mesh_parse_print(b@, cur as int);
            let tail = spec_parse_meshes(b@, cur + n, (count - k - 1) as nat);
            if tail is Some {
                let (rest2, end2) = tail->Some_0;
                assert(old_acc + (seq![m] + rest2) =~= acc@ + rest2);
            }
        }
        cur = cur + n;
        k = k + 1;
    }
    proof {
        assert(acc@ + Seq::<StreamingGCGMesh>::empty() =~= acc@);
    }
    Ok((acc, cur))
}

/// Reads `count` level-of-detail records at `pos`.
fn decode_lods(b: &Vec<u8>, pos: usize, count: u8) -> (r: Result<(Vec<GCGLod>, usize), PackError>)
    requires
        pos <= b@.len(),
    ensures
        match r {
            Ok((v, end)) => spec_parse_lods(b@, pos as int, count as nat) == Some(
                (v@.map_values(|x: GCGLod| x@), end as int),
            ) && pos <= end <= b@.len(),
            Err(e) => spec_parse_lods(b@, pos as int, count as nat) is None && e
                == PackError::Format,
        },
{
    let l = b.len();
    let mut acc: Vec<GCGLod> = Vec::new();
    let mut cur: usize = pos;
    let mut k: u8 = 0;
    while k < count
        invariant
            k <= count,
            pos <= cur <= l,
            l == b@.len(),
            acc@.len() == k,
            spec_parse_lods(b@, pos as int, count as nat) == (
            match spec_parse_lods(b@, cur as int, (count - k) as nat) {
                Some((rest, end)) => Some((acc@.map_values(|x: GCGLod| x@) + rest, end)),
                None => None::<(Seq<GcgLodView>, int)>,
            }),
        decreases count - k,
    {
        if l - cur < 8 {
            return Err(PackError::Format);
        }
        let auto_lod_value_bits = read_u32_be(b, cur);
        let num_meshes = read_u32_be(b, cur + 4);
        let (meshes, end1) = match decode_meshes(b, cur + 8, num_meshes) {
            Ok(p) => p,
            Err(_) => {
                return Err(PackError::Format);
            },
        };
        let lod = GCGLod { auto_lod_value_bits, meshes };
        let ghost old_acc = acc@;
        acc.push(lod);
        proof {
            assert(acc@.map_values(|x: GCGLod| x@) =~= old_acc.map_values(|x: GCGLod| x@).push(
                lod@,
            ));
            let tail = spec_parse_lods(b@, end1 as int, (count - k - 1) as nat);
            if tail is Some {
                let (rest2, end2) = tail->Some_0;
                assert(old_acc.map_values(|x: GCGLod| x@) + (seq![lod@] + rest2)
                    =~= acc@.map_values(|x: GCGLod| x@) + rest2);
            }
        }
        cur = end1;
        k = k + 1;
    }
    proof {
        assert(acc@.map_values(|x: GCGLod| x@) + Seq::<GcgLodView>::empty() =~= acc@.map_values(
            |x: GCGLod| x@,
        ));
    }
    Ok((acc, cur))
}

impl GCGHeader {
    /// Fields and gates are internally consistent.
    pub open spec fn wf(&self) -> bool {
        self@.wf()
    }

    /// Reads a streaming model header from `b` at `pos`.  Returns the
    /// header and the position after it; `Format` exactly where the magic
    /// is wrong, the bytes are truncated, or an inner field is malformed.
    pub fn decode(b: &Vec<u8>, pos: usize) -> (r: Result<(GCGHeader, usize), PackError>)
        ensures
            match r {
                Ok((h, end)) => spec_parse_ggs(b@, pos as int) == Some((h@, end as int))
                    && h.wf(),
                Err(e) => spec_parse_ggs(b@, pos as int) is None && e == PackError::Format,
            },
    {
        let l = b.len();
        if l < 12 || pos > l - 12 {
            return Err(PackError::Format);
        }
        if !(b[pos] == 0x67 && b[pos + 1] == 0x67 && b[pos + 2] == 0x73 && b[pos + 3] == 0) {
            return Err(PackError::Format);
        }
        let version = read_u32_be(b, pos + 4);
        let num_bones = read_u32_be(b, pos + 8);
        let (bones, p1) = match decode_bones(b, pos + 12, num_bones) {
            Ok(p) => p,
            Err(_) => {
                return Err(PackError::Format);
            },
        };
        if l - p1 < 4 {
            return Err(PackError::Format);
        }
        let num_names = read_u32_be(b, p1);
        let (mesh_names, p2) = match decode_mesh_names(b, p1 + 4, num_names) {
            Ok(p) => p,
            Err(_) => {
                return Err(PackError::Format);
            },
        };
        if l - p2 < 4 {
            return Err(PackError::Format);
        }
        let num_lod = b[p2];
        let skin_animates_flag = b[p2 + 1];
        let has_weight = b[p2 + 2];
        let unused = b[p2 + 3];
        if has_weight != 0 {
            if l - p2 < 6 {
                return Err(PackError::Format);
            }
            let wc = read_u16_be(b, p2 + 4);
            let (weights, p3) = match decode_weights(b, p2 + 6, wc) {
                Ok(p) => p,
                Err(_) => {
                    return Err(PackError::Format);
                },
            };
            let (lods, p4) = match decode_lods(b, p3, num_lod) {
                Ok(p) => p,
                Err(_) => {
                    return Err(PackError::Format);
                },
            };
            let h = GCGHeader {
                version,
                bones,
                mesh_names,
                skin_animates_flag,
                has_weight,
                unused,
                weights: Some(weights),
                lods,
            };
            proof {
                lemma_ggs_parse_print(b@, pos as int);
            }
            Ok((h, p4))
        } else {
            let (lods, p4) = match decode_lods(b, p2 + 4, num_lod) {
                Ok(p) => p,
                Err(_) => {
                    return Err(PackError::Format);
                },
            };
            let h = GCGHeader {
                version,
                bones,
                mesh_names,
                skin_animates_flag,
                has_weight,
                unused,
                weights: None,
                lods,
            };
            proof {
                lemma_ggs_parse_print(b@, pos as int);
            }
            Ok((h, p4))
        }
    }
}

/// Arguments of the archive write path: the flat streamed blob the vertex
/// and face data of every mesh was extracted from.
#[derive(Clone, Debug)]
pub struct GCGHeaderArgs {
    pub streaming_data: Vec<u8>,
}

/// Bytes a run of `count` three-component values occupies: the component
/// width times three per value.
pub open spec fn spec_vec3_bytes(t: GXCompType, count: u16) -> int {
    match t {
        GXCompType::GX_U8 => count * 3,
        GXCompType::GX_S8 => count * 3,
        GXCompType::GX_U16 => count * 6,
        GXCompType::GX_S16 => count * 6,
        GXCompType::GX_F32 => count * 12,
        GXCompType::GX_U32 => count * 12,
    }
}

/// Bytes a run of `count` two-component values occupies.
pub open spec fn spec_vec2_bytes(t: GXCompType, count: u16) -> int {
    match t {
        GXCompType::GX_U8 => count * 2,
        GXCompType::GX_S8 => count * 2,
        GXCompType::GX_U16 => count * 4,
        GXCompType::GX_S16 => count * 4,
        GXCompType::GX_F32 => count * 8,
        GXCompType::GX_U32 => count * 8,
    }
}

/// Byte size of one mesh's vertex block inside the flat streamed blob:
/// three position components per vertex, then (gated by `vertex_type`)
/// three normal components per normal, four bytes per vertex color, and two
/// UV components per UV.
pub open spec fn spec_vertex_block_size(m: StreamingGCGMesh) -> int {
    spec_vec3_bytes(m.vertex_data_type, m.vertex_count) + (if spec_has_normals(m.vertex_type) {
        match m.normal_data_type {
            Some(t) => spec_vec3_bytes(t, m.normal_count),
            None => 0,
        }
    } else {
        0
    }) + (if spec_has_colors(m.vertex_type) {
        4 * m.color_count as int
    } else {
        0
    }) + (if spec_has_uv_data(m.vertex_type) {
        match m.uv_data_type {
            t => spec_vec2_bytes(t, m.uv_count),
        }
    } else {
        0
    })
}

/// Where the read cursor stands after one mesh: past the vertex block,
/// advanced to the next 32-byte boundary, then past the face chunk with no
/// further padding.
pub open spec fn spec_mesh_step(m: StreamingGCGMesh, cur: int) -> int {
    crate::utils::spec_round_up(cur + spec_vertex_block_size(m), 32) + m.face_chunk_size
}

/// The cursor after a run of meshes starting at `cur`.
pub open spec fn spec_cursor_after_meshes(ms: Seq<StreamingGCGMesh>, cur: int) -> int
    decreases ms.len(),
{
    if ms.len() == 0 {
        cur
    } else {
        spec_cursor_after_meshes(ms.drop_first(), spec_mesh_step(ms.first(), cur))
    }
}

/// Whether every mesh's vertex block and face chunk lie inside a blob of
/// `len` bytes when the run starts at `cur`.
pub open spec fn spec_fits_meshes(ms: Seq<StreamingGCGMesh>, cur: int, len: int) -> bool
    decreases ms.len(),
{
    if ms.len() == 0 {
        true
    } else {
        spec_mesh_step(ms.first(), cur) <= len && spec_fits_meshes(
            ms.drop_first(),
            spec_mesh_step(ms.first(), cur),
            len,
        )
    }
}

/// The cursor after every mesh of a run of level-of-detail records.
pub open spec fn spec_cursor_after_lods(ls: Seq<GcgLodView>, cur: int) -> int
    decreases ls.len(),
{
    if ls.len() == 0 {
        cur
    } else {
        spec_cursor_after_lods(ls.drop_first(), spec_cursor_after_meshes(ls.first().meshes, cur))
    }
}

/// Whether every mesh of every level-of-detail record fits the blob.
pub open spec fn spec_fits_lods(ls: Seq<GcgLodView>, cur: int, len: int) -> bool
    decreases ls.len(),
{
    if ls.len() == 0 {
        true
    } else {
        spec_fits_meshes(ls.first().meshes, cur, len) && spec_fits_lods(
            ls.drop_first(),
            spec_cursor_after_meshes(ls.first().meshes, cur),
            len,
        )
    }
}

/// The on-disk bytes of one mesh descriptor in the archive form: as in the
/// object-index form, but with the streamed-origin bit taken off the
/// `vertex_type` byte.
pub open spec fn spec_encode_mesh_gcg(m: StreamingGCGMesh) -> Seq<u8> {
    u32_be_bytes(m.surface_index) + seq![
        (m.vertex_type - 0x80) as u8,
        spec_attr_code(m.vertex_attr_type),
        spec_comp_code(m.vertex_data_type),
        m.xyz_frac_bits,
    ] + (if spec_has_normals(m.vertex_type) {
        seq![
            spec_attr_code(m.normal_attr_type->Some_0),
            spec_comp_code(m.normal_data_type->Some_0),
        ]
    } else {
        Seq::<u8>::empty()
    }) + (if spec_has_colors(m.vertex_type) {
        seq![
            spec_attr_code(m.color_attr_type->Some_0),
            spec_comp_code(m.color_data_type->Some_0),
        ]
    } else {
        Seq::<u8>::empty()
    }) + seq![
        spec_attr_code(m.uv_attr_type),
        spec_comp_code(m.uv_data_type),
        m.tex_frac_bits,
    ] + u16_be_bytes(m.vertex_count) + seq![m.byte_stride] + (if spec_has_normals(m.vertex_type) {
        u16_be_bytes(m.normal_count) + seq![m.normal_stride]
    } else {
        Seq::<u8>::empty()
    }) + (if spec_has_colors(m.vertex_type) {
        u16_be_bytes(m.color_count) + seq![m.color_stride]
    } else {
        Seq::<u8>::empty()
    }) + u16_be_bytes(m.uv_count) + seq![m.uv_stride] + u32_be_bytes(m.face_chunk_size)
}

/// One archived mesh: its descriptor, its vertex block copied from the
/// blob, and its face chunk copied from the next 32-byte boundary.
pub open spec fn spec_mesh_out(m: StreamingGCGMesh, d: Seq<u8>, cur: int) -> Seq<u8> {
    spec_encode_mesh_gcg(m) + d.subrange(cur, cur + spec_vertex_block_size(m)) + d.subrange(
        crate::utils::spec_round_up(cur + spec_vertex_block_size(m), 32),
        spec_mesh_step(m, cur),
    )
}

/// The archived meshes of a run, each consuming its stretch of the blob.
pub open spec fn spec_meshes_out(ms: Seq<StreamingGCGMesh>, d: Seq<u8>, cur: int) -> Seq<u8>
    decreases ms.len(),
{
    if ms.len() == 0 {
        Seq::empty()
    } else {
        spec_mesh_out(ms.first(), d, cur) + spec_meshes_out(
            ms.drop_first(),
            d,
            spec_mesh_step(ms.first(), cur),
        )
    }
}

/// The archived level-of-detail records, walking the blob left to right.
pub open spec fn spec_lods_out(ls: Seq<GcgLodView>, d: Seq<u8>, cur: int) -> Seq<u8>
    decreases ls.len(),
{
    if ls.len() == 0 {
        Seq::empty()
    } else {
        u32_be_bytes(ls.first().auto_lod_value_bits) + u32_be_bytes(
            ls.first().meshes.len() as u32,
        ) + spec_meshes_out(ls.first().meshes, d, cur) + spec_lods_out(
            ls.drop_first(),
            d,
            spec_cursor_after_meshes(ls.first().meshes, cur),
        )
    }
}

/// The whole archived model file: magic `"gcg\0"`, the header fields, then
/// the level-of-detail records with vertex and face data interleaved from
/// the blob.
pub open spec fn spec_encode_gcg(h: GcgHeaderView, d: Seq<u8>) -> Seq<u8> {
    seq![0x67u8, 0x63u8, 0x67u8, 0u8] + u32_be_bytes(h.version) + u32_be_bytes(
        h.bones.len() as u32,
    ) + spec_concat_blocks(h.bones) + u32_be_bytes(h.mesh_names.len() as u32) + spec_concat_blocks(
        h.mesh_names,
    ) + seq![h.lods.len() as u8, h.skin_animates_flag, h.has_weight, h.unused] + (if h.has_weight
        != 0 {
        u16_be_bytes((h.weights->Some_0).len() as u16) + spec_encode_weights(h.weights->Some_0)
    } else {
        Seq::<u8>::empty()
    }) + spec_lods_out(h.lods, d, 0)
}

/// Every mesh of every level-of-detail record carries the streamed-origin
/// bit on its `vertex_type`.
pub open spec fn spec_streamed_marks(h: GcgHeaderView) -> bool {
    forall|i: int, j: int|
        0 <= i < h.lods.len() && 0 <= j < h.lods[i].meshes.len() ==> (#[trigger] h.lods[i].meshes[
            j
        ]).vertex_type >= 0x80
}

/// Computes one mesh's vertex block size.
fn vertex_block_size_exec(m: &StreamingGCGMesh) -> (r: u64)
    requires
        m.wf(),
    ensures
        r == spec_vertex_block_size(*m),
        r <= 0x400000,
{
    let vc = m.vertex_count as u64;
    let mut size: u64 = match m.vertex_data_type {
        GXCompType::GX_U8 => vc * 3,
        GXCompType::GX_S8 => vc * 3,
        GXCompType::GX_U16 => vc * 6,
        GXCompType::GX_S16 => vc * 6,
        GXCompType::GX_F32 => vc * 12,
        GXCompType::GX_U32 => vc * 12,
    };
    if (m.vertex_type & 0x1) == 0x1 && (m.vertex_type & 0x8) == 0x8 {
        let nc = m.normal_count as u64;
        size = size + (match m.normal_data_type {
            Some(GXCompType::GX_U8) => nc * 3,
            Some(GXCompType::GX_S8) => nc * 3,
            Some(GXCompType::GX_U16) => nc * 6,
            Some(GXCompType::GX_S16) => nc * 6,
            Some(GXCompType::GX_F32) => nc * 12,
            Some(GXCompType::GX_U32) => nc * 12,
            None => 0,
        });
    }
    if (m.vertex_type & 0x1) == 0x0 {
        size = size + 4 * (m.color_count as u64);
    }
    if (m.vertex_type & 0x2) == 0x2 {
        let uc = m.uv_count as u64;
        size = size + (match m.uv_data_type {
            GXCompType::GX_U8 => uc * 2,
            GXCompType::GX_S8 => uc * 2,
            GXCompType::GX_U16 => uc * 4,
            GXCompType::GX_S16 => uc * 4,
            GXCompType::GX_F32 => uc * 8,
            GXCompType::GX_U32 => uc * 8,
        });
    }
    size
}

/// Writes one archived mesh descriptor.
#[verifier::rlimit(100)]
#[verifier::spinoff_prover]
fn push_mesh_gcg(out: &mut Vec<u8>, m: &StreamingGCGMesh)
    requires
        m.wf(),
        m.vertex_type >= 0x80,
    ensures
        final(out)@ == old(out)@ + spec_encode_mesh_gcg(*m),
{
    crate::bytes::push_u32_be(out, m.surface_index);
    crate::bytes::push_u8(out, m.vertex_type - 0x80);
    crate::bytes::push_u8(out, m.vertex_attr_type.code());
    crate::bytes::push_u8(out, m.vertex_data_type.code());
    crate::bytes::push_u8(out, m.xyz_frac_bits);
    let nrm = (m.vertex_type & 0x1) == 0x1 && (m.vertex_type & 0x8) == 0x8;
    let col = (m.vertex_type & 0x1) == 0x0;
    if nrm {
        let a = match m.normal_attr_type {
            Some(t) => t,
            None => GXAttrType::GX_NONE,
        };
        let t = match m.normal_data_type {
            Some(t) => t,
            None => GXCompType::GX_U8,
        };
        crate::bytes::push_u8(out, a.code());
        crate::bytes::push_u8(out, t.code());
    }
    if col {
        let a = match m.color_attr_type {
            Some(t) => t,
            None => GXAttrType::GX_NONE,
        };
        let t = match m.color_data_type {
            Some(t) => t,
            None => GXCompType::GX_U8,
        };
        crate::bytes::push_u8(out, a.code());
        crate::bytes::push_u8(out, t.code());
    }
    crate::bytes::push_u8(out, m.uv_attr_type.code());
    crate::bytes::push_u8(out, m.uv_data_type.code());
    crate::bytes::push_u8(out, m.tex_frac_bits);
    crate::bytes::push_u16_be(out, m.vertex_count);
    crate::bytes::push_u8(out, m.byte_stride);
    if nrm {
        crate::bytes::push_u16_be(out, m.normal_count);
        crate::bytes::push_u8(out, m.normal_stride);
    }
    if col {
        crate::bytes::push_u16_be(out, m.color_count);
        crate::bytes::push_u8(out, m.color_stride);
    }
    crate::bytes::push_u16_be(out, m.uv_count);
    crate::bytes::push_u8(out, m.uv_stride);
    crate::bytes::push_u32_be(out, m.face_chunk_size);
    if nrm {
        assert(final(out)@ =~= old(out)@ + spec_encode_mesh_gcg(*m));
    } else if col {
        assert(final(out)@ =~= old(out)@ + spec_encode_mesh_gcg(*m));
    } else {
        assert(final(out)@ =~= old(out)@ + spec_encode_mesh_gcg(*m));
    }
}

impl GCGHeader {
    /// Writes the archived model file for this header: the header fields
    /// with the `"gcg\0"` magic, then each level of detail's meshes with
    /// their vertex blocks and face chunks copied out of the flat streamed
    /// blob.  After each vertex block the read cursor advances to the next
    /// 32-byte boundary before the face chunk; after the face chunk it does
    /// not.  Fails with `Format` exactly when some mesh's span would run
    /// past the end of the blob.
    #[verifier::rlimit(100)]
    pub fn encode_archive(&self, args: &GCGHeaderArgs) -> (r: Result<Vec<u8>, PackError>)
        requires
            self.wf(),
            spec_streamed_marks(self@),
        ensures
            r is Ok <==> spec_fits_lods(self@.lods, 0, args.streaming_data@.len() as int),
            r matches Ok(out) ==> out@ == spec_encode_gcg(self@, args.streaming_data@),
            r matches Err(e) ==> e == PackError::Format,
    {
        let d = &args.streaming_data;
        let dl = d.len();
        let ghost dv = d@;
        let ghost lods_v = self@.lods;
        let mut out: Vec<u8> = Vec::new();
        crate::bytes::push_u8(&mut out, 0x67);
        crate::bytes::push_u8(&mut out, 0x63);
        crate::bytes::push_u8(&mut out, 0x67);
        crate::bytes::push_u8(&mut out, 0);
        crate::bytes::push_u32_be(&mut out, self.version);
        crate::bytes::push_u32_be(&mut out, self.bones.len() as u32);
        let mut bi: usize = 0;
        let ghost bones_v = self@.bones;
        let ghost pre_bones = out@;
        proof {
            assert(bones_v.skip(0) =~= bones_v);
        }
        while bi < self.bones.len()
            invariant
                bi <= bones_v.len(),
                self.wf(),
                bones_v == self@.bones,
                bones_v.len() == self.bones@.len(),
                forall|i: int| 0 <= i < bones_v.len() ==> self.bones@[i]@ == bones_v[i],
                out@ + spec_concat_blocks(bones_v.skip(bi as int)) == pre_bones
                    + spec_concat_blocks(bones_v),
            decreases self.bones@.len() - bi,
        {
            let bone = &self.bones[bi];
            let ghost ob = out@;
            crate::bytes::push_slice(&mut out, &bone.raw, 0, bone.raw.len());
            proof {
                assert(bone.raw@.subrange(0, bone.raw@.len() as int) =~= bone.raw@);
                assert(bones_v.skip(bi as int).first() == bones_v[bi as int]);
                assert(bones_v.skip(bi as int).drop_first() =~= bones_v.skip(bi as int + 1));
                assert(out@ + spec_concat_blocks(bones_v.skip(bi as int + 1)) =~= ob
                    + spec_concat_blocks(bones_v.skip(bi as int)));
            }
            bi = bi + 1;
        }
        proof {
            assert(bones_v.skip(bones_v.len() as int) =~= Seq::<Seq<u8>>::empty());
            assert(out@ + Seq::<u8>::empty() =~= out@);
        }
        crate::bytes::push_u32_be(&mut out, self.mesh_names.len() as u32);
        let mut ni: usize = 0;
        let ghost names_v = self@.mesh_names;
        let ghost pre_names = out@;
        proof {
            assert(names_v.skip(0) =~= names_v);
        }
        while ni < self.mesh_names.len()
            invariant
                ni <= names_v.len(),
                self.wf(),
                names_v == self@.mesh_names,
                names_v.len() == self.mesh_names@.len(),
                forall|i: int| 0 <= i < names_v.len() ==> self.mesh_names@[i]@ == names_v[i],
                out@ + spec_concat_blocks(names_v.skip(ni as int)) == pre_names
                    + spec_concat_blocks(names_v),
            decreases self.mesh_names@.len() - ni,
        {
            let mn = &self.mesh_names[ni];
            let ghost ob = out@;
            crate::bytes::push_slice(&mut out, &mn.name, 0, mn.name.len());
            proof {
                assert(mn.name@.subrange(0, mn.name@.len() as int) =~= mn.name@);
                assert(names_v.skip(ni as int).first() == names_v[ni as int]);
                assert(names_v.skip(ni as int).drop_first() =~= names_v.skip(ni as int + 1));
                assert(out@ + spec_concat_blocks(names_v.skip(ni as int + 1)) =~= ob
                    + spec_concat_blocks(names_v.skip(ni as int)));
            }
            ni = ni + 1;
        }
        proof {
            assert(names_v.skip(names_v.len() as int) =~= Seq::<Seq<u8>>::empty());
            assert(out@ + Seq::<u8>::empty() =~= out@);
        }
        crate::bytes::push_u8(&mut out, self.lods.len() as u8);
        crate::bytes::push_u8(&mut out, self.skin_animates_flag);
        crate::bytes::push_u8(&mut out, self.has_weight);
        crate::bytes::push_u8(&mut out, self.unused);
        if self.has_weight != 0 {
            match &self.weights {
                Some(ws) => {
                    crate::bytes::push_u16_be(&mut out, ws.len() as u16);
                    let mut wi: usize = 0;
                    let ghost ws_v = ws@;
                    let ghost pre_ws = out@;
                    proof {
                        assert(ws_v.skip(0) =~= ws_v);
                    }
                    while wi < ws.len()
                        invariant
                            wi <= ws_v.len(),
                            ws_v == ws@,
                            out@ + spec_encode_weights(ws_v.skip(wi as int)) == pre_ws
                                + spec_encode_weights(ws_v),
                        decreases ws@.len() - wi,
                    {
                        let w = ws[wi];
                        let ghost ob = out@;
                        crate::bytes::push_u16_be(&mut out, w.bone_id);
                        crate::bytes::push_u32_be(&mut out, w.weight_bits);
                        proof {
                            assert(ws_v.skip(wi as int).first() == ws_v[wi as int]);
                            assert(ws_v.skip(wi as int).drop_first() =~= ws_v.skip(wi as int + 1));
                            assert(out@ + spec_encode_weights(ws_v.skip(wi as int + 1)) =~= ob
                                + spec_encode_weights(ws_v.skip(wi as int)));
                        }
                        wi = wi + 1;
                    }
                    proof {
                        assert(ws_v.skip(ws_v.len() as int) =~= Seq::<GCGWeight>::empty());
                        assert(out@ + Seq::<u8>::empty() =~= out@);
                    }
                },
                None => {
                    proof {
                        assert(false);
                    }
                    return Err(PackError::Format);
                },
            }
        }
        let ghost pre_lods = out@;
        proof {
            assert(spec_encode_gcg(self@, dv) =~= pre_lods + spec_lods_out(lods_v, dv, 0));
        }
        let ghost target = pre_lods + spec_lods_out(lods_v, dv, 0);
        let mut cur: usize = 0;
        let mut li: usize = 0;
        proof {
            assert(lods_v.skip(0) =~= lods_v);
        }
        while li < self.lods.len()
            invariant
                li <= lods_v.len(),
                self.wf(),
                spec_streamed_marks(self@),
                lods_v == self@.lods,
                lods_v.len() == self.lods@.len(),
                forall|i: int| 0 <= i < lods_v.len() ==> self.lods@[i]@ == lods_v[i],
                dl == dv.len(),
                dv == args.streaming_data@,
                cur <= dl,
                spec_cursor_after_lods(lods_v.skip(li as int), cur as int)
                    == spec_cursor_after_lods(lods_v, 0),
                spec_fits_lods(lods_v, 0, dl as int) == spec_fits_lods(
                    lods_v.skip(li as int),
                    cur as int,
                    dl as int,
                ),
                out@ + spec_lods_out(lods_v.skip(li as int), dv, cur as int) == target,
            decreases self.lods@.len() - li,
        {
            let num_meshes = self.lods[li].meshes.len();
            let ghost lv = lods_v[li as int];
            let ghost ms_v = lv.meshes;
            let ghost ob_lod = out@;
            crate::bytes::push_u32_be(&mut out, self.lods[li].auto_lod_value_bits);
            crate::bytes::push_u32_be(&mut out, num_meshes as u32);
            proof {
                assert(lods_v.skip(li as int).first() == lods_v[li as int]);
                assert(lods_v.skip(li as int).drop_first() =~= lods_v.skip(li as int + 1));
                assert(out@ + (spec_meshes_out(ms_v, dv, cur as int) + spec_lods_out(
                    lods_v.skip(li as int + 1),
                    dv,
                    spec_cursor_after_meshes(ms_v, cur as int),
                )) =~= ob_lod + spec_lods_out(lods_v.skip(li as int), dv, cur as int));
                assert(ms_v.skip(0) =~= ms_v);
            }
            let mut mi: usize = 0;
            while mi < num_meshes
                invariant
                    mi <= ms_v.len(),
                    num_meshes == ms_v.len(),
                    self.wf(),
                    spec_streamed_marks(self@),
                    lods_v == self@.lods,
                    0 <= li < lods_v.len(),
                    li < self.lods@.len(),
                    lv == lods_v[li as int],
                    ms_v == lv.meshes,
                    self.lods@[li as int]@ == lv,
                    dl == dv.len(),
                    dv == args.streaming_data@,
                    cur <= dl,
                    spec_cursor_after_lods(
                        lods_v.skip(li as int + 1),
                        spec_cursor_after_meshes(ms_v.skip(mi as int), cur as int),
                    ) == spec_cursor_after_lods(lods_v, 0),
                    spec_fits_lods(lods_v, 0, dl as int) == (spec_fits_meshes(
                        ms_v.skip(mi as int),
                        cur as int,
                        dl as int,
                    ) && spec_fits_lods(
                        lods_v.skip(li as int + 1),
                        spec_cursor_after_meshes(ms_v.skip(mi as int), cur as int),
                        dl as int,
                    )),
                    out@ + (spec_meshes_out(ms_v.skip(mi as int), dv, cur as int)
                        + spec_lods_out(
                        lods_v.skip(li as int + 1),
                        dv,
                        spec_cursor_after_meshes(ms_v.skip(mi as int), cur as int),
                    )) == target,
                decreases num_meshes - mi,
            {
                proof {
                    assert((self@.lods[li as int]).wf());
                    assert((lv.meshes[mi as int]).wf());
                    assert(self@.lods[li as int].meshes[mi as int].vertex_type >= 0x80);
                }
                let m = self.lods[li].meshes[mi];
                let vbs = vertex_block_size_exec(&m);
                let y: u128 = cur as u128 + vbs as u128;
                let e: u128 = ((y + 31) / 32) * 32;
                let end: u128 = e + m.face_chunk_size as u128;
                proof {
                    crate::utils::lemma_round_up_properties(y as int, 32);
                    assert(e == crate::utils::spec_round_up(cur as int + vbs as int, 32));
                    assert(end == spec_mesh_step(m, cur as int));
                    assert(ms_v.skip(mi as int).first() == ms_v[mi as int]);
                    assert(ms_v[mi as int] == m);
                    assert(ms_v.skip(mi as int).drop_first() =~= ms_v.skip(mi as int + 1));
                }
                if end > dl as u128 {
                    return Err(PackError::Format);
                }
                proof {
                    assert(cur + vbs <= dl);
                    assert(e as usize + m.face_chunk_size as usize <= dl);
                }
                let ghost ob = out@;
                push_mesh_gcg(&mut out, &m);
                crate::bytes::push_slice(&mut out, &args.streaming_data, cur, vbs as usize);
                crate::bytes::push_slice(&mut out, &args.streaming_data, e as usize, m.face_chunk_size as usize);
                proof {
                    assert(out@ + spec_meshes_out(ms_v.skip(mi as int + 1), dv, end as int) =~= ob
                        + spec_meshes_out(ms_v.skip(mi as int), dv, cur as int));
                }
                cur = end as usize;
                mi = mi + 1;
            }
            proof {
                assert(ms_v.skip(ms_v.len() as int) =~= Seq::<StreamingGCGMesh>::empty());
                assert(spec_meshes_out(ms_v.skip(ms_v.len() as int), dv, cur as int)
                    == Seq::<u8>::empty());
                assert(out@ + (Seq::<u8>::empty() + spec_lods_out(
                    lods_v.skip(li as int + 1),
                    dv,
                    cur as int,
                )) =~= out@ + spec_lods_out(lods_v.skip(li as int + 1), dv, cur as int));
                assert(spec_cursor_after_meshes(ms_v.skip(ms_v.len() as int), cur as int)
                    == cur as int);
            }
            li = li + 1;
        }
        proof {
            assert(lods_v.skip(lods_v.len() as int) =~= Seq::<GcgLodView>::empty());
            assert(spec_lods_out(lods_v.skip(lods_v.len() as int), dv, cur as int)
                == Seq::<u8>::empty());
            assert(out@ + Seq::<u8>::empty() =~= out@);
            assert(out@ == target);
            assert(spec_fits_lods(lods_v.skip(lods_v.len() as int), cur as int, dl as int));
        }
        Ok(out)
    }
}

} // verus!
