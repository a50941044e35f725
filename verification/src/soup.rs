//! Resolution engine: merges the index and object-index files into one
//! queryable structure, keyed by (section id, component id, instance
//! ordinal), so that every component the streamed-data reader yields can be
//! matched to its metadata record.

use vstd::prelude::*;

use crate::bytes::{be32, read_slice, read_u32_be};
use crate::gcg::{
    spec_parse_blocks, spec_parse_ggs, GCGHeader, GcgHeaderView,
};
use crate::soi::{
    lemma_find_idx_iff_present, spec_count_key, spec_find_idx_from, spec_parse_model_info,
    spec_parse_soi, spec_texture_keys, decode_model_info, ModelInfo, ModelInfoView, Soi,
    StreamingTexture,
};
use crate::PackError;

verus! {

/// Byte length of one parameter field.
pub const PARAMETER_SIZE: usize = 64;

/// One parameter of a placed object: a fixed 64-byte field.
#[derive(Clone, Debug, PartialEq, Eq)]
pub struct StreamingParameter {
    pub data: Vec<u8>,
}

impl View for StreamingParameter {
    type V = Seq<u8>;

    open spec fn view(&self) -> Seq<u8> {
        self.data@
    }
}

/// Mathematical image of a renderable-model record.
pub ghost struct RenderableModelView {
    pub model_info: ModelInfoView,
    pub parameters: Seq<Seq<u8>>,
    pub streaming_model_header: GcgHeaderView,
}

/// One renderable-model record: placement fields, the parameter list the
/// placement declares, and the embedded streaming model header.
#[derive(Clone, Debug)]
pub struct StreamingRenderableModel {
    pub model_info: ModelInfo,
    pub parameters: Vec<StreamingParameter>,
    pub streaming_model_header: GCGHeader,
}

impl View for StreamingRenderableModel {
    type V = RenderableModelView;

    open spec fn view(&self) -> RenderableModelView {
        RenderableModelView {
            model_info: self.model_info@,
            parameters: self.parameters@.map_values(|p: StreamingParameter| p@),
            streaming_model_header: self.streaming_model_header@,
        }
    }
}

/// Mathematical image of a record that pairs placement fields with an
/// opaque payload blob.
pub ghost struct BlobRecordView {
    pub model_info: ModelInfoView,
    pub parameters: Seq<Seq<u8>>,
    pub payload: Seq<u8>,
}

/// One collision-model record: placement fields and parameters; the
/// payload itself is located through the streamed-data file.
#[derive(Clone, Debug)]
pub struct CollisionModelRecord {
    pub model_info: ModelInfo,
    pub parameters: Vec<StreamingParameter>,
}

/// Mathematical image of a collision-model record.
pub ghost struct CollisionModelView {
    pub model_info: ModelInfoView,
    pub parameters: Seq<Seq<u8>>,
}

impl View for CollisionModelRecord {
    type V = CollisionModelView;

    open spec fn view(&self) -> CollisionModelView {
        CollisionModelView {
            model_info: self.model_info@,
            parameters: self.parameters@.map_values(|p: StreamingParameter| p@),
        }
    }
}

/// One motion-pack record: placement fields, parameters, and the header
/// blob written verbatim ahead of the streamed payload.
#[derive(Clone, Debug)]
pub struct MotionPackRecord {
    pub model_info: ModelInfo,
    pub parameters: Vec<StreamingParameter>,
    pub header: Vec<u8>,
}

impl View for MotionPackRecord {
    type V = BlobRecordView;

    open spec fn view(&self) -> BlobRecordView {
        BlobRecordView {
            model_info: self.model_info@,
            parameters: self.parameters@.map_values(|p: StreamingParameter| p@),
            payload: self.header@,
        }
    }
}

/// One static-texture record: placement fields, parameters, and the fully
/// embedded texture file (header plus payload) — static assets carry their
/// bytes here rather than in the streamed-data file.
#[derive(Clone, Debug)]
pub struct StaticTextureRecord {
    pub model_info: ModelInfo,
    pub parameters: Vec<StreamingParameter>,
    pub header_file: Vec<u8>,
}

impl View for StaticTextureRecord {
    type V = BlobRecordView;

    open spec fn view(&self) -> BlobRecordView {
        BlobRecordView {
            model_info: self.model_info@,
            parameters: self.parameters@.map_values(|p: StreamingParameter| p@),
            payload: self.header_file@,
        }
    }
}

/// Mathematical image of one section.
pub ghost struct SectionView {
    pub id: u32,
    pub uncached_page_sizes: Seq<u32>,
    pub cached_page_sizes: Seq<u32>,
}

/// One logical partition of the package: its id and its slices of the two
/// page-size tables.
#[derive(Clone, Debug)]
pub struct Section {
    pub id: u32,
    pub uncached_page_sizes: Vec<u32>,
    pub cached_page_sizes: Vec<u32>,
}

impl View for Section {
    type V = SectionView;

    open spec fn view(&self) -> SectionView {
        SectionView {
            id: self.id,
            uncached_page_sizes: self.uncached_page_sizes@,
            cached_page_sizes: self.cached_page_sizes@,
        }
    }
}

/// The section table at the head of the object index: per section its id,
/// uncached page count and cached page count.
pub open spec fn spec_parse_section_entries(b: Seq<u8>, pos: int, count: nat) -> Option<
    (Seq<(u32, u32, u32)>, int),
>
    decreases count,
{
    if pos < 0 || pos > b.len() {
        None
    } else if count == 0 {
        Some((Seq::empty(), pos))
    } else if pos + 12 > b.len() {
        None
    } else {
        let e = (be32(b, pos) as u32, be32(b, pos + 4) as u32, be32(b, pos + 8) as u32);
        match spec_parse_section_entries(b, pos + 12, (count - 1) as nat) {
            None => None,
            Some((rest, end)) => Some((seq![e] + rest, end)),
        }
    }
}

/// Splits the global page-size tables across the sections, following the
/// per-section counts; the counts must consume both tables exactly.
pub open spec fn spec_split_sections(
    entries: Seq<(u32, u32, u32)>,
    ups: Seq<u32>,
    cps: Seq<u32>,
    uoff: int,
    coff: int,
) -> Option<Seq<SectionView>>
    decreases entries.len(),
{
    if entries.len() == 0 {
        if uoff == ups.len() && coff == cps.len() {
            Some(Seq::empty())
        } else {
            None
        }
    } else {
        let e = entries.first();
        if uoff < 0 || coff < 0 || uoff + e.1 > ups.len() || coff + e.2 > cps.len() {
            None
        } else {
            match spec_split_sections(entries.drop_first(), ups, cps, uoff + e.1, coff + e.2) {
                None => None,
                Some(rest) => Some(
                    seq![
                        SectionView {
                            id: e.0,
                            uncached_page_sizes: ups.subrange(uoff, uoff + e.1),
                            cached_page_sizes: cps.subrange(coff, coff + e.2),
                        },
                    ] + rest,
                ),
            }
        }
    }
}

/// One record of "placement fields plus parameter list", shared by every
/// record kind.
pub open spec fn spec_parse_info_and_params(b: Seq<u8>, pos: int) -> Option<
    (ModelInfoView, Seq<Seq<u8>>, int),
> {
    match spec_parse_model_info(b, pos) {
        None => None,
        Some((mi, p1)) => match spec_parse_blocks(
            b,
            p1,
            mi.parameter_count as nat,
            PARAMETER_SIZE as int,
        ) {
            None => None,
            Some((ps, p2)) => Some((mi, ps, p2)),
        },
    }
}

/// One length-prefixed blob.
pub open spec fn spec_parse_blob(b: Seq<u8>, pos: int) -> Option<(Seq<u8>, int)> {
    if pos < 0 || pos + 4 > b.len() {
        None
    } else {
        let n = be32(b, pos);
        if pos + 4 + n > b.len() {
            None
        } else {
            Some((b.subrange(pos + 4, pos + 4 + n), pos + 4 + n))
        }
    }
}

/// One renderable-model record.
pub open spec fn spec_parse_renderable(b: Seq<u8>, pos: int) -> Option<
    (RenderableModelView, int),
> {
    match spec_parse_info_and_params(b, pos) {
        None => None,
        Some((mi, ps, p2)) => match spec_parse_ggs(b, p2) {
            None => None,
            Some((h, p3)) => Some(
                (
                    RenderableModelView {
                        model_info: mi,
                        parameters: ps,
                        streaming_model_header: h,
                    },
                    p3,
                ),
            ),
        },
    }
}

/// Reads one record's placement fields and parameter list.
fn decode_info_and_params(b: &Vec<u8>, pos: usize) -> (r: Result<
    (ModelInfo, Vec<StreamingParameter>, usize),
    PackError,
>)
    ensures
        match r {
            Ok((mi, ps, end)) => spec_parse_info_and_params(b@, pos as int) == Some(
                (mi@, ps@.map_values(|p: StreamingParameter| p@), end as int),
            ) && pos <= end <= b@.len(),
            Err(e) => spec_parse_info_and_params(b@, pos as int) is None && e == PackError::Format,
        },
{
    let (mi, p1) = match decode_model_info(b, pos) {
        Ok(p) => p,
        Err(_) => {
            return Err(PackError::Format);
        },
    };
    let l = b.len();
    let count = mi.parameter_count;
    let mut acc: Vec<StreamingParameter> = Vec::new();
    let mut cur: usize = p1;
    let mut k: u32 = 0;
    while k < count
        invariant
            k <= count,
            p1 <= cur <= l,
            l == b@.len(),
            acc@.len() == k,
            spec_parse_model_info(b@, pos as int) == Some((mi@, p1 as int)),
            count == mi.parameter_count,
            spec_parse_blocks(b@, p1 as int, count as nat, PARAMETER_SIZE as int) == (
            match spec_parse_blocks(b@, cur as int, (count - k) as nat, PARAMETER_SIZE as int) {
                Some((rest, end)) => Some(
                    (acc@.map_values(|p: StreamingParameter| p@) + rest, end),
                ),
                None => None::<(Seq<Seq<u8>>, int)>,
            }),
        decreases count - k,
    {
        if l - cur < PARAMETER_SIZE {
            return Err(PackError::Format);
        }
        let data = read_slice(b, cur, PARAMETER_SIZE);
        let ghost old_acc = acc@;
        acc.push(StreamingParameter { data });
        proof {
            let sub = b@.subrange(cur as int, cur + PARAMETER_SIZE);
            assert(acc@.map_values(|p: StreamingParameter| p@) =~= old_acc.map_values(
                |p: StreamingParameter| p@,
            ).push(sub));
            let tail = spec_parse_blocks(
                b@,
                cur + PARAMETER_SIZE,
                (count - k - 1) as nat,
                PARAMETER_SIZE as int,
            );
            if tail is Some {
                let (rest2, end2) = tail->Some_0;
                assert(old_acc.map_values(|p: StreamingParameter| p@) + (seq![sub] + rest2)
                    =~= acc@.map_values(|p: StreamingParameter| p@) + rest2);
            }
        }
        cur = cur + PARAMETER_SIZE;
        k = k + 1;
    }
    proof {
        assert(acc@.map_values(|p: StreamingParameter| p@) + Seq::<Seq<u8>>::empty()
            =~= acc@.map_values(|p: StreamingParameter| p@));
    }
    Ok((mi, acc, cur))
}

/// Reads one length-prefixed blob.
fn decode_blob(b: &Vec<u8>, pos: usize) -> (r: Result<(Vec<u8>, usize), PackError>)
    ensures
        match r {
            Ok((v, end)) => spec_parse_blob(b@, pos as int) == Some((v@, end as int)) && pos <= end
                <= b@.len(),
            Err(e) => spec_parse_blob(b@, pos as int) is None && e == PackError::Format,
        },
{
    let l = b.len();
    if l < 4 || pos > l - 4 {
        return Err(PackError::Format);
    }
    let n = read_u32_be(b, pos);
    if ((l - pos - 4) as u64) < n as u64 {
        return Err(PackError::Format);
    }
    let v = read_slice(b, pos + 4, n as usize);
    Ok((v, pos + 4 + n as usize))
}

/// `count` renderable-model records read back to back.
pub open spec fn spec_parse_renderables(b: Seq<u8>, pos: int, count: nat) -> Option<
    (Seq<RenderableModelView>, int),
>
    decreases count,
{
    if count == 0 {
        if pos < 0 || pos > b.len() {
            None
        } else {
            Some((Seq::empty(), pos))
        }
    } else {
        match spec_parse_renderable(b, pos) {
            None => None,
            Some((x, end1)) => match spec_parse_renderables(b, end1, (count - 1) as nat) {
                None => None,
                Some((rest, end)) => Some((seq![x] + rest, end)),
            },
        }
    }
}

/// One collision-model record.
pub open spec fn spec_parse_collision(b: Seq<u8>, pos: int) -> Option<(CollisionModelView, int)> {
    match spec_parse_info_and_params(b, pos) {
        None => None,
        Some((mi, ps, p2)) => Some((CollisionModelView { model_info: mi, parameters: ps }, p2)),
    }
}

/// `count` collision-model records read back to back.
pub open spec fn spec_parse_collisions(b: Seq<u8>, pos: int, count: nat) -> Option<
    (Seq<CollisionModelView>, int),
>
    decreases count,
{
    if count == 0 {
        if pos < 0 || pos > b.len() {
            None
        } else {
            Some((Seq::empty(), pos))
        }
    } else {
        match spec_parse_collision(b, pos) {
            None => None,
            Some((x, end1)) => match spec_parse_collisions(b, end1, (count - 1) as nat) {
                None => None,
                Some((rest, end)) => Some((seq![x] + rest, end)),
            },
        }
    }
}

/// One record of placement fields, parameters and a length-prefixed blob.
pub open spec fn spec_parse_blob_record(b: Seq<u8>, pos: int) -> Option<(BlobRecordView, int)> {
    match spec_parse_info_and_params(b, pos) {
        None => None,
        Some((mi, ps, p2)) => match spec_parse_blob(b, p2) {
            None => None,
            Some((blob, p3)) => Some(
                (BlobRecordView { model_info: mi, parameters: ps, payload: blob }, p3),
            ),
        },
    }
}

/// `count` blob-carrying records read back to back.
pub open spec fn spec_parse_blob_records(b: Seq<u8>, pos: int, count: nat) -> Option<
    (Seq<BlobRecordView>, int),
>
    decreases count,
{
    if count == 0 {
        if pos < 0 || pos > b.len() {
            None
        } else {
            Some((Seq::empty(), pos))
        }
    } else {
        match spec_parse_blob_record(b, pos) {
            None => None,
            Some((x, end1)) => match spec_parse_blob_records(b, end1, (count - 1) as nat) {
                None => None,
                Some((rest, end)) => Some((seq![x] + rest, end)),
            },
        }
    }
}

/// Reads `count` renderable-model records at `pos`.
fn decode_renderables(b: &Vec<u8>, pos: usize, count: u32) -> (r: Result<
    (Vec<StreamingRenderableModel>, usize),
    PackError,
>)
    requires
        pos <= b@.len(),
    ensures
        match r {
            Ok((v, end)) => spec_parse_renderables(b@, pos as int, count as nat) == Some(
                (v@.map_values(|x: StreamingRenderableModel| x@), end as int),
            ) && pos <= end <= b@.len(),
            Err(e) => spec_parse_renderables(b@, pos as int, count as nat) is None && e
                == PackError::Format,
        },
{
    let l = b.len();
    let mut acc: Vec<StreamingRenderableModel> = Vec::new();
    let mut cur: usize = pos;
    let mut k: u32 = 0;
    while k < count
        invariant
            k <= count,
            pos <= cur <= l,
            l == b@.len(),
            acc@.len() == k,
            spec_parse_renderables(b@, pos as int, count as nat) == (
            match spec_parse_renderables(b@, cur as int, (count - k) as nat) {
                Some((rest, end)) => Some(
                    (acc@.map_values(|x: StreamingRenderableModel| x@) + rest, end),
                ),
                None => None::<(Seq<RenderableModelView>, int)>,
            }),
        decreases count - k,
    {
        let (model_info, parameters, p2) = match decode_info_and_params(b, cur) {
            Ok(p) => p,
            Err(_) => {
                return Err(PackError::Format);
            },
        };
        let (streaming_model_header, p3) = match GCGHeader::decode(b, p2) {
            Ok(p) => p,
            Err(_) => {
                return Err(PackError::Format);
            },
        };
        let x = StreamingRenderableModel { model_info, parameters, streaming_model_header };
        let ghost old_acc = acc@;
        acc.push(x);
        proof {
            crate::gcg::lemma_ggs_parse_print(b@, p2 as int);
            assert(acc@.map_values(|x: StreamingRenderableModel| x@) =~= old_acc.map_values(
                |x: StreamingRenderableModel| x@,
            ).push(acc@[old_acc.len() as int]@));
            let tail = spec_parse_renderables(b@, p3 as int, (count - k - 1) as nat);
            if tail is Some {
                let (rest2, end2) = tail->Some_0;
                assert(old_acc.map_values(|x: StreamingRenderableModel| x@) + (seq![
                    acc@[old_acc.len() as int]@,
                ] + rest2) =~= acc@.map_values(|x: StreamingRenderableModel| x@) + rest2);
            }
        }
        cur = p3;
        k = k + 1;
    }
    proof {
        assert(acc@.map_values(|x: StreamingRenderableModel| x@)
            + Seq::<RenderableModelView>::empty() =~= acc@.map_values(
            |x: StreamingRenderableModel| x@,
        ));
    }
    Ok((acc, cur))
}

/// Reads `count` collision-model records at `pos`.
fn decode_collisions(b: &Vec<u8>, pos: usize, count: u32) -> (r: Result<
    (Vec<CollisionModelRecord>, usize),
    PackError,
>)
    requires
        pos <= b@.len(),
    ensures
        match r {
            Ok((v, end)) => spec_parse_collisions(b@, pos as int, count as nat) == Some(
                (v@.map_values(|x: CollisionModelRecord| x@), end as int),
            ) && pos <= end <= b@.len(),
            Err(e) => spec_parse_collisions(b@, pos as int, count as nat) is None && e
                == PackError::Format,
        },
{
    let l = b.len();
    let mut acc: Vec<CollisionModelRecord> = Vec::new();
    let mut cur: usize = pos;
    let mut k: u32 = 0;
    while k < count
        invariant
            k <= count,
            pos <= cur <= l,
            l == b@.len(),
            acc@.len() == k,
            spec_parse_collisions(b@, pos as int, count as nat) == (
            match spec_parse_collisions(b@, cur as int, (count - k) as nat) {
                Some((rest, end)) => Some(
                    (acc@.map_values(|x: CollisionModelRecord| x@) + rest, end),
                ),
                None => None::<(Seq<CollisionModelView>, int)>,
            }),
        decreases count - k,
    {
        let (model_info, parameters, p2) = match decode_info_and_params(b, cur) {
            Ok(p) => p,
            Err(_) => {
                return Err(PackError::Format);
            },
        };
        let x = CollisionModelRecord { model_info, parameters };
        let ghost old_acc = acc@;
        acc.push(x);
        proof {
            assert(acc@.map_values(|x: CollisionModelRecord| x@) =~= old_acc.map_values(
                |x: CollisionModelRecord| x@,
            ).push(acc@[old_acc.len() as int]@));
            let tail = spec_parse_collisions(b@, p2 as int, (count - k - 1) as nat);
            if tail is Some {
                let (rest2, end2) = tail->Some_0;
                assert(old_acc.map_values(|x: CollisionModelRecord| x@) + (seq![
                    acc@[old_acc.len() as int]@,
                ] + rest2) =~= acc@.map_values(|x: CollisionModelRecord| x@) + rest2);
            }
        }
        cur = p2;
        k = k + 1;
    }
    proof {
        assert(acc@.map_values(|x: CollisionModelRecord| x@) + Seq::<CollisionModelView>::empty()
            =~= acc@.map_values(|x: CollisionModelRecord| x@));
    }
    Ok((acc, cur))
}

/// Reads `count` motion-pack records at `pos`.
fn decode_motion_packs(b: &Vec<u8>, pos: usize, count: u32) -> (r: Result<
    (Vec<MotionPackRecord>, usize),
    PackError,
>)
    requires
        pos <= b@.len(),
    ensures
        match r {
            Ok((v, end)) => spec_parse_blob_records(b@, pos as int, count as nat) == Some(
                (v@.map_values(|x: MotionPackRecord| x@), end as int),
            ) && pos <= end <= b@.len(),
            Err(e) => spec_parse_blob_records(b@, pos as int, count as nat) is None && e
                == PackError::Format,
        },
{
    let l = b.len();
    let mut acc: Vec<MotionPackRecord> = Vec::new();
    let mut cur: usize = pos;
    let mut k: u32 = 0;
    while k < count
        invariant
            k <= count,
            pos <= cur <= l,
            l == b@.len(),
            acc@.len() == k,
            spec_parse_blob_records(b@, pos as int, count as nat) == (
            match spec_parse_blob_records(b@, cur as int, (count - k) as nat) {
                Some((rest, end)) => Some(
                    (acc@.map_values(|x: MotionPackRecord| x@) + rest, end),
                ),
                None => None::<(Seq<BlobRecordView>, int)>,
            }),
        decreases count - k,
    {
        let (model_info, parameters, p2) = match decode_info_and_params(b, cur) {
            Ok(p) => p,
            Err(_) => {
                return Err(PackError::Format);
            },
        };
        let (header, p3) = match decode_blob(b, p2) {
            Ok(p) => p,
            Err(_) => {
                return Err(PackError::Format);
            },
        };
        let x = MotionPackRecord { model_info, parameters, header };
        let ghost old_acc = acc@;
        acc.push(x);
        proof {
            assert(acc@.map_values(|x: MotionPackRecord| x@) =~= old_acc.map_values(
                |x: MotionPackRecord| x@,
            ).push(acc@[old_acc.len() as int]@));
            let tail = spec_parse_blob_records(b@, p3 as int, (count - k - 1) as nat);
            if tail is Some {
                let (rest2, end2) = tail->Some_0;
                assert(old_acc.map_values(|x: MotionPackRecord| x@) + (seq![
                    acc@[old_acc.len() as int]@,
                ] + rest2) =~= acc@.map_values(|x: MotionPackRecord| x@) + rest2);
            }
        }
        cur = p3;
        k = k + 1;
    }
    proof {
        assert(acc@.map_values(|x: MotionPackRecord| x@) + Seq::<BlobRecordView>::empty()
            =~= acc@.map_values(|x: MotionPackRecord| x@));
    }
    Ok((acc, cur))
}

/// Reads `count` static-texture records at `pos`.
fn decode_static_textures(b: &Vec<u8>, pos: usize, count: u32) -> (r: Result<
    (Vec<StaticTextureRecord>, usize),
    PackError,
>)
    requires
        pos <= b@.len(),
    ensures
        match r {
            Ok((v, end)) => spec_parse_blob_records(b@, pos as int, count as nat) == Some(
                (v@.map_values(|x: StaticTextureRecord| x@), end as int),
            ) && pos <= end <= b@.len(),
            Err(e) => spec_parse_blob_records(b@, pos as int, count as nat) is None && e
                == PackError::Format,
        },
{
    let l = b.len();
    let mut acc: Vec<StaticTextureRecord> = Vec::new();
    let mut cur: usize = pos;
    let mut k: u32 = 0;
    while k < count
        invariant
            k <= count,
            pos <= cur <= l,
            l == b@.len(),
            acc@.len() == k,
            spec_parse_blob_records(b@, pos as int, count as nat) == (
            match spec_parse_blob_records(b@, cur as int, (count - k) as nat) {
                Some((rest, end)) => Some(
                    (acc@.map_values(|x: StaticTextureRecord| x@) + rest, end),
                ),
                None => None::<(Seq<BlobRecordView>, int)>,
            }),
        decreases count - k,
    {
        let (model_info, parameters, p2) = match decode_info_and_params(b, cur) {
            Ok(p) => p,
            Err(_) => {
                return Err(PackError::Format);
            },
        };
        let (header_file, p3) = match decode_blob(b, p2) {
            Ok(p) => p,
            Err(_) => {
                return Err(PackError::Format);
            },
        };
        let x = StaticTextureRecord { model_info, parameters, header_file };
        let ghost old_acc = acc@;
        acc.push(x);
        proof {
            assert(acc@.map_values(|x: StaticTextureRecord| x@) =~= old_acc.map_values(
                |x: StaticTextureRecord| x@,
            ).push(acc@[old_acc.len() as int]@));
            let tail = spec_parse_blob_records(b@, p3 as int, (count - k - 1) as nat);
            if tail is Some {
                let (rest2, end2) = tail->Some_0;
                assert(old_acc.map_values(|x: StaticTextureRecord| x@) + (seq![
                    acc@[old_acc.len() as int]@,
                ] + rest2) =~= acc@.map_values(|x: StaticTextureRecord| x@) + rest2);
            }
        }
        cur = p3;
        k = k + 1;
    }
    proof {
        assert(acc@.map_values(|x: StaticTextureRecord| x@) + Seq::<BlobRecordView>::empty()
            =~= acc@.map_values(|x: StaticTextureRecord| x@));
    }
    Ok((acc, cur))
}

/// Reads the section table at `pos`.
fn decode_section_entries(b: &Vec<u8>, pos: usize, count: u32) -> (r: Result<
    (Vec<(u32, u32, u32)>, usize),
    PackError,
>)
    requires
        pos <= b@.len(),
    ensures
        match r {
            Ok((v, end)) => spec_parse_section_entries(b@, pos as int, count as nat) == Some(
                (v@, end as int),
            ) && pos <= end <= b@.len(),
            Err(e) => spec_parse_section_entries(b@, pos as int, count as nat) is None && e
                == PackError::Format,
        },
{
    let l = b.len();
    let mut acc: Vec<(u32, u32, u32)> = Vec::new();
    let mut cur: usize = pos;
    let mut k: u32 = 0;
    while k < count
        invariant
            k <= count,
            pos <= cur <= l,
            l == b@.len(),
            acc@.len() == k,
            spec_parse_section_entries(b@, pos as int, count as nat) == (
            match spec_parse_section_entries(b@, cur as int, (count - k) as nat) {
                Some((rest, end)) => Some((acc@ + rest, end)),
                None => None::<(Seq<(u32, u32, u32)>, int)>,
            }),
        decreases count - k,
    {
        if l - cur < 12 {
            return Err(PackError::Format);
        }
        let e = (read_u32_be(b, cur), read_u32_be(b, cur + 4), read_u32_be(b, cur + 8));
        let ghost old_acc = acc@;
        acc.push(e);
        proof {
            let tail = spec_parse_section_entries(b@, cur + 12, (count - k - 1) as nat);
            if tail is Some {
                let (rest2, end2) = tail->Some_0;
                assert(old_acc + (seq![e] + rest2) =~= acc@ + rest2);
            }
        }
        cur = cur + 12;
        k = k + 1;
    }
    proof {
        assert(acc@ + Seq::<(u32, u32, u32)>::empty() =~= acc@);
    }
    Ok((acc, cur))
}

/// Splits the page-size tables across the sections per the table's counts.
fn split_sections(entries: &Vec<(u32, u32, u32)>, ups: &Vec<u32>, cps: &Vec<u32>) -> (r: Result<
    Vec<Section>,
    PackError,
>)
    ensures
        match r {
            Ok(v) => spec_split_sections(entries@, ups@, cps@, 0, 0) == Some(
                v@.map_values(|x: Section| x@),
            ),
            Err(e) => spec_split_sections(entries@, ups@, cps@, 0, 0) is None && e
                == PackError::Format,
        },
{
    let n = entries.len();
    let ul = ups.len();
    let cl = cps.len();
    let mut acc: Vec<Section> = Vec::new();
    let mut uoff: usize = 0;
    let mut coff: usize = 0;
    let mut k: usize = 0;
    proof {
        assert(entries@.skip(0) =~= entries@);
    }
    while k < n
        invariant
            k <= n,
            n == entries@.len(),
            ul == ups@.len(),
            cl == cps@.len(),
            uoff <= ul,
            coff <= cl,
            acc@.len() == k,
            spec_split_sections(entries@, ups@, cps@, 0, 0) == (
            match spec_split_sections(entries@.skip(k as int), ups@, cps@, uoff as int,
                coff as int) {
                Some(rest) => Some(acc@.map_values(|x: Section| x@) + rest),
                None => None::<Seq<SectionView>>,
            }),
        decreases n - k,
    {
        let e = entries[k];
        if ((ul - uoff) as u64) < (e.1 as u64) || ((cl - coff) as u64) < (e.2 as u64) {
            proof {
                assert(entries@.skip(k as int).first() == entries@[k as int]);
            }
            return Err(PackError::Format);
        }
        let uc = e.1 as usize;
        let cc = e.2 as usize;
        let mut usz: Vec<u32> = Vec::new();
        let mut i: usize = 0;
        while i < uc
            invariant
                i <= uc,
                uoff + uc <= ups@.len(),
                usz@ == ups@.subrange(uoff as int, uoff + i),
            decreases uc - i,
        {
            let _n2 = ups.len();
            usz.push(ups[uoff + i]);
            proof {
                assert(usz@ =~= ups@.subrange(uoff as int, uoff + i + 1));
            }
            i = i + 1;
        }
        let mut csz: Vec<u32> = Vec::new();
        let mut j: usize = 0;
        while j < cc
            invariant
                j <= cc,
                coff + cc <= cps@.len(),
                csz@ == cps@.subrange(coff as int, coff + j),
            decreases cc - j,
        {
            let _n2 = cps.len();
            csz.push(cps[coff + j]);
            proof {
                assert(csz@ =~= cps@.subrange(coff as int, coff + j + 1));
            }
            j = j + 1;
        }
        let sec = Section { id: e.0, uncached_page_sizes: usz, cached_page_sizes: csz };
        let ghost old_acc = acc@;
        acc.push(sec);
        proof {
            assert(entries@.skip(k as int).first() == entries@[k as int]);
            assert(entries@.skip(k as int).drop_first() =~= entries@.skip(k as int + 1));
            assert(acc@.map_values(|x: Section| x@) =~= old_acc.map_values(|x: Section| x@).push(
                acc@[old_acc.len() as int]@,
            ));
            let tail = spec_split_sections(
                entries@.skip(k as int + 1),
                ups@,
                cps@,
                uoff + e.1,
                coff + e.2,
            );
            if tail is Some {
                let rest2 = tail->Some_0;
                assert(old_acc.map_values(|x: Section| x@) + (seq![acc@[old_acc.len() as int]@]
                    + rest2) =~= acc@.map_values(|x: Section| x@) + rest2);
            }
        }
        uoff = uoff + uc;
        coff = coff + cc;
        k = k + 1;
    }
    if uoff != ul || coff != cl {
        proof {
            assert(entries@.skip(n as int) =~= Seq::<(u32, u32, u32)>::empty());
        }
        return Err(PackError::Format);
    }
    proof {
        assert(entries@.skip(n as int) =~= Seq::<(u32, u32, u32)>::empty());
        assert(acc@.map_values(|x: Section| x@) + Seq::<SectionView>::empty() =~= acc@.map_values(
            |x: Section| x@,
        ));
    }
    Ok(acc)
}

/// Mathematical image of a cooked package index.
pub ghost struct SoupView {
    pub soi: crate::soi::SoiView,
    pub sections: Seq<SectionView>,
    pub models: Seq<RenderableModelView>,
    pub collision_models: Seq<CollisionModelView>,
    pub motion_packs: Seq<BlobRecordView>,
    pub static_textures: Seq<BlobRecordView>,
}

/// The cooked structure a pair of index and object-index files holds: the
/// parsed index, the sections with their page-size slices, and the four
/// per-kind record lists, parsed back to back after the section table.
pub open spec fn spec_cook(ib: Seq<u8>, ob: Seq<u8>) -> Option<SoupView> {
    match spec_parse_soi(ib) {
        None => None,
        Some(soi) => match spec_parse_section_entries(ob, 0, soi.header.sections as nat) {
            None => None,
            Some((entries, p0)) => match spec_split_sections(
                entries,
                soi.uncached_page_sizes,
                soi.cached_page_sizes,
                0,
                0,
            ) {
                None => None,
                Some(sections) => match spec_parse_renderables(
                    ob,
                    p0,
                    soi.header.renderable_models as nat,
                ) {
                    None => None,
                    Some((models, p1)) => match spec_parse_collisions(
                        ob,
                        p1,
                        soi.header.collision_models as nat,
                    ) {
                        None => None,
                        Some((collisions, p2)) => match spec_parse_blob_records(
                            ob,
                            p2,
                            soi.header.motion_packs as nat,
                        ) {
                            None => None,
                            Some((motions, p3)) => match spec_parse_blob_records(
                                ob,
                                p3,
                                soi.header.static_textures as nat,
                            ) {
                                None => None,
                                Some((statics, _p4)) => Some(
                                    SoupView {
                                        soi,
                                        sections,
                                        models,
                                        collision_models: collisions,
                                        motion_packs: motions,
                                        static_textures: statics,
                                    },
                                ),
                            },
                        },
                    },
                },
            },
        },
    }
}

/// A cooked package index: the parsed index file, the sections, and the
/// per-kind record lists from the object-index file.  Built once at cook
/// time and queried read-only afterwards.
#[derive(Debug)]
pub struct SoiSoup {
    pub soi: Soi,
    pub sections: Vec<Section>,
    pub models: Vec<StreamingRenderableModel>,
    pub collision_models: Vec<CollisionModelRecord>,
    pub motion_packs: Vec<MotionPackRecord>,
    pub static_textures: Vec<StaticTextureRecord>,
}

impl View for SoiSoup {
    type V = SoupView;

    open spec fn view(&self) -> SoupView {
        SoupView {
            soi: self.soi@,
            sections: self.sections@.map_values(|x: Section| x@),
            models: self.models@.map_values(|x: StreamingRenderableModel| x@),
            collision_models: self.collision_models@.map_values(|x: CollisionModelRecord| x@),
            motion_packs: self.motion_packs@.map_values(|x: MotionPackRecord| x@),
            static_textures: self.static_textures@.map_values(|x: StaticTextureRecord| x@),
        }
    }
}

/// Identity keys of a renderable-model list.
pub open spec fn spec_model_keys(xs: Seq<RenderableModelView>) -> Seq<(u32, u32)> {
    xs.map_values(|x: RenderableModelView| (x.model_info.section_id, x.model_info.component_id))
}

/// Identity keys of a collision-model list.
pub open spec fn spec_collision_keys(xs: Seq<CollisionModelView>) -> Seq<(u32, u32)> {
    xs.map_values(|x: CollisionModelView| (x.model_info.section_id, x.model_info.component_id))
}

/// Identity keys of a blob-record list.
pub open spec fn spec_blob_keys(xs: Seq<BlobRecordView>) -> Seq<(u32, u32)> {
    xs.map_values(|x: BlobRecordView| (x.model_info.section_id, x.model_info.component_id))
}

/// Metadata present in the object index is found by the queries alone: a
/// lookup of (section id, component id, instance ordinal) succeeds exactly
/// when the ordinal is below the number of records carrying that identity,
/// whether or not the streamed-data file ever yields a matching component.
pub proof fn lemma_lookup_covers_index(keys: Seq<(u32, u32)>, s: u32, c: u32, inst: nat)
    ensures
        spec_find_idx_from(keys, s, c, inst, 0) is Some <==> inst < spec_count_key(keys, s, c, 0),
{
    lemma_find_idx_iff_present(keys, s, c, inst, 0);
}

impl SoiSoup {
    /// Cooks a package: parses the index file and the object-index file and
    /// builds the per-kind lookup lists.  `Format` exactly where either
    /// file is malformed or the section table does not consume the page
    /// tables.
    pub fn cook(index_bytes: &Vec<u8>, object_bytes: &Vec<u8>) -> (r: Result<SoiSoup, PackError>)
        ensures
            match r {
                Ok(soup) => spec_cook(index_bytes@, object_bytes@) == Some(soup@),
                Err(e) => spec_cook(index_bytes@, object_bytes@) is None && e == PackError::Format,
            },
    {
        let soi = match Soi::parse(index_bytes) {
            Ok(s) => s,
            Err(_) => {
                return Err(PackError::Format);
            },
        };
        let (entries, p0) = match decode_section_entries(object_bytes, 0, soi.header.sections) {
            Ok(p) => p,
            Err(_) => {
                return Err(PackError::Format);
            },
        };
        let sections = match split_sections(
            &entries,
            &soi.uncached_page_sizes,
            &soi.cached_page_sizes,
        ) {
            Ok(v) => v,
            Err(_) => {
                return Err(PackError::Format);
            },
        };
        let (models, p1) = match decode_renderables(object_bytes, p0, soi.header.renderable_models) {
            Ok(p) => p,
            Err(_) => {
                return Err(PackError::Format);
            },
        };
        let (collision_models, p2) = match decode_collisions(
            object_bytes,
            p1,
            soi.header.collision_models,
        ) {
            Ok(p) => p,
            Err(_) => {
                return Err(PackError::Format);
            },
        };
        let (motion_packs, p3) = match decode_motion_packs(
            object_bytes,
            p2,
            soi.header.motion_packs,
        ) {
            Ok(p) => p,
            Err(_) => {
                return Err(PackError::Format);
            },
        };
        let (static_textures, _p4) = match decode_static_textures(
            object_bytes,
            p3,
            soi.header.static_textures,
        ) {
            Ok(p) => p,
            Err(_) => {
                return Err(PackError::Format);
            },
        };
        Ok(SoiSoup { soi, sections, models, collision_models, motion_packs, static_textures })
    }

    /// The sections of the package, in on-disk order.
    pub fn find_sections(&self) -> (r: &Vec<Section>)
        ensures
            r@.map_values(|x: Section| x@) == self@.sections,
    {
        &self.sections
    }

    /// The fully embedded static-texture records.
    pub fn static_textures(&self) -> (r: &Vec<StaticTextureRecord>)
        ensures
            r@.map_values(|x: StaticTextureRecord| x@) == self@.static_textures,
    {
        &self.static_textures
    }

    /// Finds the renderable-model record placed as the `instance_id`-th
    /// occurrence of (section id, component id).  A miss is a normal
    /// outcome the caller must handle.
    pub fn find_model(&self, section_id: u32, component_id: u32, instance_id: u32) -> (r: Option<
        &StreamingRenderableModel,
    >)
        ensures
            match spec_find_idx_from(
                spec_model_keys(self@.models),
                section_id,
                component_id,
                instance_id as nat,
                0,
            ) {
                Some(i) => r is Some && (r->Some_0)@ == self@.models[i],
                None => r is None,
            },
    {
        let ghost keys = spec_model_keys(self@.models);
        let n = self.models.len();
        let mut i: usize = 0;
        let mut inst: u32 = instance_id;
        while i < n
            invariant
                i <= n,
                n == self.models@.len(),
                keys == spec_model_keys(self@.models),
                spec_find_idx_from(keys, section_id, component_id, instance_id as nat, 0)
                    == spec_find_idx_from(keys, section_id, component_id, inst as nat, i as int),
            decreases n - i,
        {
            let x = &self.models[i];
            proof {
                assert(keys[i as int] == (
                    x.model_info.section_id,
                    x.model_info.component_id,
                ));
            }
            if x.model_info.section_id == section_id && x.model_info.component_id == component_id {
                if inst == 0 {
                    return Some(x);
                }
                inst = inst - 1;
            }
            i = i + 1;
        }
        None
    }

    /// Finds the collision-model record placed as the `instance_id`-th
    /// occurrence of (section id, component id).
    pub fn find_collision_model(
        &self,
        section_id: u32,
        component_id: u32,
        instance_id: u32,
    ) -> (r: Option<&CollisionModelRecord>)
        ensures
            match spec_find_idx_from(
                spec_collision_keys(self@.collision_models),
                section_id,
                component_id,
                instance_id as nat,
                0,
            ) {
                Some(i) => r is Some && (r->Some_0)@ == self@.collision_models[i],
                None => r is None,
            },
    {
        let ghost keys = spec_collision_keys(self@.collision_models);
        let n = self.collision_models.len();
        let mut i: usize = 0;
        let mut inst: u32 = instance_id;
        while i < n
            invariant
                i <= n,
                n == self.collision_models@.len(),
                keys == spec_collision_keys(self@.collision_models),
                spec_find_idx_from(keys, section_id, component_id, instance_id as nat, 0)
                    == spec_find_idx_from(keys, section_id, component_id, inst as nat, i as int),
            decreases n - i,
        {
            let x = &self.collision_models[i];
            proof {
                assert(keys[i as int] == (
                    x.model_info.section_id,
                    x.model_info.component_id,
                ));
            }
            if x.model_info.section_id == section_id && x.model_info.component_id == component_id {
                if inst == 0 {
                    return Some(x);
                }
                inst = inst - 1;
            }
            i = i + 1;
        }
        None
    }

    /// Finds the motion-pack record placed as the `instance_id`-th
    /// occurrence of (section id, component id).
    pub fn find_motion_pack(
        &self,
        section_id: u32,
        component_id: u32,
        instance_id: u32,
    ) -> (r: Option<&MotionPackRecord>)
        ensures
            match spec_find_idx_from(
                spec_blob_keys(self@.motion_packs),
                section_id,
                component_id,
                instance_id as nat,
                0,
            ) {
                Some(i) => r is Some && (r->Some_0)@ == self@.motion_packs[i],
                None => r is None,
            },
    {
        let ghost keys = spec_blob_keys(self@.motion_packs);
        let n = self.motion_packs.len();
        let mut i: usize = 0;
        let mut inst: u32 = instance_id;
        while i < n
            invariant
                i <= n,
                n == self.motion_packs@.len(),
                keys == spec_blob_keys(self@.motion_packs),
                spec_find_idx_from(keys, section_id, component_id, instance_id as nat, 0)
                    == spec_find_idx_from(keys, section_id, component_id, inst as nat, i as int),
            decreases n - i,
        {
            let x = &self.motion_packs[i];
            proof {
                assert(keys[i as int] == (
                    x.model_info.section_id,
                    x.model_info.component_id,
                ));
            }
            if x.model_info.section_id == section_id && x.model_info.component_id == component_id {
                if inst == 0 {
                    return Some(x);
                }
                inst = inst - 1;
            }
            i = i + 1;
        }
        None
    }

    /// Finds the streaming-texture record placed as the `instance_id`-th
    /// occurrence of (section id, component id).  A texture resolves as
    /// either streaming or static, never both: on a miss here the caller
    /// checks `find_static_texture`.
    pub fn find_streaming_texture(
        &self,
        section_id: u32,
        component_id: u32,
        instance_id: u32,
    ) -> (r: Option<&StreamingTexture>)
        ensures
            match spec_find_idx_from(
                spec_texture_keys(self@.soi.streaming_textures),
                section_id,
                component_id,
                instance_id as nat,
                0,
            ) {
                Some(i) => r is Some && (r->Some_0)@ == self@.soi.streaming_textures[i],
                None => r is None,
            },
    {
        let ghost keys = spec_texture_keys(self@.soi.streaming_textures);
        let n = self.soi.streaming_textures.len();
        let mut i: usize = 0;
        let mut inst: u32 = instance_id;
        while i < n
            invariant
                i <= n,
                n == self.soi.streaming_textures@.len(),
                keys == spec_texture_keys(self@.soi.streaming_textures),
                spec_find_idx_from(keys, section_id, component_id, instance_id as nat, 0)
                    == spec_find_idx_from(keys, section_id, component_id, inst as nat, i as int),
            decreases n - i,
        {
            let x = &self.soi.streaming_textures[i];
            proof {
                assert(keys[i as int] == (
                    x.model_info.section_id,
                    x.model_info.component_id,
                ));
            }
            if x.model_info.section_id == section_id && x.model_info.component_id == component_id {
                if inst == 0 {
                    return Some(x);
                }
                inst = inst - 1;
            }
            i = i + 1;
        }
        None
    }

    /// Finds the static-texture record placed as the `instance_id`-th
    /// occurrence of (section id, component id).
    pub fn find_static_texture(
        &self,
        section_id: u32,
        component_id: u32,
        instance_id: u32,
    ) -> (r: Option<&StaticTextureRecord>)
        ensures
            match spec_find_idx_from(
                spec_blob_keys(self@.static_textures),
                section_id,
                component_id,
                instance_id as nat,
                0,
            ) {
                Some(i) => r is Some && (r->Some_0)@ == self@.static_textures[i],
                None => r is None,
            },
    {
        let ghost keys = spec_blob_keys(self@.static_textures);
        let n = self.static_textures.len();
        let mut i: usize = 0;
        let mut inst: u32 = instance_id;
        while i < n
            invariant
                i <= n,
                n == self.static_textures@.len(),
                keys == spec_blob_keys(self@.static_textures),
                spec_find_idx_from(keys, section_id, component_id, instance_id as nat, 0)
                    == spec_find_idx_from(keys, section_id, component_id, inst as nat, i as int),
            decreases n - i,
        {
            let x = &self.static_textures[i];
            proof {
                assert(keys[i as int] == (
                    x.model_info.section_id,
                    x.model_info.component_id,
                ));
            }
            if x.model_info.section_id == section_id && x.model_info.component_id == component_id {
                if inst == 0 {
                    return Some(x);
                }
                inst = inst - 1;
            }
            i = i + 1;
        }
        None
    }
}

} // verus!
