//! Streamed-data reader: walks the streamed-data file page by page along a
//! section's page-size tables, reassembles the pages into a byte run, and
//! splits the run into typed, identified components.  Page boundaries are
//! transparent to component boundaries: one component may span pages.

use vstd::prelude::*;

use crate::bytes::{be32, read_slice, read_u32_be};
use crate::soup::Section;
use crate::PackError;

verus! {

/// What a streamed component holds.
#[derive(Clone, Copy, Debug, PartialEq, Eq, Structural)]
pub enum ComponentKind {
    RenderableModel,
    CollisionModel,
    Texture,
    UserData,
    MotionPack,
    CollisionGrid,
}

/// The component kind a code stands for, if any.
pub open spec fn spec_kind_of_code(c: int) -> Option<ComponentKind> {
    if c == 0 {
        Some(ComponentKind::RenderableModel)
    } else if c == 1 {
        Some(ComponentKind::CollisionModel)
    } else if c == 2 {
        Some(ComponentKind::Texture)
    } else if c == 3 {
        Some(ComponentKind::UserData)
    } else if c == 4 {
        Some(ComponentKind::MotionPack)
    } else if c == 5 {
        Some(ComponentKind::CollisionGrid)
    } else {
        None
    }
}

impl ComponentKind {
    /// Looks a kind up by its on-disk code.
    pub fn from_code(c: u32) -> (r: Option<ComponentKind>)
        ensures
            r == spec_kind_of_code(c as int),
    {
        if c == 0 {
            Some(ComponentKind::RenderableModel)
        } else if c == 1 {
            Some(ComponentKind::CollisionModel)
        } else if c == 2 {
            Some(ComponentKind::Texture)
        } else if c == 3 {
            Some(ComponentKind::UserData)
        } else if c == 4 {
            Some(ComponentKind::MotionPack)
        } else if c == 5 {
            Some(ComponentKind::CollisionGrid)
        } else {
            None
        }
    }
}

/// Mathematical image of one streamed component.
pub ghost struct ComponentModel {
    pub kind: ComponentKind,
    pub id: u32,
    pub instance_id: u32,
    pub path: Seq<u8>,
    pub data: Seq<u8>,
}

/// One streamed payload unit: its kind, numeric id, instance id
/// (distinguishing repeated placements of the same asset), path bytes, and
/// the raw payload.
#[derive(Clone, Debug)]
pub struct ComponentData {
    pub kind: ComponentKind,
    pub id: u32,
    pub instance_id: u32,
    pub path: Vec<u8>,
    pub data: Vec<u8>,
}

impl View for ComponentData {
    type V = ComponentModel;

    open spec fn view(&self) -> ComponentModel {
        ComponentModel {
            kind: self.kind,
            id: self.id,
            instance_id: self.instance_id,
            path: self.path@,
            data: self.data@,
        }
    }
}

/// The components of one section, uncached pages first.
#[derive(Debug)]
pub struct SectionData {
    pub uncached: Vec<ComponentData>,
    pub cached: Vec<ComponentData>,
}

/// Consumes the declared pages from `b` at `pos` and concatenates their
/// bytes; `None` where a declared page size runs past the end of the file.
pub open spec fn spec_take_pages(b: Seq<u8>, pos: int, sizes: Seq<u32>) -> Option<(Seq<u8>, int)>
    decreases sizes.len(),
{
    if pos < 0 || pos > b.len() {
        None
    } else if sizes.len() == 0 {
        Some((Seq::empty(), pos))
    } else if pos + sizes.first() > b.len() {
        None
    } else {
        match spec_take_pages(b, pos + sizes.first(), sizes.drop_first()) {
            None => None,
            Some((rest, end)) => Some((b.subrange(pos, pos + sizes.first()) + rest, end)),
        }
    }
}

/// One component read from an assembled byte run: kind, id, instance id,
/// length-prefixed path, length-prefixed payload.
pub open spec fn spec_parse_component(b: Seq<u8>, pos: int) -> Option<(ComponentModel, int)> {
    if pos < 0 || pos + 16 > b.len() {
        None
    } else {
        match spec_kind_of_code(be32(b, pos)) {
            None => None,
            Some(kind) => {
                let pl = be32(b, pos + 12);
                if pos + 16 + pl + 4 > b.len() {
                    None
                } else {
                    let dl = be32(b, pos + 16 + pl);
                    if pos + 20 + pl + dl > b.len() {
                        None
                    } else {
                        Some(
                            (
                                ComponentModel {
                                    kind,
                                    id: be32(b, pos + 4) as u32,
                                    instance_id: be32(b, pos + 8) as u32,
                                    path: b.subrange(pos + 16, pos + 16 + pl),
                                    data: b.subrange(pos + 20 + pl, pos + 20 + pl + dl),
                                },
                                pos + 20 + pl + dl,
                            ),
                        )
                    }
                }
            },
        }
    }
}

/// Every component of an assembled byte run from `pos` to its end; `None`
/// where a component is malformed or bytes are left over.
pub open spec fn spec_parse_components(b: Seq<u8>, pos: int) -> Option<Seq<ComponentModel>>
    decreases b.len() - pos,
{
    if pos == b.len() {
        Some(Seq::empty())
    } else {
        match spec_parse_component(b, pos) {
            None => None,
            Some((cm, end)) => if end <= pos || end > b.len() {
                None
            } else {
                match spec_parse_components(b, end) {
                    None => None,
                    Some(rest) => Some(seq![cm] + rest),
                }
            },
        }
    }
}

/// What reading one section yields: the uncached pages' components, the
/// cached pages' components, and the position after the section's pages.
pub open spec fn spec_read_section(b: Seq<u8>, pos: int, sec: crate::soup::SectionView) -> Option<
    (Seq<ComponentModel>, Seq<ComponentModel>, int),
> {
    match spec_take_pages(b, pos, sec.uncached_page_sizes) {
        None => None,
        Some((ubytes, p1)) => match spec_take_pages(b, p1, sec.cached_page_sizes) {
            None => None,
            Some((cbytes, p2)) => match spec_parse_components(ubytes, 0) {
                None => None,
                Some(ucomps) => match spec_parse_components(cbytes, 0) {
                    None => None,
                    Some(ccomps) => Some((ucomps, ccomps, p2)),
                },
            },
        },
    }
}

/// Reads one component from an assembled byte run.
fn decode_component(b: &Vec<u8>, pos: usize) -> (r: Result<(ComponentData, usize), PackError>)
    ensures
        match r {
            Ok((cd, end)) => spec_parse_component(b@, pos as int) == Some((cd@, end as int))
                && pos < end <= b@.len(),
            Err(e) => spec_parse_component(b@, pos as int) is None && e == PackError::Format,
        },
{
    let l = b.len();
    if l < 16 || pos > l - 16 {
        return Err(PackError::Format);
    }
    let kind = match ComponentKind::from_code(read_u32_be(b, pos)) {
        Some(k) => k,
        None => {
            return Err(PackError::Format);
        },
    };
    let id = read_u32_be(b, pos + 4);
    let instance_id = read_u32_be(b, pos + 8);
    let pl = read_u32_be(b, pos + 12);
    if ((l - pos - 16) as u64) < pl as u64 + 4 {
        return Err(PackError::Format);
    }
    let pl_us = pl as usize;
    let path = read_slice(b, pos + 16, pl_us);
    let dl = read_u32_be(b, pos + 16 + pl_us);
    if ((l - pos - 20 - pl_us) as u64) < dl as u64 {
        return Err(PackError::Format);
    }
    let dl_us = dl as usize;
    let data = read_slice(b, pos + 20 + pl_us, dl_us);
    let cd = ComponentData { kind, id, instance_id, path, data };
    Ok((cd, pos + 20 + pl_us + dl_us))
}

/// Splits an assembled byte run into its components; the run must be
/// consumed exactly.
fn decode_components(b: &Vec<u8>) -> (r: Result<Vec<ComponentData>, PackError>)
    ensures
        match r {
            Ok(v) => spec_parse_components(b@, 0) == Some(
                v@.map_values(|c: ComponentData| c@),
            ),
            Err(e) => spec_parse_components(b@, 0) is None && e == PackError::Format,
        },
{
    let l = b.len();
    let mut acc: Vec<ComponentData> = Vec::new();
    let mut cur: usize = 0;
    while cur < l
        invariant
            cur <= l,
            l == b@.len(),
            spec_parse_components(b@, 0) == (match spec_parse_components(b@, cur as int) {
                Some(rest) => Some(acc@.map_values(|c: ComponentData| c@) + rest),
                None => None::<Seq<ComponentModel>>,
            }),
        decreases l - cur,
    {
        let (cd, end) = match decode_component(b, cur) {
            Ok(p) => p,
            Err(_) => {
                return Err(PackError::Format);
            },
        };
        let ghost old_acc = acc@;
        acc.push(cd);
        proof {
            assert(acc@.map_values(|c: ComponentData| c@) =~= old_acc.map_values(
                |c: ComponentData| c@,
            ).push(acc@[old_acc.len() as int]@));
            let tail = spec_parse_components(b@, end as int);
            if tail is Some {
                let rest2 = tail->Some_0;
                assert(old_acc.map_values(|c: ComponentData| c@) + (seq![
                    acc@[old_acc.len() as int]@,
                ] + rest2) =~= acc@.map_values(|c: ComponentData| c@) + rest2);
            }
        }
        cur = end;
    }
    proof {
        assert(acc@.map_values(|c: ComponentData| c@) + Seq::<ComponentModel>::empty()
            =~= acc@.map_values(|c: ComponentData| c@));
    }
    Ok(acc)
}

/// Consumes the declared pages and concatenates their bytes.
fn take_pages(b: &Vec<u8>, pos: usize, sizes: &Vec<u32>) -> (r: Result<(Vec<u8>, usize), PackError>)
    requires
        pos <= b@.len(),
    ensures
        match r {
            Ok((v, end)) => spec_take_pages(b@, pos as int, sizes@) == Some((v@, end as int))
                && pos <= end <= b@.len(),
            Err(e) => spec_take_pages(b@, pos as int, sizes@) is None && e == PackError::Format,
        },
{
    let l = b.len();
    let n = sizes.len();
    let mut acc: Vec<u8> = Vec::new();
    let mut cur: usize = pos;
    let mut k: usize = 0;
    proof {
        assert(sizes@.skip(0) =~= sizes@);
    }
    while k < n
        invariant
            k <= n,
            n == sizes@.len(),
            pos <= cur <= l,
            l == b@.len(),
            spec_take_pages(b@, pos as int, sizes@) == (
            match spec_take_pages(b@, cur as int, sizes@.skip(k as int)) {
                Some((rest, end)) => Some((acc@ + rest, end)),
                None => None::<(Seq<u8>, int)>,
            }),
        decreases n - k,
    {
        let sz = sizes[k];
        proof {
            assert(sizes@.skip(k as int).first() == sizes@[k as int]);
            assert(sizes@.skip(k as int).drop_first() =~= sizes@.skip(k as int + 1));
        }
        if ((l - cur) as u64) < sz as u64 {
            return Err(PackError::Format);
        }
        let sz_us = sz as usize;
        let ghost old_acc = acc@;
        crate::bytes::push_slice(&mut acc, b, cur, sz_us);
        proof {
            let sub = b@.subrange(cur as int, cur + sz_us);
            let tail = spec_take_pages(b@, cur + sz_us, sizes@.skip(k as int + 1));
            if tail is Some {
                let (rest2, end2) = tail->Some_0;
                assert(old_acc + (sub + rest2) =~= acc@ + rest2);
            }
        }
        cur = cur + sz_us;
        k = k + 1;
    }
    proof {
        assert(sizes@.skip(n as int) =~= Seq::<u32>::empty());
        assert(acc@ + Seq::<u8>::empty() =~= acc@);
    }
    Ok((acc, cur))
}

/// The streamed-data file with a read position that advances section by
/// section.
pub struct Str {
    pub data: Vec<u8>,
    pub pos: usize,
}

impl Str {
    /// Wraps a streamed-data file held in memory, positioned at its start.
    pub fn new(data: Vec<u8>) -> (r: Str)
        ensures
            r.data == data,
            r.pos == 0,
    {
        Str { data, pos: 0 }
    }

    /// Reads the next section's pages from the current position: exactly
    /// the declared number of bytes per page, uncached pages before cached
    /// pages, reassembled and split into components in on-disk order.
    /// Fails with `Format` — leaving the position unchanged — exactly where
    /// a declared page size runs past the remaining bytes or an assembled
    /// run does not split into whole components.
    pub fn read_section_data(&mut self, section: &Section) -> (r: Result<SectionData, PackError>)
        requires
            old(self).pos <= old(self).data@.len(),
        ensures
            final(self).data == old(self).data,
            match r {
                Ok(sd) => {
                    &&& spec_read_section(old(self).data@, old(self).pos as int, section@)
                        matches Some((u, c, end))
                    &&& sd.uncached@.map_values(|x: ComponentData| x@) == u
                    &&& sd.cached@.map_values(|x: ComponentData| x@) == c
                    &&& final(self).pos == end
                    &&& final(self).pos <= final(self).data@.len()
                },
                Err(e) => spec_read_section(
                    old(self).data@,
                    old(self).pos as int,
                    section@,
                ) is None && e == PackError::Format && final(self).pos == old(self).pos,
            },
    {
        let (ubytes, p1) = match take_pages(&self.data, self.pos, &section.uncached_page_sizes) {
            Ok(p) => p,
            Err(_) => {
                return Err(PackError::Format);
            },
        };
        let (cbytes, p2) = match take_pages(&self.data, p1, &section.cached_page_sizes) {
            Ok(p) => p,
            Err(_) => {
                return Err(PackError::Format);
            },
        };
        let uncached = match decode_components(&ubytes) {
            Ok(v) => v,
            Err(_) => {
                return Err(PackError::Format);
            },
        };
        let cached = match decode_components(&cbytes) {
            Ok(v) => v,
            Err(_) => {
                return Err(PackError::Format);
            },
        };
        self.pos = p2;
        Ok(SectionData { uncached, cached })
    }
}

} // verus!
