use gcn_soup::soi::{Soi, StreamingMode, NO_ZONE};
use gcn_soup::soup::SoiSoup;
use gcn_soup::stream::{ComponentKind, Str};
use gcn_soup::gct::GCTFormat;
use gcn_soup::PackError;

fn push_u32(v: &mut Vec<u8>, x: u32) {
    v.extend_from_slice(&x.to_be_bytes());
}

/// 1112 bytes of placed-object fields.
fn model_info_bytes(section_id: u32, component_id: u32, zone: u32, params: u32) -> Vec<u8> {
    let mut b = Vec::new();
    push_u32(&mut b, 0); // flags
    b.extend_from_slice(&[0u8; 48]); // position, look, up
    push_u32(&mut b, 0); // is animated
    push_u32(&mut b, section_id);
    push_u32(&mut b, component_id);
    b.extend_from_slice(&[0u8; 1040]); // name buffer
    push_u32(&mut b, zone);
    push_u32(&mut b, params);
    b
}

/// Texture header bytes: compressed-4bpp, no palette, 64x64, three mips.
fn gct_header_bytes() -> Vec<u8> {
    let mut b = Vec::new();
    push_u32(&mut b, 0x8002); // streamed version
    push_u32(&mut b, 0x29); // compressed 4bpp
    push_u32(&mut b, 0); // palette size
    push_u32(&mut b, 3); // mips
    push_u32(&mut b, 64);
    push_u32(&mut b, 64);
    b
}

/// Index file: 1 section, 1 streaming texture, 1 uncached page of `page` bytes.
fn index_bytes(page: u32) -> Vec<u8> {
    let mut b = Vec::new();
    push_u32(&mut b, 2); // version
    push_u32(&mut b, 0); // flags
    push_u32(&mut b, 1); // sections
    push_u32(&mut b, 0); // collision models
    push_u32(&mut b, 0); // renderable models
    push_u32(&mut b, 0); // motion packs
    push_u32(&mut b, 1); // streaming textures
    push_u32(&mut b, 0); // static textures
    push_u32(&mut b, 1); // uncached pages
    push_u32(&mut b, 0); // cached pages
    for _ in 0..5 {
        push_u32(&mut b, 0); // block offsets
    }
    push_u32(&mut b, 0); // streaming mode: one-dimensional
    b.extend_from_slice(&[0u8; 16]); // reserved
    push_u32(&mut b, page); // the single uncached page size
    b.extend_from_slice(&model_info_bytes(0, 7, NO_ZONE, 0));
    push_u32(&mut b, 0); // padding
    b.extend_from_slice(&gct_header_bytes());
    b
}

/// Object index: the section table for 1 section owning 1 uncached page.
fn object_bytes() -> Vec<u8> {
    let mut b = Vec::new();
    push_u32(&mut b, 0); // section id
    push_u32(&mut b, 1); // uncached pages
    push_u32(&mut b, 0); // cached pages
    b
}

/// One streamed component of the given kind and payload.
fn component_bytes(kind: u32, id: u32, instance: u32, path: &[u8], data: &[u8]) -> Vec<u8> {
    let mut b = Vec::new();
    push_u32(&mut b, kind);
    push_u32(&mut b, id);
    push_u32(&mut b, instance);
    push_u32(&mut b, path.len() as u32);
    b.extend_from_slice(path);
    push_u32(&mut b, data.len() as u32);
    b.extend_from_slice(data);
    b
}

#[test]
fn soi_parse_reads_counts_and_tables() {
    let ib = index_bytes(42);
    let soi = Soi::parse(&ib).unwrap();
    assert_eq!(soi.header.sections, 1);
    assert_eq!(soi.header.streaming_textures, 1);
    assert_eq!(soi.header.streaming_mode, StreamingMode::OneD);
    assert_eq!(soi.uncached_page_sizes, vec![42]);
    assert!(soi.cached_page_sizes.is_empty());
    assert_eq!(soi.streaming_textures.len(), 1);
    let t = &soi.streaming_textures[0];
    assert_eq!(t.model_info.component_id, 7);
    assert_eq!(t.model_info.zone, NO_ZONE);
    assert_eq!(t.header.format, GCTFormat::Cmpr);
    assert_eq!(t.header.mip_count, 3);
}

#[test]
fn soi_parse_rejects_truncation() {
    let ib = index_bytes(42);
    let cut = ib[..ib.len() - 1].to_vec();
    assert_eq!(Soi::parse(&cut).unwrap_err(), PackError::Format);
    assert_eq!(Soi::parse(&vec![0u8; 10]).unwrap_err(), PackError::Format);
}

#[test]
fn soi_parse_rejects_unknown_streaming_mode() {
    let mut ib = index_bytes(42);
    ib[60..64].copy_from_slice(&9u32.to_be_bytes());
    assert_eq!(Soi::parse(&ib).unwrap_err(), PackError::Format);
}

#[test]
fn find_texture_header_matches_identity() {
    let ib = index_bytes(42);
    let soi = Soi::parse(&ib).unwrap();
    assert!(soi.find_texture_header(0, 7).is_some());
    assert!(soi.find_texture_header(0, 8).is_none());
    assert!(soi.find_texture_header(1, 7).is_none());
}

#[test]
fn lookup_hits_metadata_without_any_streamed_component() {
    // The record is present in the object index; no streamed component
    // ever refers to it.  The lookup must still return the metadata:
    // absence in the streamed-data file is not an error.
    let soup = SoiSoup::cook(&index_bytes(0), &object_bytes()).unwrap();
    let t = soup.find_streaming_texture(0, 7, 0).unwrap();
    assert_eq!(t.header.width, 64);
    assert!(soup.find_streaming_texture(0, 7, 1).is_none()); // only one placement
    assert!(soup.find_static_texture(0, 7, 0).is_none()); // streaming, not static
    assert!(soup.find_model(0, 7, 0).is_none());
    assert!(soup.find_collision_model(0, 7, 0).is_none());
    assert!(soup.find_motion_pack(0, 7, 0).is_none());
}

#[test]
fn cook_rejects_section_table_not_consuming_pages() {
    // The single section claims no pages while the index declares one.
    let mut ob = Vec::new();
    push_u32(&mut ob, 0);
    push_u32(&mut ob, 0);
    push_u32(&mut ob, 0);
    assert_eq!(SoiSoup::cook(&index_bytes(0), &ob).unwrap_err(), PackError::Format);
}

#[test]
fn end_to_end_streamed_texture() {
    // One section, one streaming texture in compressed-4bpp at 64x64 with
    // three mips.  Cooking then reading the section yields exactly one
    // texture component whose payload length is the sum of the three mip
    // sizes, and converting emits the surfaces smallest first.
    let mip_sum = GCTFormat::Cmpr.calculate_mip_size(64, 64)
        + GCTFormat::Cmpr.calculate_mip_size(32, 32)
        + GCTFormat::Cmpr.calculate_mip_size(16, 16);
    let payload: Vec<u8> = (0..mip_sum as u32).map(|i| i as u8).collect();
    let comp = component_bytes(2, 7, 0, b"tex", &payload);
    let ib = index_bytes(comp.len() as u32);
    let soup = SoiSoup::cook(&ib, &object_bytes()).unwrap();
    let mut str_reader = Str::new(comp);

    let sections = soup.find_sections().clone();
    assert_eq!(sections.len(), 1);
    let sd = str_reader.read_section_data(&sections[0]).unwrap();
    assert_eq!(sd.uncached.len(), 1);
    assert!(sd.cached.is_empty());
    let c = &sd.uncached[0];
    assert_eq!(c.kind, ComponentKind::Texture);
    assert_eq!(c.id, 7);
    assert_eq!(c.instance_id, 0);
    assert_eq!(c.path, b"tex".to_vec());
    assert_eq!(c.data.len(), mip_sum);

    let tex = soup.find_streaming_texture(0, c.id, c.instance_id).unwrap();
    let out = gcn_soup::gct::convert_streamed(&tex.header, &c.data).unwrap();
    let mut p = 24;
    for (w, h) in [(16u32, 16u32), (32, 32), (64, 64)] {
        assert_eq!(&out[p..p + 4], &w.to_be_bytes());
        assert_eq!(&out[p + 4..p + 8], &h.to_be_bytes());
        let size = u32::from_be_bytes(out[p + 8..p + 12].try_into().unwrap()) as usize;
        p += 12 + size;
    }
    assert_eq!(p, out.len());
}

#[test]
fn truncated_page_is_a_format_error() {
    // The page-size table claims 100 bytes for a page, but only 80 remain
    // in the stream: a format error, not a truncated component.
    let ib = index_bytes(100);
    let soup = SoiSoup::cook(&ib, &object_bytes()).unwrap();
    let sections = soup.find_sections();
    let mut str_reader = Str::new(vec![0u8; 80]);
    assert_eq!(
        str_reader.read_section_data(&sections[0]).unwrap_err(),
        PackError::Format
    );
}

#[test]
fn component_spanning_pages_is_reassembled() {
    // Two pages split one component in the middle: page boundaries are
    // transparent to component boundaries.
    let comp = component_bytes(4, 3, 1, b"mp", &[9, 9, 9, 9, 9, 9]);
    let cut = comp.len() as u32 / 2;
    let mut ib = index_bytes(0);
    // Rewrite the index: two uncached pages.
    ib[32..36].copy_from_slice(&2u32.to_be_bytes());
    // The page-size table has two entries now; rebuild the file tail.
    let mut ib2 = ib[..80].to_vec();
    push_u32(&mut ib2, cut);
    push_u32(&mut ib2, comp.len() as u32 - cut);
    ib2.extend_from_slice(&ib[84..]);
    let mut ob = Vec::new();
    push_u32(&mut ob, 0);
    push_u32(&mut ob, 2);
    push_u32(&mut ob, 0);
    let soup = SoiSoup::cook(&ib2, &ob).unwrap();
    let sections = soup.find_sections();
    let mut str_reader = Str::new(comp);
    let sd = str_reader.read_section_data(&sections[0]).unwrap();
    assert_eq!(sd.uncached.len(), 1);
    assert_eq!(sd.uncached[0].kind, ComponentKind::MotionPack);
    assert_eq!(sd.uncached[0].instance_id, 1);
    assert_eq!(sd.uncached[0].data, vec![9, 9, 9, 9, 9, 9]);
}

#[test]
fn unknown_component_kind_is_rejected() {
    let comp = component_bytes(9, 1, 0, b"", &[]);
    let ib = index_bytes(comp.len() as u32);
    let soup = SoiSoup::cook(&ib, &object_bytes()).unwrap();
    let sections = soup.find_sections();
    let mut str_reader = Str::new(comp);
    assert_eq!(
        str_reader.read_section_data(&sections[0]).unwrap_err(),
        PackError::Format
    );
}

#[test]
fn instance_ordinals_distinguish_repeated_placements() {
    // Two streaming textures with the same identity: instance 0 and 1.
    let mut ib = index_bytes(0);
    ib[24..28].copy_from_slice(&2u32.to_be_bytes());
    let mut second = model_info_bytes(0, 7, NO_ZONE, 0);
    second.extend_from_slice(&0u32.to_be_bytes());
    let mut tex2 = gct_header_bytes();
    tex2[20..24].copy_from_slice(&32u32.to_be_bytes()); // second is 64x32
    second.extend_from_slice(&tex2);
    ib.extend_from_slice(&second);
    let soup = SoiSoup::cook(&ib, &object_bytes()).unwrap();
    let first = soup.find_streaming_texture(0, 7, 0).unwrap();
    assert_eq!(first.header.height, 64);
    let snd = soup.find_streaming_texture(0, 7, 1).unwrap();
    assert_eq!(snd.header.height, 32);
    assert!(soup.find_streaming_texture(0, 7, 2).is_none());
}
