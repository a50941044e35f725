use gcn_soup::gcg::{GCGHeader, GCGHeaderArgs, GXAttrType, GXCompType};
use gcn_soup::gct::{GCNTextureHeader, GCTFormat};
use gcn_soup::PackError;

fn push_u32(v: &mut Vec<u8>, x: u32) {
    v.extend_from_slice(&x.to_be_bytes());
}

fn push_u16(v: &mut Vec<u8>, x: u16) {
    v.extend_from_slice(&x.to_be_bytes());
}

#[test]
fn block_dims_and_bpp() {
    assert_eq!(GCTFormat::Rgba8.get_block_dim(), (4, 4));
    assert_eq!(GCTFormat::Cmpr.get_block_dim(), (8, 8));
    assert_eq!(GCTFormat::Cmpr_MM.get_block_dim(), (8, 8));
    assert_eq!(GCTFormat::Ci8.get_block_dim(), (8, 4));
    assert_eq!(GCTFormat::Ci8_MM.get_block_dim(), (8, 4));
    assert_eq!(GCTFormat::I8.get_block_dim(), (8, 4));
    assert_eq!(GCTFormat::Rgba8.get_bits_per_pixel(), 32);
    assert_eq!(GCTFormat::Cmpr.get_bits_per_pixel(), 4);
    assert_eq!(GCTFormat::Ci8.get_bits_per_pixel(), 8);
    assert_eq!(GCTFormat::I8.get_bits_per_pixel(), 8);
}

#[test]
fn mip_size_exact_values() {
    assert_eq!(GCTFormat::Cmpr.calculate_mip_size(64, 64), 2048);
    assert_eq!(GCTFormat::Cmpr.calculate_mip_size(32, 32), 512);
    assert_eq!(GCTFormat::Cmpr.calculate_mip_size(16, 16), 128);
    assert_eq!(GCTFormat::Rgba8.calculate_mip_size(64, 64), 16384);
    assert_eq!(GCTFormat::Ci8.calculate_mip_size(64, 64), 4096);
    // An odd size is rounded up to whole blocks: 13x7 on 8x4 blocks is 2x2.
    assert_eq!(GCTFormat::I8.calculate_mip_size(13, 7), 4 * 32);
    // Deterministic: the same arguments give the same size.
    assert_eq!(
        GCTFormat::Cmpr.calculate_mip_size(40, 24),
        GCTFormat::Cmpr.calculate_mip_size(40, 24)
    );
}

#[test]
fn image_size_sums_every_level() {
    let h = GCNTextureHeader {
        version: 2,
        format: GCTFormat::Cmpr,
        palette_size: 0,
        palette: Vec::new(),
        mip_count: 3,
        width: 64,
        height: 64,
    };
    assert_eq!(h.calculate_image_size(), 2048 + 512 + 128);
}

#[test]
fn image_size_counts_base_level_even_with_zero_mips() {
    let h = GCNTextureHeader {
        version: 2,
        format: GCTFormat::Cmpr,
        palette_size: 0,
        palette: Vec::new(),
        mip_count: 0,
        width: 64,
        height: 64,
    };
    assert_eq!(h.calculate_image_size(), 2048);
}

#[test]
fn image_size_matches_halving_until_one() {
    // Halve both dimensions until they reach one pixel, summing each
    // level's size; with a matching mip count the image size is that sum.
    let (mut w, mut h): (usize, usize) = (64, 48);
    let mut levels: u32 = 0;
    let mut sum: usize = 0;
    loop {
        sum += GCTFormat::Ci8.calculate_mip_size(w, h);
        levels += 1;
        if w <= 1 && h <= 1 {
            break;
        }
        w = (w / 2).max(1);
        h = (h / 2).max(1);
    }
    let header = GCNTextureHeader {
        version: 2,
        format: GCTFormat::Ci8,
        palette_size: 0,
        palette: Vec::new(),
        mip_count: levels,
        width: 64,
        height: 48,
    };
    assert_eq!(header.calculate_image_size(), sum);
}

#[test]
fn texture_header_round_trip() {
    let h = GCNTextureHeader {
        version: 0x8002,
        format: GCTFormat::Ci8_MM,
        palette_size: 3,
        palette: vec![1, 2, 3, 4, 5, 6],
        mip_count: 2,
        width: 16,
        height: 8,
    };
    let bytes = h.encode();
    let (back, used) = GCNTextureHeader::decode(&bytes, 0).unwrap();
    assert_eq!(used, bytes.len());
    assert_eq!(back.version, 0x8002);
    assert_eq!(back.format, GCTFormat::Ci8_MM);
    assert_eq!(back.palette, vec![1, 2, 3, 4, 5, 6]);
    assert_eq!(back.mip_count, 2);
    assert_eq!(back.width, 16);
    assert_eq!(back.height, 8);
}

#[test]
fn texture_header_unknown_format_code_is_rejected() {
    let mut b = Vec::new();
    push_u32(&mut b, 2);
    push_u32(&mut b, 0x99); // not a format code
    push_u32(&mut b, 0);
    push_u32(&mut b, 1);
    push_u32(&mut b, 8);
    push_u32(&mut b, 8);
    assert_eq!(GCNTextureHeader::decode(&b, 0).unwrap_err(), PackError::Format);
}

fn streamed_texture_64(mips: u32) -> GCNTextureHeader {
    GCNTextureHeader {
        version: 0x8002,
        format: GCTFormat::Cmpr,
        palette_size: 0,
        palette: Vec::new(),
        mip_count: mips,
        width: 64,
        height: 64,
    }
}

#[test]
fn convert_streamed_reorders_mips_smallest_first() {
    let h = streamed_texture_64(3);
    // Forward blob: mip 0 (2048 bytes of 0xAA), mip 1 (512 of 0xBB),
    // mip 2 (128 of 0xCC).
    let mut data = vec![0xAAu8; 2048];
    data.extend(vec![0xBBu8; 512]);
    data.extend(vec![0xCCu8; 128]);
    let out = gcn_soup::gct::convert_streamed(&h, &data).unwrap();
    // Archived header: version forced to the streamed-origin marker.
    assert_eq!(&out[0..4], &2u32.to_be_bytes());
    assert_eq!(&out[4..8], &0x29u32.to_be_bytes());
    let mut p = 24; // header with empty palette
    let expect = [
        (16u32, 16u32, 128usize, 0xCCu8),
        (32, 32, 512, 0xBB),
        (64, 64, 2048, 0xAA),
    ];
    for (w, h_, size, fill) in expect {
        assert_eq!(&out[p..p + 4], &w.to_be_bytes());
        assert_eq!(&out[p + 4..p + 8], &h_.to_be_bytes());
        assert_eq!(&out[p + 8..p + 12], &(size as u32).to_be_bytes());
        p += 12;
        assert!(out[p..p + size].iter().all(|&x| x == fill));
        p += size;
    }
    assert_eq!(p, out.len());
}

#[test]
fn convert_streamed_payload_is_reversed_forward_ranges() {
    // The reverse-order writer must emit exactly the reverse of the ranges
    // a forward walk collects, even though it re-derives each mip's
    // dimensions from the base level.
    let h = streamed_texture_64(3);
    let data: Vec<u8> = (0..2688u32).map(|i| (i % 251) as u8).collect();
    let out = gcn_soup::gct::convert_streamed(&h, &data).unwrap();
    let mut ranges = Vec::new();
    let mut off = 0usize;
    for size in [2048usize, 512, 128] {
        ranges.push(off..off + size);
        off += size;
    }
    let mut p = 24;
    for r in ranges.iter().rev() {
        p += 12;
        assert_eq!(&out[p..p + r.len()], &data[r.clone()]);
        p += r.len();
    }
}

#[test]
fn convert_streamed_rejects_size_mismatch() {
    let h = streamed_texture_64(3);
    let data = vec![0u8; 2687]; // one byte short of the declared image size
    assert_eq!(gcn_soup::gct::convert_streamed(&h, &data).unwrap_err(), PackError::Format);
    let h0 = streamed_texture_64(0);
    assert_eq!(gcn_soup::gct::convert_streamed(&h0, &Vec::new()).unwrap_err(), PackError::Format);
}

#[test]
fn format_family_names() {
    assert_eq!(GCTFormat::Rgba8.family_name(), "Rgba8");
    assert_eq!(GCTFormat::Cmpr.family_name(), "Cmpr");
    assert_eq!(GCTFormat::Cmpr_MM.family_name(), "Cmpr");
    assert_eq!(GCTFormat::Ci8.family_name(), "Ci8");
    assert_eq!(GCTFormat::Ci8_MM.family_name(), "Ci8");
    assert_eq!(GCTFormat::I8.family_name(), "I8");
}

/// Builds the object-index (`"ggs\0"`) bytes of a one-mesh header.
fn ggs_bytes(vertex_type: u8, mesh_extra: impl Fn(&mut Vec<u8>)) -> Vec<u8> {
    let mut b = Vec::new();
    b.extend_from_slice(b"ggs\0");
    push_u32(&mut b, 7); // version
    push_u32(&mut b, 0); // bones
    push_u32(&mut b, 0); // mesh names
    b.push(1); // lods
    b.push(0); // skin animates
    b.push(0); // has weight
    b.push(0); // unused
    push_u32(&mut b, 0x3F800000); // auto lod value bit pattern
    push_u32(&mut b, 1); // meshes
    push_u32(&mut b, 5); // surface index
    b.push(vertex_type);
    b.push(1); // vertex attr: direct
    b.push(0); // vertex data: u8
    b.push(0); // xyz frac bits
    mesh_extra(&mut b);
    b
}

fn mesh_tail(b: &mut Vec<u8>, vertex_count: u16, counts: &[(u16, u8)], uv_count: u16, fcs: u32) {
    b.push(0); // uv attr
    b.push(0); // uv data: u8
    b.push(0); // tex frac bits
    push_u16(b, vertex_count);
    b.push(3); // byte stride
    for &(count, stride) in counts {
        push_u16(b, count);
        b.push(stride);
    }
    push_u16(b, uv_count);
    b.push(0); // uv stride
    push_u32(b, fcs);
}

#[test]
fn gcg_decode_gates_fields_on_vertex_type_bits() {
    // Bit 0 set, bit 3 clear: neither normals nor colors.
    let plain = ggs_bytes(0x81, |b| mesh_tail(b, 2, &[], 0, 4));
    let (h, used) = GCGHeader::decode(&plain, 0).unwrap();
    assert_eq!(used, plain.len());
    let m = &h.lods[0].meshes[0];
    assert!(m.normal_attr_type.is_none() && m.color_attr_type.is_none());
    assert_eq!(m.vertex_count, 2);

    // Bit 0 clear: vertex colors.
    let with_colors = ggs_bytes(0x80, |b| {
        b.push(1); // color attr
        b.push(5); // color data: u32
        mesh_tail(b, 2, &[(6, 4)], 0, 4);
    });
    let (h, _) = GCGHeader::decode(&with_colors, 0).unwrap();
    let m = &h.lods[0].meshes[0];
    assert_eq!(m.color_attr_type, Some(GXAttrType::GX_DIRECT));
    assert_eq!(m.color_data_type, Some(GXCompType::GX_U32));
    assert_eq!(m.color_count, 6);
    assert!(m.normal_attr_type.is_none());

    // Bits 0 and 3 set: normals.
    let with_normals = ggs_bytes(0x89, |b| {
        b.push(1); // normal attr
        b.push(3); // normal data: s16
        mesh_tail(b, 2, &[(4, 6)], 0, 4);
    });
    let (h, _) = GCGHeader::decode(&with_normals, 0).unwrap();
    let m = &h.lods[0].meshes[0];
    assert_eq!(m.normal_attr_type, Some(GXAttrType::GX_DIRECT));
    assert_eq!(m.normal_data_type, Some(GXCompType::GX_S16));
    assert_eq!(m.normal_count, 4);
    assert!(m.color_attr_type.is_none());
}

#[test]
fn gcg_rejects_bad_magic() {
    let mut b = ggs_bytes(0x81, |bb| mesh_tail(bb, 2, &[], 0, 4));
    b[0] = b'x';
    assert_eq!(GCGHeader::decode(&b, 0).unwrap_err(), PackError::Format);
}

/// One mesh, no bones or names: the archived bytes expected for a given
/// mesh layout and blob.
fn expected_gcg(mesh_body: &[u8], blob: &Vec<u8>, vbs: usize, fcs: usize) -> Vec<u8> {
    let mut e = Vec::new();
    e.extend_from_slice(b"gcg\0");
    push_u32(&mut e, 7);
    push_u32(&mut e, 0);
    push_u32(&mut e, 0);
    e.push(1);
    e.push(0);
    e.push(0);
    e.push(0);
    push_u32(&mut e, 0x3F800000);
    push_u32(&mut e, 1);
    e.extend_from_slice(mesh_body);
    e.extend_from_slice(&blob[0..vbs]);
    let aligned = (vbs + 31) / 32 * 32;
    e.extend_from_slice(&blob[aligned..aligned + fcs]);
    e
}

fn run_round_trip(vertex_type: u8, extra: impl Fn(&mut Vec<u8>), vbs: usize) {
    let ggs = ggs_bytes(vertex_type, &extra);
    let (h, _) = GCGHeader::decode(&ggs, 0).unwrap();
    let aligned = (vbs + 31) / 32 * 32;
    let blob: Vec<u8> = (0..(aligned + 4) as u32).map(|i| i as u8).collect();
    let out = h
        .encode_archive(&GCGHeaderArgs { streaming_data: blob.clone() })
        .unwrap();
    // The mesh body inside the archive differs from the object-index form
    // only in the vertex_type byte, which drops the streamed-origin bit.
    let mut mesh_body = ggs[28..].to_vec();
    mesh_body[4] = vertex_type - 0x80;
    assert_eq!(out, expected_gcg(&mesh_body, &blob, vbs, 4));
}

#[test]
fn gcg_round_trip_plain() {
    // Bit 0 set, bits 1 and 3 clear: positions only, u8 components.
    run_round_trip(0x81, |b| mesh_tail(b, 2, &[], 0, 4), 6);
}

#[test]
fn gcg_round_trip_colors() {
    // Bit 0 clear: a vertex-color block of four bytes per color.
    run_round_trip(
        0x80,
        |b| {
            b.push(1);
            b.push(5);
            mesh_tail(b, 2, &[(6, 4)], 0, 4);
        },
        2 * 3 + 4 * 6,
    );
}

#[test]
fn gcg_round_trip_normals() {
    // Bits 0 and 3 set: a normal block of three s16 components per normal.
    run_round_trip(
        0x89,
        |b| {
            b.push(1);
            b.push(3);
            mesh_tail(b, 2, &[(4, 6)], 0, 4);
        },
        2 * 3 + 4 * 6,
    );
}

#[test]
fn gcg_round_trip_uv_sized() {
    // Bits 0 and 1 set: UV data occupies space in the vertex block.
    run_round_trip(0x83, |b| mesh_tail(b, 2, &[], 5, 4), 2 * 3 + 5 * 2);
}

#[test]
fn gcg_archive_rejects_blob_overrun() {
    let ggs = ggs_bytes(0x81, |b| mesh_tail(b, 2, &[], 0, 4));
    let (h, _) = GCGHeader::decode(&ggs, 0).unwrap();
    // vertex block 6 bytes, aligned to 32, face chunk 4: needs 36 bytes.
    let blob = vec![0u8; 35];
    assert_eq!(
        h.encode_archive(&GCGHeaderArgs { streaming_data: blob }).unwrap_err(),
        PackError::Format
    );
}

#[test]
fn gcg_weights_round_trip() {
    let mut b = Vec::new();
    b.extend_from_slice(b"ggs\0");
    push_u32(&mut b, 7);
    push_u32(&mut b, 1); // one bone
    b.extend_from_slice(&[0u8; 224]);
    push_u32(&mut b, 1); // one mesh name
    b.extend_from_slice(&[b'n'; 64]);
    b.push(0); // no lods
    b.push(1);
    b.push(1); // has weights
    b.push(0);
    push_u16(&mut b, 2);
    push_u16(&mut b, 9);
    push_u32(&mut b, 0x3F000000);
    push_u16(&mut b, 10);
    push_u32(&mut b, 0x3E000000);
    let (h, used) = GCGHeader::decode(&b, 0).unwrap();
    assert_eq!(used, b.len());
    assert_eq!(h.bones.len(), 1);
    assert_eq!(h.mesh_names.len(), 1);
    let ws = h.weights.as_ref().unwrap();
    assert_eq!(ws.len(), 2);
    assert_eq!(ws[0].bone_id, 9);
    assert_eq!(ws[0].weight_bits, 0x3F000000);
    assert_eq!(ws[1].bone_id, 10);
}

#[test]
fn utils_rounding() {
    assert_eq!(gcn_soup::utils::round_up(0, 32), 0);
    assert_eq!(gcn_soup::utils::round_up(1, 32), 32);
    assert_eq!(gcn_soup::utils::round_up(32, 32), 32);
    assert_eq!(gcn_soup::utils::round_up(33, 32), 64);
    assert_eq!(gcn_soup::utils::div_round_up(13, 8), 2);
    assert_eq!(gcn_soup::utils::div_round_up(16, 8), 2);
}
