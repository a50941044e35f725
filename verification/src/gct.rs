//! Console texture codec: header parsing, mip-size arithmetic, and the
//! streamed-to-archive mip reordering.

use vstd::prelude::*;

use crate::bytes::{
    be32, push_slice, push_u32_be, read_slice, read_u32_be, u32_be_bytes,
};
use crate::utils::spec_div_round_up;
use crate::PackError;

verus! {

/// Pixel formats of the console texture container.
#[allow(non_camel_case_types)]
#[derive(Clone, Copy, Debug, PartialEq, Eq, Structural)]
pub enum GCTFormat {
    Rgba8,
    Cmpr,
    Cmpr_MM,
    Ci8,
    Ci8_MM,
    I8,
}

/// On-disk code of each pixel format.
pub open spec fn spec_format_code(f: GCTFormat) -> u32 {
    match f {
        GCTFormat::Rgba8 => 0x0F,
        GCTFormat::Cmpr => 0x29,
        GCTFormat::Cmpr_MM => 0x2A,
        GCTFormat::Ci8 => 0x3A,
        GCTFormat::Ci8_MM => 0x3B,
        GCTFormat::I8 => 0x3C,
    }
}

/// The pixel format a code stands for, if any.
pub open spec fn spec_format_of_code(code: int) -> Option<GCTFormat> {
    if code == 0x0F {
        Some(GCTFormat::Rgba8)
    } else if code == 0x29 {
        Some(GCTFormat::Cmpr)
    } else if code == 0x2A {
        Some(GCTFormat::Cmpr_MM)
    } else if code == 0x3A {
        Some(GCTFormat::Ci8)
    } else if code == 0x3B {
        Some(GCTFormat::Ci8_MM)
    } else if code == 0x3C {
        Some(GCTFormat::I8)
    } else {
        None
    }
}

/// Width in pixels of one block of the format.
pub open spec fn spec_block_width(f: GCTFormat) -> int {
    match f {
        GCTFormat::Rgba8 => 4,
        GCTFormat::Cmpr => 8,
        GCTFormat::Cmpr_MM => 8,
        GCTFormat::Ci8 => 8,
        GCTFormat::Ci8_MM => 8,
        GCTFormat::I8 => 8,
    }
}

/// Height in pixels of one block of the format.
pub open spec fn spec_block_height(f: GCTFormat) -> int {
    match f {
        GCTFormat::Rgba8 => 4,
        GCTFormat::Cmpr => 8,
        GCTFormat::Cmpr_MM => 8,
        GCTFormat::Ci8 => 4,
        GCTFormat::Ci8_MM => 4,
        GCTFormat::I8 => 4,
    }
}

/// Bits each pixel occupies in the format.
pub open spec fn spec_bits_per_pixel(f: GCTFormat) -> int {
    match f {
        GCTFormat::Rgba8 => 32,
        GCTFormat::Cmpr => 4,
        GCTFormat::Cmpr_MM => 4,
        GCTFormat::Ci8 => 8,
        GCTFormat::Ci8_MM => 8,
        GCTFormat::I8 => 8,
    }
}

/// Bytes one whole block occupies.
pub open spec fn spec_block_bytes(f: GCTFormat) -> int {
    spec_block_width(f) * spec_block_height(f) * spec_bits_per_pixel(f) / 8
}

/// Byte size of one mip level: whole blocks horizontally times whole blocks
/// vertically times bytes per block.
pub open spec fn spec_mip_size(f: GCTFormat, w: int, h: int) -> int {
    spec_div_round_up(w, spec_block_width(f)) * spec_div_round_up(h, spec_block_height(f))
        * spec_block_bytes(f)
}

/// Dimension of mip level `i`: the base dimension halved `i` times, never
/// dropping below one pixel.
pub open spec fn spec_lvl_dim(d: int, i: nat) -> int
    decreases i,
{
    if i == 0 {
        if d < 1 {
            1
        } else {
            d
        }
    } else {
        let p = spec_lvl_dim(d, (i - 1) as nat);
        if p / 2 < 1 {
            1
        } else {
            p / 2
        }
    }
}

/// Byte size of mip level `i` of a `w` by `h` texture.
pub open spec fn spec_mip_size_at(f: GCTFormat, w: int, h: int, i: nat) -> int {
    spec_mip_size(f, spec_lvl_dim(w, i), spec_lvl_dim(h, i))
}

/// Total bytes of mip levels `from` (inclusive) up to `to` (exclusive).
pub open spec fn spec_size_sum(f: GCTFormat, w: int, h: int, from: nat, to: nat) -> int
    decreases to - from,
{
    if from >= to {
        0
    } else {
        spec_mip_size_at(f, w, h, from) + spec_size_sum(f, w, h, (from + 1) as nat, to)
    }
}

/// Total image size: mip level 0 plus every further level below `mips`.
pub open spec fn spec_image_size(f: GCTFormat, w: int, h: int, mips: nat) -> int {
    spec_mip_size_at(f, w, h, 0) + spec_size_sum(f, w, h, 1, mips)
}

pub proof fn lemma_lvl_dim_bounds(d: int, i: nat)
    ensures
        1 <= spec_lvl_dim(d, i),
        spec_lvl_dim(d, i) <= if d < 1 { 1int } else { d },
    decreases i,
{
    if i > 0 {
        lemma_lvl_dim_bounds(d, (i - 1) as nat);
    }
}

pub proof fn lemma_mip_size_bounds(f: GCTFormat, w: int, h: int)
    requires
        1 <= w <= 0xFFFF_FFFF,
        1 <= h <= 0xFFFF_FFFF,
    ensures
        spec_block_bytes(f) <= spec_mip_size(f, w, h) <= 0x4_0000_0000_0000_0000,
{
    let bw = spec_block_width(f);
    let bh = spec_block_height(f);
    let bb = spec_block_bytes(f);
    let qw = spec_div_round_up(w, bw);
    let qh = spec_div_round_up(h, bh);
    assert(1 <= qw <= 0x4000_0000 && 1 <= qh <= 0x4000_0000) by (nonlinear_arith)
        requires
            1 <= w <= 0xFFFF_FFFF,
            1 <= h <= 0xFFFF_FFFF,
            (bw == 4 || bw == 8),
            (bh == 4 || bh == 8),
            qw == (w + bw - 1) / bw,
            qh == (h + bh - 1) / bh,
    ;
    assert(bb <= qw * qh * bb <= 0x4000_0000 * 0x4000_0000 * 64) by (nonlinear_arith)
        requires
            1 <= qw <= 0x4000_0000,
            1 <= qh <= 0x4000_0000,
            32 <= bb <= 64,
    ;
    assert(spec_mip_size(f, w, h) == qw * qh * bb);
}

pub proof fn lemma_mip_size_at_bounds(f: GCTFormat, w: int, h: int, i: nat)
    requires
        0 <= w <= 0xFFFF_FFFF,
        0 <= h <= 0xFFFF_FFFF,
    ensures
        spec_block_bytes(f) <= spec_mip_size_at(f, w, h, i) <= 0x4_0000_0000_0000_0000,
{
    lemma_lvl_dim_bounds(w, i);
    lemma_lvl_dim_bounds(h, i);
    lemma_mip_size_bounds(f, spec_lvl_dim(w, i), spec_lvl_dim(h, i));
}

/// Sums over adjacent level ranges concatenate.
pub proof fn lemma_size_sum_split(f: GCTFormat, w: int, h: int, a: nat, b: nat, c: nat)
    requires
        a <= b <= c,
    ensures
        spec_size_sum(f, w, h, a, c) == spec_size_sum(f, w, h, a, b) + spec_size_sum(f, w, h, b, c),
    decreases b - a,
{
    if a < b {
        lemma_size_sum_split(f, w, h, (a + 1) as nat, b, c);
    }
}

pub proof fn lemma_size_sum_bounds(f: GCTFormat, w: int, h: int, from: nat, to: nat)
    requires
        0 <= w <= 0xFFFF_FFFF,
        0 <= h <= 0xFFFF_FFFF,
    ensures
        0 <= spec_size_sum(f, w, h, from, to),
        spec_size_sum(f, w, h, from, to) <= (if from <= to { (to - from) as int } else { 0 })
            * 0x4_0000_0000_0000_0000,
    decreases to - from,
{
    if from < to {
        lemma_mip_size_at_bounds(f, w, h, from);
        lemma_size_sum_bounds(f, w, h, (from + 1) as nat, to);
        assert((to - from - 1) * 0x4_0000_0000_0000_0000 + 0x4_0000_0000_0000_0000 == (to - from)
            * 0x4_0000_0000_0000_0000) by (nonlinear_arith);
    }
}

/// Number of halvings (counting the base level) until both dimensions have
/// reached one pixel.
pub open spec fn spec_mip_chain_len(w: int, h: int) -> nat
    decreases (if w < 1 { 1int } else { w }) + (if h < 1 { 1int } else { h }),
{
    if w <= 1 && h <= 1 {
        1
    } else {
        let w2 = if w / 2 < 1 { 1int } else { w / 2 };
        let h2 = if h / 2 < 1 { 1int } else { h / 2 };
        1 + spec_mip_chain_len(w2, h2)
    }
}

/// The image size written as the recursion "take the current level's size,
/// halve both dimensions, repeat until both are one pixel".
pub open spec fn spec_halving_sum(f: GCTFormat, w: int, h: int) -> int
    decreases (if w < 1 { 1int } else { w }) + (if h < 1 { 1int } else { h }),
{
    if w <= 1 && h <= 1 {
        spec_mip_size(f, if w < 1 { 1int } else { w }, if h < 1 { 1int } else { h })
    } else {
        let w2 = if w / 2 < 1 { 1int } else { w / 2 };
        let h2 = if h / 2 < 1 { 1int } else { h / 2 };
        spec_mip_size(f, if w < 1 { 1int } else { w }, if h < 1 { 1int } else { h })
            + spec_halving_sum(f, w2, h2)
    }
}

proof fn lemma_lvl_dim_shift(d: int, i: nat)
    requires
        d >= 1,
    ensures
        spec_lvl_dim(d, (i + 1) as nat) == spec_lvl_dim(
            if d / 2 < 1 { 1int } else { d / 2 },
            i,
        ),
    decreases i,
{
    let d2 = if d / 2 < 1 { 1int } else { d / 2 };
    if i == 0 {
        assert(spec_lvl_dim(d, 0) == d);
        assert(spec_lvl_dim(d2, 0) == d2);
        assert(spec_lvl_dim(d, 1) == (if spec_lvl_dim(d, 0) / 2 < 1 { 1int } else {
            spec_lvl_dim(d, 0) / 2
        }));
    } else {
        lemma_lvl_dim_shift(d, (i - 1) as nat);
        assert(spec_lvl_dim(d, (i + 1) as nat) == (if spec_lvl_dim(d, i) / 2 < 1 { 1int } else {
            spec_lvl_dim(d, i) / 2
        }));
        assert(spec_lvl_dim(d2, i) == (if spec_lvl_dim(d2, (i - 1) as nat) / 2 < 1 { 1int } else {
            spec_lvl_dim(d2, (i - 1) as nat) / 2
        }));
    }
}

proof fn lemma_size_sum_shift(f: GCTFormat, w: int, h: int, from: nat, to: nat)
    requires
        w >= 1,
        h >= 1,
        from >= 1,
    ensures
        spec_size_sum(f, w, h, from, to) == spec_size_sum(
            f,
            if w / 2 < 1 { 1int } else { w / 2 },
            if h / 2 < 1 { 1int } else { h / 2 },
            (from - 1) as nat,
            if to >= 1 { (to - 1) as nat } else { 0 },
        ),
    decreases to - from,
{
    let w2 = if w / 2 < 1 { 1int } else { w / 2 };
    let h2 = if h / 2 < 1 { 1int } else { h / 2 };
    if from < to {
        lemma_lvl_dim_shift(w, (from - 1) as nat);
        lemma_lvl_dim_shift(h, (from - 1) as nat);
        assert(spec_mip_size_at(f, w, h, from) == spec_mip_size_at(f, w2, h2, (from - 1) as nat));
        lemma_size_sum_shift(f, w, h, (from + 1) as nat, to);
    }
}

/// Halving the dimensions until both reach one pixel and summing each level's
/// size along the way gives exactly the image size computed for a mip count
/// that matches the length of that halving chain.
pub proof fn lemma_image_size_matches_halving_sum(f: GCTFormat, w: int, h: int)
    requires
        w >= 1,
        h >= 1,
    ensures
        spec_image_size(f, w, h, spec_mip_chain_len(w, h)) == spec_halving_sum(f, w, h),
    decreases w + h,
{
    let n = spec_mip_chain_len(w, h);
    if w <= 1 && h <= 1 {
        assert(spec_size_sum(f, w, h, 1, 1) == 0);
    } else {
        let w2 = if w / 2 < 1 { 1int } else { w / 2 };
        let h2 = if h / 2 < 1 { 1int } else { h / 2 };
        lemma_image_size_matches_halving_sum(f, w2, h2);
        let m = spec_mip_chain_len(w2, h2);
        assert(n == m + 1);
        lemma_size_sum_shift(f, w, h, 1, n);
        assert(spec_size_sum(f, w, h, 1, n) == spec_size_sum(f, w2, h2, 0, m));
        assert(spec_size_sum(f, w2, h2, 0, m) == spec_mip_size_at(f, w2, h2, 0)
            + spec_size_sum(f, w2, h2, 1, m));
    }
}

impl GCTFormat {
    /// Block footprint of the format as (width, height) in pixels.
    pub fn get_block_dim(&self) -> (r: (usize, usize))
        ensures
            r.0 == spec_block_width(*self),
            r.1 == spec_block_height(*self),
    {
        match self {
            GCTFormat::Rgba8 => (4, 4),
            GCTFormat::Cmpr => (8, 8),
            GCTFormat::Cmpr_MM => (8, 8),
            GCTFormat::Ci8 => (8, 4),
            GCTFormat::Ci8_MM => (8, 4),
            GCTFormat::I8 => (8, 4),
        }
    }

    /// Bits each pixel occupies.
    pub fn get_bits_per_pixel(&self) -> (r: usize)
        ensures
            r == spec_bits_per_pixel(*self),
    {
        match self {
            GCTFormat::Rgba8 => 32,
            GCTFormat::Cmpr => 4,
            GCTFormat::Cmpr_MM => 4,
            GCTFormat::Ci8 => 8,
            GCTFormat::Ci8_MM => 8,
            GCTFormat::I8 => 8,
        }
    }

    /// Short human-readable name of the format family.
    pub fn family_name(&self) -> (r: &'static str)
        ensures
            (*self == GCTFormat::Rgba8 ==> r@ == "Rgba8"@),
            (*self == GCTFormat::Cmpr || *self == GCTFormat::Cmpr_MM ==> r@ == "Cmpr"@),
            (*self == GCTFormat::Ci8 || *self == GCTFormat::Ci8_MM ==> r@ == "Ci8"@),
            (*self == GCTFormat::I8 ==> r@ == "I8"@),
    {
        match self {
            GCTFormat::Rgba8 => "Rgba8",
            GCTFormat::Cmpr | GCTFormat::Cmpr_MM => "Cmpr",
            GCTFormat::Ci8 | GCTFormat::Ci8_MM => "Ci8",
            GCTFormat::I8 => "I8",
        }
    }

    /// On-disk format code.
    pub fn code(&self) -> (r: u32)
        ensures
            r == spec_format_code(*self),
    {
        match self {
            GCTFormat::Rgba8 => 0x0F,
            GCTFormat::Cmpr => 0x29,
            GCTFormat::Cmpr_MM => 0x2A,
            GCTFormat::Ci8 => 0x3A,
            GCTFormat::Ci8_MM => 0x3B,
            GCTFormat::I8 => 0x3C,
        }
    }

    /// Looks a format up by its on-disk code.
    pub fn from_code(code: u32) -> (r: Option<GCTFormat>)
        ensures
            r == spec_format_of_code(code as int),
    {
        if code == 0x0F {
            Some(GCTFormat::Rgba8)
        } else if code == 0x29 {
            Some(GCTFormat::Cmpr)
        } else if code == 0x2A {
            Some(GCTFormat::Cmpr_MM)
        } else if code == 0x3A {
            Some(GCTFormat::Ci8)
        } else if code == 0x3B {
            Some(GCTFormat::Ci8_MM)
        } else if code == 0x3C {
            Some(GCTFormat::I8)
        } else {
            None
        }
    }

    /// Byte size of a single mip level of the given dimensions, counted in
    /// whole blocks.
    pub fn calculate_mip_size(&self, width: usize, height: usize) -> (r: usize)
        requires
            width <= 0xFFFF_FFFF,
            height <= 0xFFFF_FFFF,
            spec_mip_size(*self, width as int, height as int) <= usize::MAX,
        ensures
            r == spec_mip_size(*self, width as int, height as int),
    {
        let wide = mip_size_wide(*self, width as u64, height as u64);
        wide as usize
    }
}

/// Mip size computed in a width that cannot overflow for any on-disk
/// dimensions.
pub fn mip_size_wide(f: GCTFormat, width: u64, height: u64) -> (r: u128)
    requires
        width <= 0xFFFF_FFFF,
        height <= 0xFFFF_FFFF,
    ensures
        r == spec_mip_size(f, width as int, height as int),
{
    let (bw, bh) = f.get_block_dim();
    let bpp = f.get_bits_per_pixel();
    let block_bytes: u64 = ((bw * bh * bpp) / 8) as u64;
    assert(block_bytes == spec_block_bytes(f));
    let qw: u64 = (width + bw as u64 - 1) / (bw as u64);
    let qh: u64 = (height + bh as u64 - 1) / (bh as u64);
    assert(qw == spec_div_round_up(width as int, spec_block_width(f)));
    assert(qh == spec_div_round_up(height as int, spec_block_height(f)));
    proof {
        assert(0 <= qw <= 0x1_0000_0000 && 0 <= qh <= 0x1_0000_0000) by (nonlinear_arith)
            requires
                width <= 0xFFFF_FFFF,
                height <= 0xFFFF_FFFF,
                (bw == 4 || bw == 8),
                (bh == 4 || bh == 8),
                qw == (width + bw - 1) / (bw as int),
                qh == (height + bh - 1) / (bh as int),
        ;
        assert((qw as int) * (qh as int) <= 0x1_0000_0000_0000_0000) by (nonlinear_arith)
            requires
                0 <= qw <= 0x1_0000_0000,
                0 <= qh <= 0x1_0000_0000,
        ;
        assert((qw as int) * (qh as int) * (block_bytes as int) <= 0x1_0000_0000_0000_0000 * 2048)
            by (nonlinear_arith)
            requires
                0 <= (qw as int) * (qh as int) <= 0x1_0000_0000_0000_0000,
                0 <= block_bytes <= 2048,
        ;
    }
    let r = (qw as u128) * (qh as u128) * (block_bytes as u128);
    assert(r == spec_mip_size(f, width as int, height as int)) by (nonlinear_arith)
        requires
            r == (qw as int) * (qh as int) * (block_bytes as int),
            qw == spec_div_round_up(width as int, spec_block_width(f)),
            qh == spec_div_round_up(height as int, spec_block_height(f)),
            block_bytes == spec_block_bytes(f),
            spec_mip_size(f, width as int, height as int) == spec_div_round_up(
                width as int,
                spec_block_width(f),
            ) * spec_div_round_up(height as int, spec_block_height(f)) * spec_block_bytes(f),
    ;
    r
}

/// Mathematical image of a texture header.
pub ghost struct GctHeaderView {
    pub version: u32,
    pub format: GCTFormat,
    pub palette_size: u32,
    pub palette: Seq<u8>,
    pub mip_count: u32,
    pub width: u32,
    pub height: u32,
}

impl GctHeaderView {
    /// The palette holds two bytes per palette entry.
    pub open spec fn wf(self) -> bool {
        self.palette.len() == 2 * self.palette_size
    }
}

/// Header of the console texture container, as stored on disk in big-endian
/// order: version, format code, palette size, palette bytes (two per entry),
/// mip count, width, height.
#[derive(Clone, Debug)]
pub struct GCNTextureHeader {
    pub version: u32,
    pub format: GCTFormat,
    pub palette_size: u32,
    pub palette: Vec<u8>,
    pub mip_count: u32,
    pub width: u32,
    pub height: u32,
}

impl View for GCNTextureHeader {
    type V = GctHeaderView;

    open spec fn view(&self) -> GctHeaderView {
        GctHeaderView {
            version: self.version,
            format: self.format,
            palette_size: self.palette_size,
            palette: self.palette@,
            mip_count: self.mip_count,
            width: self.width,
            height: self.height,
        }
    }
}

/// The on-disk bytes of a texture header.
pub open spec fn spec_encode_gct_header(h: GctHeaderView) -> Seq<u8> {
    u32_be_bytes(h.version) + u32_be_bytes(spec_format_code(h.format)) + u32_be_bytes(
        h.palette_size,
    ) + h.palette + u32_be_bytes(h.mip_count) + u32_be_bytes(h.width) + u32_be_bytes(h.height)
}

/// The header a byte string holds at `pos`, with the count of bytes it
/// occupies, or `None` where the bytes are truncated or the format code is
/// unknown.
pub open spec fn spec_parse_gct_header(b: Seq<u8>, pos: int) -> Option<(GctHeaderView, int)> {
    if pos < 0 || pos + 12 > b.len() {
        None
    } else {
        match spec_format_of_code(be32(b, pos + 4)) {
            None => None,
            Some(format) => {
                let ps = be32(b, pos + 8);
                if pos + 24 + 2 * ps > b.len() {
                    None
                } else {
                    Some(
                        (
                            GctHeaderView {
                                version: be32(b, pos) as u32,
                                format,
                                palette_size: ps as u32,
                                palette: b.subrange(pos + 12, pos + 12 + 2 * ps),
                                mip_count: be32(b, pos + 12 + 2 * ps) as u32,
                                width: be32(b, pos + 16 + 2 * ps) as u32,
                                height: be32(b, pos + 20 + 2 * ps) as u32,
                            },
                            24 + 2 * ps,
                        ),
                    )
                }
            },
        }
    }
}

/// A successfully parsed header is well formed and re-encodes to exactly the
/// bytes it was parsed from.
#[verifier::rlimit(100)]
#[verifier::spinoff_prover]
pub proof fn lemma_gct_header_parse_print(b: Seq<u8>, pos: int)
    requires
        spec_parse_gct_header(b, pos) is Some,
    ensures
        ({
            let (h, n) = spec_parse_gct_header(b, pos)->Some_0;
            h.wf() && spec_encode_gct_header(h) == b.subrange(pos, pos + n)
        }),
{
    let (h, n) = spec_parse_gct_header(b, pos)->Some_0;
    let ps = be32(b, pos + 8);
    crate::bytes::lemma_be32_bounds(b, pos);
    crate::bytes::lemma_be32_bounds(b, pos + 4);
    crate::bytes::lemma_be32_bounds(b, pos + 8);
    crate::bytes::lemma_be32_reencode(b, pos);
    crate::bytes::lemma_be32_reencode(b, pos + 8);
    crate::bytes::lemma_be32_reencode(b, pos + 12 + 2 * ps);
    crate::bytes::lemma_be32_reencode(b, pos + 16 + 2 * ps);
    crate::bytes::lemma_be32_reencode(b, pos + 20 + 2 * ps);
    assert(spec_format_code(h.format) == be32(b, pos + 4));
    crate::bytes::lemma_be32_reencode(b, pos + 4);
    let ps2 = pos + 12 + 2 * ps;
    crate::bytes::lemma_subrange_cat(
        b,
        pos,
        pos + 4,
        pos + 8,
        u32_be_bytes(h.version),
        u32_be_bytes(spec_format_code(h.format)),
    );
    let t2 = u32_be_bytes(h.version) + u32_be_bytes(spec_format_code(h.format));
    crate::bytes::lemma_subrange_cat(b, pos, pos + 8, pos + 12, t2, u32_be_bytes(h.palette_size));
    let t3 = t2 + u32_be_bytes(h.palette_size);
    crate::bytes::lemma_subrange_cat(b, pos, pos + 12, ps2, t3, h.palette);
    let t4 = t3 + h.palette;
    crate::bytes::lemma_subrange_cat(b, pos, ps2, ps2 + 4, t4, u32_be_bytes(h.mip_count));
    let t5 = t4 + u32_be_bytes(h.mip_count);
    crate::bytes::lemma_subrange_cat(b, pos, ps2 + 4, ps2 + 8, t5, u32_be_bytes(h.width));
    let t6 = t5 + u32_be_bytes(h.width);
    crate::bytes::lemma_subrange_cat(b, pos, ps2 + 8, ps2 + 12, t6, u32_be_bytes(h.height));
    assert(spec_encode_gct_header(h) == t6 + u32_be_bytes(h.height));
}

impl GCNTextureHeader {
    /// Fields and palette length agree.
    pub open spec fn wf(&self) -> bool {
        self@.wf()
    }

    /// Reads a texture header from `b` at `pos`.  Returns the header and the
    /// count of bytes it occupied; `Format` exactly where the bytes are
    /// truncated or the format code is unknown.
    pub fn decode(b: &Vec<u8>, pos: usize) -> (r: Result<(GCNTextureHeader, usize), PackError>)
        ensures
            match r {
                Ok((h, n)) => spec_parse_gct_header(b@, pos as int) == Some((h@, n as int))
                    && h.wf(),
                Err(e) => spec_parse_gct_header(b@, pos as int) is None && e == PackError::Format,
            },
    {
        let l = b.len();
        if l < 12 || pos > l - 12 {
            return Err(PackError::Format);
        }
        let version = read_u32_be(b, pos);
        let code = read_u32_be(b, pos + 4);
        let format = match GCTFormat::from_code(code) {
            Some(f) => f,
            None => {
                return Err(PackError::Format);
            },
        };
        let ps = read_u32_be(b, pos + 8);
        let need: u64 = 24 + 2 * (ps as u64);
        if ((l - pos) as u64) < need {
            return Err(PackError::Format);
        }
        let pal_len: usize = (2 * (ps as u64)) as usize;
        let palette = read_slice(b, pos + 12, pal_len);
        let mip_count = read_u32_be(b, pos + 12 + pal_len);
        let width = read_u32_be(b, pos + 16 + pal_len);
        let height = read_u32_be(b, pos + 20 + pal_len);
        let h = GCNTextureHeader { version, format, palette_size: ps, palette, mip_count, width, height };
        assert(h@.palette =~= b@.subrange(pos + 12, pos + 12 + 2 * (ps as int)));
        Ok((h, 24 + pal_len))
    }

    /// Writes the header in its on-disk byte layout.
    pub fn encode(&self) -> (out: Vec<u8>)
        ensures
            out@ == spec_encode_gct_header(self@),
    {
        let mut out: Vec<u8> = Vec::new();
        push_u32_be(&mut out, self.version);
        push_u32_be(&mut out, self.format.code());
        push_u32_be(&mut out, self.palette_size);
        push_slice(&mut out, &self.palette, 0, self.palette.len());
        push_u32_be(&mut out, self.mip_count);
        push_u32_be(&mut out, self.width);
        push_u32_be(&mut out, self.height);
        assert(self.palette@.subrange(0, self.palette@.len() as int) =~= self.palette@);
        assert(out@ =~= spec_encode_gct_header(self@));
        out
    }

    /// Total byte size of the image data the header describes: the base mip
    /// level plus every further level below `mip_count`, each with both
    /// dimensions halved per level and floored at one pixel.
    pub fn calculate_image_size(&self) -> (r: usize)
        requires
            spec_image_size(
                self.format,
                self.width as int,
                self.height as int,
                self.mip_count as nat,
            ) <= usize::MAX,
        ensures
            r == spec_image_size(
                self.format,
                self.width as int,
                self.height as int,
                self.mip_count as nat,
            ),
    {
        let wide = image_size_wide(self.format, self.width, self.height, self.mip_count);
        wide as usize
    }
}

/// Image size computed in a width that cannot overflow for any on-disk
/// dimensions and mip count.
pub fn image_size_wide(f: GCTFormat, width: u32, height: u32, mip_count: u32) -> (r: u128)
    ensures
        r == spec_image_size(f, width as int, height as int, mip_count as nat),
{
    let ghost w = width as int;
    let ghost h = height as int;
    let mut cur_w: u64 = if width == 0 { 1 } else { width as u64 };
    let mut cur_h: u64 = if height == 0 { 1 } else { height as u64 };
    assert(cur_w == spec_lvl_dim(w, 0) && cur_h == spec_lvl_dim(h, 0));
    let mut acc: u128 = mip_size_wide(f, cur_w, cur_h);
    let mut i: u32 = 1;
    proof {
        assert(spec_size_sum(f, w, h, 1, 1) == 0);
    }
    while i < mip_count
        invariant
            1 <= i <= mip_count || (mip_count == 0 && i == 1),
            1 <= cur_w <= 0xFFFF_FFFF,
            1 <= cur_h <= 0xFFFF_FFFF,
            w == width as int,
            h == height as int,
            cur_w == spec_lvl_dim(w, (i - 1) as nat),
            cur_h == spec_lvl_dim(h, (i - 1) as nat),
            acc == spec_mip_size_at(f, w, h, 0) + spec_size_sum(f, w, h, 1, i as nat),
        decreases mip_count - i,
    {
        let next_w: u64 = if cur_w / 2 == 0 { 1 } else { cur_w / 2 };
        let next_h: u64 = if cur_h / 2 == 0 { 1 } else { cur_h / 2 };
        proof {
            assert(spec_lvl_dim(w, i as nat) == (if spec_lvl_dim(w, (i - 1) as nat) / 2 < 1 {
                1int
            } else {
                spec_lvl_dim(w, (i - 1) as nat) / 2
            }));
            assert(spec_lvl_dim(h, i as nat) == (if spec_lvl_dim(h, (i - 1) as nat) / 2 < 1 {
                1int
            } else {
                spec_lvl_dim(h, (i - 1) as nat) / 2
            }));
        }
        let term = mip_size_wide(f, next_w, next_h);
        proof {
            assert(term == spec_mip_size_at(f, w, h, i as nat));
            lemma_mip_size_at_bounds(f, w, h, 0);
            lemma_mip_size_at_bounds(f, w, h, i as nat);
            lemma_size_sum_bounds(f, w, h, 1, i as nat);
            lemma_size_sum_split(f, w, h, 1, i as nat, (i + 1) as nat);
            assert(spec_size_sum(f, w, h, i as nat, (i + 1) as nat) == spec_mip_size_at(
                f,
                w,
                h,
                i as nat,
            ) + spec_size_sum(f, w, h, (i + 1) as nat, (i + 1) as nat));
        }
        acc = acc + term;
        cur_w = next_w;
        cur_h = next_h;
        i = i + 1;
    }
    proof {
        if mip_count == 0 {
            assert(spec_size_sum(f, w, h, 1, 0) == 0);
        }
    }
    acc
}

/// Byte offset of mip level `i` inside the forward-ordered streamed blob.
pub open spec fn spec_mip_offset(f: GCTFormat, w: int, h: int, i: nat) -> int {
    spec_size_sum(f, w, h, 0, i)
}

/// One archived surface: its per-mip header (width, height, byte size) and
/// the level's bytes copied out of the forward-ordered blob.
pub open spec fn spec_surface_block(f: GCTFormat, w: int, h: int, d: Seq<u8>, i: nat) -> Seq<u8> {
    u32_be_bytes(spec_lvl_dim(w, i) as u32) + u32_be_bytes(spec_lvl_dim(h, i) as u32)
        + u32_be_bytes((spec_mip_size_at(f, w, h, i) as u128) as u32) + d.subrange(
        spec_mip_offset(f, w, h, i),
        spec_mip_offset(f, w, h, i) + spec_mip_size_at(f, w, h, i),
    )
}

/// The archived surfaces from emission position `j` on: level `n - 1 - j`
/// first, so smallest mip first.
pub open spec fn spec_surfaces_rev(
    f: GCTFormat,
    w: int,
    h: int,
    d: Seq<u8>,
    n: nat,
    j: nat,
) -> Seq<u8>
    decreases n - j,
{
    if j >= n {
        Seq::empty()
    } else {
        spec_surface_block(f, w, h, d, (n - 1 - j) as nat) + spec_surfaces_rev(
            f,
            w,
            h,
            d,
            n,
            (j + 1) as nat,
        )
    }
}

/// The archived form of a streamed texture: its header with the version
/// forced to the streamed-origin marker, then every mip smallest first.
pub open spec fn spec_convert(h: GctHeaderView, d: Seq<u8>) -> Seq<u8> {
    spec_encode_gct_header(
        GctHeaderView { version: STREAMED_GCT_VERSION, ..h },
    ) + spec_surfaces_rev(h.format, h.width as int, h.height as int, d, h.mip_count as nat, 0)
}

/// Version value stamped on archived headers whose pixel data came through
/// the streamed path, distinct from the ordinary static-file version.
pub const STREAMED_GCT_VERSION: u32 = 2;

/// The `(offset, size)` ranges collected while walking the streamed blob
/// forward, one per mip level, each range starting where the previous ended.
pub open spec fn spec_collect_ranges(f: GCTFormat, w: int, h: int, n: nat) -> Seq<(int, int)>
    decreases n,
{
    if n == 0 {
        Seq::empty()
    } else {
        let prev = spec_collect_ranges(f, w, h, (n - 1) as nat);
        let off = if n == 1 {
            0int
        } else {
            prev.last().0 + prev.last().1
        };
        prev.push((off, spec_mip_size_at(f, w, h, (n - 1) as nat)))
    }
}

/// Accumulating ranges forward lands each level exactly at its re-derived
/// offset and size.
pub proof fn lemma_collect_ranges_match(f: GCTFormat, w: int, h: int, n: nat, i: nat)
    requires
        i < n,
    ensures
        spec_collect_ranges(f, w, h, n).len() == n,
        spec_collect_ranges(f, w, h, n)[i as int] == (
            spec_mip_offset(f, w, h, i),
            spec_mip_size_at(f, w, h, i),
        ),
    decreases n,
{
    let cur = spec_collect_ranges(f, w, h, n);
    let prev = spec_collect_ranges(f, w, h, (n - 1) as nat);
    if n > 1 {
        lemma_collect_ranges_match(f, w, h, (n - 1) as nat, (n - 2) as nat);
    }
    if i < n - 1 {
        lemma_collect_ranges_match(f, w, h, (n - 1) as nat, i);
    } else {
        if n == 1 {
            assert(spec_mip_offset(f, w, h, 0) == 0);
        } else {
            assert(prev.last() == (
                spec_mip_offset(f, w, h, (n - 2) as nat),
                spec_mip_size_at(f, w, h, (n - 2) as nat),
            ));
            lemma_size_sum_split(f, w, h, 0, (n - 2) as nat, (n - 1) as nat);
            assert(spec_size_sum(f, w, h, (n - 2) as nat, (n - 1) as nat) == spec_mip_size_at(
                f,
                w,
                h,
                (n - 2) as nat,
            ) + spec_size_sum(f, w, h, (n - 1) as nat, (n - 1) as nat));
        }
    }
}

/// Writing the mips in reverse order while re-deriving each level's
/// dimensions and size from the base level copies exactly the byte range
/// that the forward walk collected for that level: reversing the forward
/// list's ranges and re-deriving them agree on the bytes emitted.
pub proof fn lemma_mip_reorder_involution(
    f: GCTFormat,
    w: int,
    h: int,
    d: Seq<u8>,
    n: nat,
    j: nat,
)
    requires
        j < n,
    ensures
        ({
            let i = (n - 1 - j) as nat;
            let r = spec_collect_ranges(f, w, h, n)[i as int];
            spec_surface_block(f, w, h, d, i) == u32_be_bytes(spec_lvl_dim(w, i) as u32)
                + u32_be_bytes(spec_lvl_dim(h, i) as u32) + u32_be_bytes(
                (spec_mip_size_at(f, w, h, i) as u128) as u32,
            ) + d.subrange(r.0, r.0 + r.1)
        }),
{
    let i = (n - 1 - j) as nat;
    lemma_collect_ranges_match(f, w, h, n, i);
}


proof fn lemma_range_in_bounds(f: GCTFormat, w: int, h: int, n: nat, idx: nat)
    requires
        idx < n,
        0 <= w <= 0xFFFF_FFFF,
        0 <= h <= 0xFFFF_FFFF,
    ensures
        0 <= spec_mip_offset(f, w, h, idx),
        0 <= spec_mip_size_at(f, w, h, idx),
        spec_mip_offset(f, w, h, idx) + spec_mip_size_at(f, w, h, idx) <= spec_size_sum(
            f,
            w,
            h,
            0,
            n,
        ),
{
    lemma_size_sum_bounds(f, w, h, 0, idx);
    lemma_mip_size_at_bounds(f, w, h, idx);
    lemma_size_sum_split(f, w, h, 0, idx, (idx + 1) as nat);
    assert(spec_size_sum(f, w, h, idx, (idx + 1) as nat) == spec_mip_size_at(f, w, h, idx)
        + spec_size_sum(f, w, h, (idx + 1) as nat, (idx + 1) as nat));
    lemma_size_sum_split(f, w, h, 0, (idx + 1) as nat, n);
    lemma_size_sum_bounds(f, w, h, (idx + 1) as nat, n);
}

proof fn lemma_emission_step(
    ob: Seq<u8>,
    a: Seq<u8>,
    b: Seq<u8>,
    c: Seq<u8>,
    dd: Seq<u8>,
    block: Seq<u8>,
    tail_j: Seq<u8>,
    tail_j1: Seq<u8>,
    target: Seq<u8>,
)
    requires
        block == a + b + c + dd,
        tail_j == block + tail_j1,
        ob + tail_j == target,
    ensures
        ((((ob + a) + b) + c) + dd) + tail_j1 == target,
{
    assert((((ob + a) + b) + c) + dd =~= ob + block);
    assert((ob + block) + tail_j1 =~= ob + (block + tail_j1));
}

/// Rebuilds a streamed texture as an archived texture file: the header with
/// its version forced to the streamed-origin marker, then every mip level
/// smallest first, each preceded by its own surface header.  The streamed
/// blob stores mips largest first; the whole blob must be consumed exactly,
/// so its length has to equal the image size the header declares, and at
/// least one mip level must be declared — anything else is a format error.
#[verifier::rlimit(100)]
pub fn convert_streamed(header: &GCNTextureHeader, data: &Vec<u8>) -> (r: Result<
    Vec<u8>,
    PackError,
>)
    ensures
        r is Ok <==> (header@.mip_count >= 1 && data@.len() == spec_image_size(
            header@.format,
            header@.width as int,
            header@.height as int,
            header@.mip_count as nat,
        )),
        r matches Ok(out) ==> out@ == spec_convert(header@, data@),
        r matches Err(e) ==> e == PackError::Format,
{
    let f = header.format;
    let n = header.mip_count;
    let ghost w = header.width as int;
    let ghost h = header.height as int;
    let total = image_size_wide(f, header.width, header.height, n);
    if n == 0 {
        return Err(PackError::Format);
    }
    let data_len = data.len();
    if total != data_len as u128 {
        return Err(PackError::Format);
    }
    proof {
        assert(spec_size_sum(f, w, h, 0, n as nat) == spec_mip_size_at(f, w, h, 0)
            + spec_size_sum(f, w, h, 1, n as nat));
        assert(total == spec_size_sum(f, w, h, 0, n as nat));
    }

    // The archived header: same fields, streamed-origin version marker.
    let mut out: Vec<u8> = Vec::new();
    push_u32_be(&mut out, STREAMED_GCT_VERSION);
    push_u32_be(&mut out, f.code());
    push_u32_be(&mut out, header.palette_size);
    push_slice(&mut out, &header.palette, 0, header.palette.len());
    push_u32_be(&mut out, header.mip_count);
    push_u32_be(&mut out, header.width);
    push_u32_be(&mut out, header.height);
    let ghost header_bytes = spec_encode_gct_header(
        GctHeaderView { version: STREAMED_GCT_VERSION, ..header@ },
    );
    assert(header.palette@.subrange(0, header.palette@.len() as int) =~= header.palette@);
    assert(out@ =~= header_bytes);

    // Forward walk: collect each mip level's dimensions, offset and size.
    let mut mips: Vec<(u64, u64, u128, u128)> = Vec::new();
    let mut off: u128 = 0;
    let mut cur_w: u64 = if header.width == 0 { 1 } else { header.width as u64 };
    let mut cur_h: u64 = if header.height == 0 { 1 } else { header.height as u64 };
    let mut i: u32 = 0;
    while i < n
        invariant
            i <= n,
            1 <= n,
            mips@.len() == i,
            1 <= cur_w <= 0xFFFF_FFFF,
            1 <= cur_h <= 0xFFFF_FFFF,
            cur_w == spec_lvl_dim(w, i as nat),
            cur_h == spec_lvl_dim(h, i as nat),
            0 <= w <= 0xFFFF_FFFF,
            0 <= h <= 0xFFFF_FFFF,
            off == spec_mip_offset(f, w, h, i as nat),
            total == spec_size_sum(f, w, h, 0, n as nat),
            total <= usize::MAX as u128,
            data@.len() == total,
            forall|k: int|
                0 <= k < i ==> #[trigger] mips@[k] == (
                    spec_lvl_dim(w, k as nat) as u64,
                    spec_lvl_dim(h, k as nat) as u64,
                    spec_mip_offset(f, w, h, k as nat) as u128,
                    spec_mip_size_at(f, w, h, k as nat) as u128,
                ),
        decreases n - i,
    {
        let size = mip_size_wide(f, cur_w, cur_h);
        proof {
            assert(size == spec_mip_size_at(f, w, h, i as nat));
            lemma_size_sum_split(f, w, h, 0, i as nat, (i + 1) as nat);
            assert(spec_size_sum(f, w, h, i as nat, (i + 1) as nat) == spec_mip_size_at(
                f,
                w,
                h,
                i as nat,
            ) + spec_size_sum(f, w, h, (i + 1) as nat, (i + 1) as nat));
            lemma_size_sum_split(f, w, h, 0, (i + 1) as nat, n as nat);
            lemma_size_sum_bounds(f, w, h, (i + 1) as nat, n as nat);
            assert(off + size <= total);
        }
        mips.push((cur_w, cur_h, off, size));
        off = off + size;
        let next_w: u64 = if cur_w / 2 == 0 { 1 } else { cur_w / 2 };
        let next_h: u64 = if cur_h / 2 == 0 { 1 } else { cur_h / 2 };
        proof {
            assert(spec_lvl_dim(w, (i + 1) as nat) == (if spec_lvl_dim(w, i as nat) / 2 < 1 {
                1int
            } else {
                spec_lvl_dim(w, i as nat) / 2
            }));
            assert(spec_lvl_dim(h, (i + 1) as nat) == (if spec_lvl_dim(h, i as nat) / 2 < 1 {
                1int
            } else {
                spec_lvl_dim(h, i as nat) / 2
            }));
        }
        cur_w = next_w;
        cur_h = next_h;
        i = i + 1;
    }

    // Reverse emission: smallest mip first, each with its surface header.
    let mut j: u32 = 0;
    while j < n
        invariant
            j <= n,
            1 <= n,
            0 <= w <= 0xFFFF_FFFF,
            0 <= h <= 0xFFFF_FFFF,
            mips@.len() == n,
            total == spec_size_sum(f, w, h, 0, n as nat),
            total <= usize::MAX as u128,
            data@.len() == total,
            forall|k: int|
                0 <= k < n ==> #[trigger] mips@[k] == (
                    spec_lvl_dim(w, k as nat) as u64,
                    spec_lvl_dim(h, k as nat) as u64,
                    spec_mip_offset(f, w, h, k as nat) as u128,
                    spec_mip_size_at(f, w, h, k as nat) as u128,
                ),
            out@ + spec_surfaces_rev(f, w, h, data@, n as nat, j as nat) == header_bytes
                + spec_surfaces_rev(f, w, h, data@, n as nat, 0),
        decreases n - j,
    {
        let idx = (n - 1 - j) as usize;
        let entry = mips[idx];
        let (wi, hi, offi, sizei) = entry;
        proof {
            lemma_lvl_dim_bounds(w, idx as nat);
            lemma_lvl_dim_bounds(h, idx as nat);
            lemma_range_in_bounds(f, w, h, n as nat, idx as nat);
            assert(offi + sizei <= total);
        }
        let ghost out_before = out@;
        push_u32_be(&mut out, wi as u32);
        push_u32_be(&mut out, hi as u32);
        push_u32_be(&mut out, sizei as u32);
        push_slice(&mut out, data, offi as usize, sizei as usize);
        proof {
            let gi = idx as nat;
            let a = crate::bytes::u32_be_bytes(spec_lvl_dim(w, gi) as u32);
            let b = crate::bytes::u32_be_bytes(spec_lvl_dim(h, gi) as u32);
            let c = crate::bytes::u32_be_bytes((spec_mip_size_at(f, w, h, gi) as u128) as u32);
            let dd = data@.subrange(
                spec_mip_offset(f, w, h, gi),
                spec_mip_offset(f, w, h, gi) + spec_mip_size_at(f, w, h, gi),
            );
            assert(wi as u32 == spec_lvl_dim(w, gi) as u32);
            assert(hi as u32 == spec_lvl_dim(h, gi) as u32);
            assert(sizei == spec_mip_size_at(f, w, h, gi) as u128);
            assert(offi as usize as int == spec_mip_offset(f, w, h, gi));
            assert(sizei as usize as int == spec_mip_size_at(f, w, h, gi));
            assert(out@ == (((out_before + a) + b) + c) + dd);
            assert(spec_surfaces_rev(f, w, h, data@, n as nat, j as nat) == spec_surface_block(
                f,
                w,
                h,
                data@,
                gi,
            ) + spec_surfaces_rev(f, w, h, data@, n as nat, (j + 1) as nat));
            lemma_emission_step(
                out_before,
                a,
                b,
                c,
                dd,
                spec_surface_block(f, w, h, data@, gi),
                spec_surfaces_rev(f, w, h, data@, n as nat, j as nat),
                spec_surfaces_rev(f, w, h, data@, n as nat, (j + 1) as nat),
                header_bytes + spec_surfaces_rev(f, w, h, data@, n as nat, 0),
            );
        }
        j = j + 1;
    }
    proof {
        assert(spec_surfaces_rev(f, w, h, data@, n as nat, n as nat) == Seq::<u8>::empty());
        assert(out@ + Seq::<u8>::empty() =~= out@);
        assert(out@ =~= spec_convert(header@, data@));
    }
    Ok(out)
}

} // verus!
