use vstd::prelude::*;

use crate::memory::{
    requests_kept, BusView, Memory, BGP_ADDRESS, INTERRUPT_FLAG_ADDRESS, LCDC_ADDRESS, LYC_ADDRESS, LY_ADDRESS,
    OBP0_ADDRESS, OBP1_ADDRESS, SCX_ADDRESS, SCY_ADDRESS, STAT_ADDRESS, WX_ADDRESS, WY_ADDRESS,
};
use crate::utils::{Address, Byte};
use vstd::arithmetic::div_mod::lemma_fundamental_div_mod_converse;

verus! {

pub const SCREEN_WIDTH: usize = 160;

pub const SCREEN_HEIGHT: usize = 144;

pub const PIXEL_COUNT: usize = 23040;

/// Dots (T-cycles) per scanline.
pub const LINE_DOTS: u16 = 456;

/// Scanlines per frame, VBlank included.
pub const FRAME_LINES: u16 = 154;

/// T-cycles per frame.
pub const FRAME_DOTS: u32 = 70224;

/// Position in the frame where VBlank starts (LY 144, dot 0).
pub const VBLANK_START: u32 = 65664;

/// Where a pixel comes from.
#[derive(Debug, Clone, Copy, PartialEq, Eq, Structural)]
pub enum PixelSource {
    Background,
    Object,
}

/// A 2-bit color index with its source.
#[derive(Debug, Clone, Copy, PartialEq, Eq, Structural)]
pub struct Pixel {
    pub color_ref: u8,
    pub pixel_source: PixelSource,
}

/// Color index of column `col` (0 leftmost) of a tile row stored as the
/// two bit planes `lsb` and `msb`.
pub open spec fn tile_color(lsb: u8, msb: u8, col: u8) -> u8 {
    (((msb >> ((7 - col) as u8)) & 1) * 2 + ((lsb >> ((7 - col) as u8)) & 1)) as u8
}

fn color_of(lsb: u8, msb: u8, col: u8) -> (r: u8)
    requires
        col < 8,
    ensures
        r == tile_color(lsb, msb, col),
        r < 4,
{
    let b = 7 - col;
    let hi = (msb >> b) & 1;
    let lo = (lsb >> b) & 1;
    assert(hi <= 1 && lo <= 1) by (bit_vector)
        requires
            hi == (msb >> b) & 1,
            lo == (lsb >> b) & 1,
    ;
    hi * 2 + lo
}

/// An 8x8 tile of color indices, stored row by row.
pub struct Tile {
    pub tile: Vec<Pixel>,
}

impl Tile {
    pub open spec fn wf(&self) -> bool {
        self.tile@.len() == 64
    }

    /// Whether every pixel has color index 0.
    pub fn all_zero(&self) -> (r: bool)
        requires
            self.wf(),
        ensures
            r == forall|i: int| 0 <= i < 64 ==> #[trigger] self.tile@[i].color_ref == 0,
    {
        let mut i: usize = 0;
        while i < 64
            invariant
                i <= 64,
                self.wf(),
                forall|k: int| 0 <= k < i ==> #[trigger] self.tile@[k].color_ref == 0,
            decreases 64 - i,
        {
            if self.tile[i].color_ref != 0 {
                return false;
            }
            i = i + 1;
        }
        true
    }

    /// The pixel in column `x` of row `y`.
    pub fn get_pixel(&self, x: usize, y: usize) -> (r: Pixel)
        requires
            self.wf(),
            x < 8,
            y < 8,
        ensures
            r == self.tile@[y * 8 + x],
    {
        self.tile[y * 8 + x]
    }

    /// Read the 16 bytes of the tile at `address`.
    pub fn fetch_tile(memory: &Memory, pixel_source: PixelSource, address: Address) -> (r: Self)
        requires
            memory.wf(),
            address <= 0xFFF0,
        ensures
            r.wf(),
            forall|row: int, col: int|
                0 <= row < 8 && 0 <= col < 8 ==> (#[trigger] r.tile@[row * 8 + col]) == (Pixel {
                    color_ref: tile_color(
                        memory@.ram[address + 2 * row],
                        memory@.ram[address + 2 * row + 1],
                        col as u8,
                    ),
                    pixel_source,
                }),
    {
        let mut tile: Vec<Pixel> = Vec::new();
        let mut row: u16 = 0;
        while row < 8
            invariant
                row <= 8,
                memory.wf(),
                address <= 0xFFF0,
                tile@.len() == row * 8,
                forall|r: int, c: int|
                    0 <= r < row && 0 <= c < 8 ==> (#[trigger] tile@[r * 8 + c]) == (Pixel {
                        color_ref: tile_color(
                            memory@.ram[address + 2 * r],
                            memory@.ram[address + 2 * r + 1],
                            c as u8,
                        ),
                        pixel_source,
                    }),
            decreases 8 - row,
        {
            let lsb = memory.read_raw(address + 2 * row);
            let msb = memory.read_raw(address + 2 * row + 1);
            let mut col: u8 = 0;
            while col < 8
                invariant
                    col <= 8,
                    row < 8,
                    tile@.len() == row * 8 + col,
                    lsb == memory@.ram[address + 2 * row],
                    msb == memory@.ram[address + 2 * row + 1],
                    forall|r: int, c: int|
                        0 <= r < row && 0 <= c < 8 ==> (#[trigger] tile@[r * 8 + c]) == (Pixel {
                            color_ref: tile_color(
                                memory@.ram[address + 2 * r],
                                memory@.ram[address + 2 * r + 1],
                                c as u8,
                            ),
                            pixel_source,
                        }),
                    forall|c: int|
                        0 <= c < col ==> (#[trigger] tile@[row * 8 + c]) == (Pixel {
                            color_ref: tile_color(lsb, msb, c as u8),
                            pixel_source,
                        }),
                decreases 8 - col,
            {
                let color_ref = color_of(lsb, msb, col);
                tile.push(Pixel { color_ref, pixel_source });
                col = col + 1;
            }
            row = row + 1;
        }
        Tile { tile }
    }

    /// The pixels of row `y` from column `x` to the end of the row.
    pub fn get_range(&self, x: usize, y: usize) -> (r: Vec<Pixel>)
        requires
            self.wf(),
            x < 8,
            y < 8,
        ensures
            r@ == self.tile@.subrange(y * 8 + x, y * 8 + 8),
    {
        let mut out: Vec<Pixel> = Vec::new();
        let mut i = x;
        while i < 8
            invariant
                x <= i <= 8,
                y < 8,
                self.wf(),
                out@ == self.tile@.subrange(y * 8 + x, y * 8 + i),
            decreases 8 - i,
        {
            out.push(self.tile[y * 8 + i]);
            i = i + 1;
        }
        out
    }
}

/// PPU mode, with the scanline it belongs to.
#[derive(Debug, Clone, Copy, PartialEq, Eq, Structural)]
pub enum PPUMode {
    /// Horizontal blank
    Mode0(usize),
    /// Vertical blank
    Mode1(usize),
    /// OAM scan
    Mode2(usize),
    /// Drawing pixels
    Mode3(usize),
}

impl PPUMode {
    pub open spec fn num(self) -> u8 {
        match self {
            PPUMode::Mode0(_) => 0,
            PPUMode::Mode1(_) => 1,
            PPUMode::Mode2(_) => 2,
            PPUMode::Mode3(_) => 3,
        }
    }

    /// The mode number that STAT reports.
    pub fn to_num(&self) -> (r: Byte)
        ensures
            r == self.num(),
    {
        match self {
            Self::Mode0(_) => 0,
            Self::Mode1(_) => 1,
            Self::Mode2(_) => 2,
            Self::Mode3(_) => 3,
        }
    }
}

/// Mode number at `dot` of scanline `line` whose pixel transfer ends at
/// dot `end`: OAM scan for dots 0-79, pixel transfer up to `end`, then
/// HBlank; VBlank from line 144 on.
pub open spec fn mode_at(line: int, dot: int, end: int) -> u8 {
    if line >= 144 {
        1
    } else if dot < 80 {
        2
    } else if dot < end {
        3
    } else {
        0
    }
}

/// Bit `k` of `v`.
pub open spec fn bit(v: u8, k: int) -> bool {
    if k == 0 {
        v % 2 == 1
    } else if k == 1 {
        v / 2 % 2 == 1
    } else if k == 2 {
        v / 4 % 2 == 1
    } else if k == 3 {
        v / 8 % 2 == 1
    } else if k == 4 {
        v / 16 % 2 == 1
    } else if k == 5 {
        v / 32 % 2 == 1
    } else if k == 6 {
        v / 64 % 2 == 1
    } else {
        v / 128 % 2 == 1
    }
}

/// Whether the window covers pixel `x`, where `hit` tells whether WY <= LY
/// was reached earlier in the frame.
pub open spec fn in_window(m: BusView, x: int, hit: bool) -> bool {
    let lcdc = m.ram[LCDC_ADDRESS as int];
    bit(lcdc, 5) && hit && x + 7 >= m.ram[WX_ADDRESS as int]
}

/// Address of the first byte of background/window tile `t`: LCDC bit 4
/// selects unsigned numbering from 0x8000, else signed from 0x9000.
pub open spec fn tile_address(lcdc: u8, t: u8) -> int {
    if bit(lcdc, 4) || t >= 128 {
        0x8000 + 16 * t
    } else {
        0x9000 + 16 * t
    }
}

/// The combined STAT interrupt line: a source enabled in STAT bits 3-6
/// (HBlank, VBlank, OAM scan, LY == LYC) is active.
pub open spec fn stat_level(stat: u8, mode: u8, lyc_eq: bool) -> bool {
    (bit(stat, 3) && mode == 0) || (bit(stat, 4) && mode == 1) || (bit(stat, 5) && mode == 2) || (
    bit(stat, 6) && lyc_eq)
}

/// STAT with bits 3-7 kept, bit 2 the LY == LYC flag and bits 0-1 the mode.
pub open spec fn stat_value(stat: u8, mode: u8, lyc_eq: bool) -> u8 {
    (stat / 8 * 8 + (if lyc_eq { 4int } else { 0 }) + mode) as u8
}

/// Line `ly` of `screen` is the picture of line `ly` over bus `m`, for some
/// state of the window (its line counter and its WY latch).
pub open spec fn row_drawn(screen: Seq<u8>, m: BusView, ly: int) -> bool {
    exists|wl: int, hit: bool| 0 <= wl < 144 && #[trigger] row_is(screen, m, ly, wl, hit)
}

/// Line `ly` of `screen` is the picture of line `ly` over bus `m` with the
/// window's line counter at `wl` and its WY latch at `hit`.
pub open spec fn row_is(screen: Seq<u8>, m: BusView, ly: int, wl: int, hit: bool) -> bool {
    forall|x: int| 0 <= x < 160 ==> #[trigger] screen[ly * 160 + x] == pixel_shade(m, x, ly, wl, hit)
}

/// Pixel transfer of line `ly` starts within `n` dots after position `p`.
pub open spec fn drawn_within(p: int, n: int, ly: int) -> bool {
    exists|k: int| 1 <= k <= n && #[trigger] ((p + k) % (FRAME_DOTS as int)) == ly * 456 + 80
}

proof fn lemma_count_same(m1: BusView, m2: BusView, ly: int, n: int)
    requires
        m1.wf(),
        ppu_frame(m1, m2),
        0 <= n <= 40,
    ensures
        count_on_line(m1, ly, n) == count_on_line(m2, ly, n),
    decreases n,
{
    if n > 0 {
        lemma_count_same(m1, m2, ly, n - 1);
        assert(m1.ram[0xFE00 + 4 * (n - 1)] == m2.ram[0xFE00 + 4 * (n - 1)]);
        assert(m1.ram[LCDC_ADDRESS as int] == m2.ram[LCDC_ADDRESS as int]);
    }
}

/// A pixel's shade does not depend on LY, STAT or IF.
proof fn lemma_pixel_same(m1: BusView, m2: BusView, x: int, ly: int, wl: int, hit: bool)
    requires
        m1.wf(),
        ppu_frame(m1, m2),
        0 <= x < 160,
        0 <= ly < 144,
        0 <= wl < 144,
    ensures
        pixel_shade(m1, x, ly, wl, hit) == pixel_shade(m2, x, ly, wl, hit),
{
    assert forall|i: int| 0 <= i <= 40 implies count_on_line(m1, ly, i) == count_on_line(m2, ly, i) by {
        lemma_count_same(m1, m2, ly, i);
    }
    assert forall|j: int| selected(m1, ly, j) == selected(m2, ly, j) && (selected(m1, ly, j) ==> obj_color(m1, j, x, ly) == obj_color(m2, j, x, ly) && oam(m1, j, 1) == oam(m2, j, 1) && oam(m1, j, 3) == oam(m2, j, 3)) by {
        if 0 <= j < 40 {
            assert(m1.ram[0xFE00 + 4 * j] == m2.ram[0xFE00 + 4 * j]);
            assert(m1.ram[0xFE00 + 4 * j + 1] == m2.ram[0xFE00 + 4 * j + 1]);
            assert(m1.ram[0xFE00 + 4 * j + 2] == m2.ram[0xFE00 + 4 * j + 2]);
            assert(m1.ram[0xFE00 + 4 * j + 3] == m2.ram[0xFE00 + 4 * j + 3]);
        }
    }
    assert forall|i: int| obj_wins(m1, x, ly, i) == obj_wins(m2, x, ly, i) by {}
    assert(bg_color(m1, x, ly, wl, hit) == bg_color(m2, x, ly, wl, hit));
    if exists|i: int| obj_wins(m1, x, ly, i) {
        let i1 = choose|i: int| obj_wins(m1, x, ly, i);
        let i2 = choose|i: int| obj_wins(m2, x, ly, i);
        lemma_winner_unique(m2, x, ly, i1, i2);
    }
}

proof fn lemma_stat_value(stat: u8, mode: u8, lyc_eq: bool)
    requires
        mode < 4,
    ensures
        stat_value(stat, mode, lyc_eq) / 8 == stat / 8,
        (stat_value(stat, mode, lyc_eq) / 4 % 2 == 1) == lyc_eq,
        stat_value(stat, mode, lyc_eq) % 4 == mode,
{
}

/// The PPU wrote nothing on the bus but LY, STAT and IF.
pub open spec fn ppu_frame(m0: BusView, m1: BusView) -> bool {
    &&& m1.ram.len() == m0.ram.len()
    &&& m1.counter == m0.counter
    &&& m1.dma == m0.dma
    &&& m1.buttons == m0.buttons
    &&& m1.boot == m0.boot
    &&& m1.boot_active == m0.boot_active
    &&& forall|k: int|
        0 <= k < m0.ram.len() && k != LY_ADDRESS && k != STAT_ADDRESS && k
            != INTERRUPT_FLAG_ADDRESS ==> #[trigger] m1.ram[k] == m0.ram[k]
}

/// Whether the window shows on a line, given the WY latch `hit`.
pub open spec fn window_on_line(m: BusView, hit: bool) -> bool {
    bit(m.ram[LCDC_ADDRESS as int], 5) && hit && m.ram[WX_ADDRESS as int] <= 166
}

/// Dots of pixel transfer on line `ly`: 172, plus the pixels SCX discards,
/// 6 per selected sprite and 6 when the window shows.
pub open spec fn mode3_length(m: BusView, ly: int, hit: bool) -> int {
    let n = count_on_line(m, ly, 40);
    172 + m.ram[SCX_ADDRESS as int] % 8 + 6 * (if n < 10 { n } else { 10 }) + (if window_on_line(m, hit) {
        6int
    } else {
        0
    })
}

/// Background/window color index of pixel `x` of line `ly`, where `wl`
/// is the window's own line counter and `hit` its WY latch.
pub open spec fn bg_color(m: BusView, x: int, ly: int, wl: int, hit: bool) -> u8 {
    let lcdc = m.ram[LCDC_ADDRESS as int];
    let win = in_window(m, x, hit);
    let map: int = if win {
        if bit(lcdc, 6) { 0x9C00 } else { 0x9800 }
    } else {
        if bit(lcdc, 3) { 0x9C00 } else { 0x9800 }
    };
    let px: int = if win {
        x + 7 - m.ram[WX_ADDRESS as int]
    } else {
        (x + m.ram[SCX_ADDRESS as int]) % 256
    };
    let py: int = if win {
        wl
    } else {
        (ly + m.ram[SCY_ADDRESS as int]) % 256
    };
    let t = m.ram[map + py / 8 * 32 + px / 8];
    let row = tile_address(lcdc, t) + 2 * (py % 8);
    if !bit(lcdc, 0) {
        0
    } else {
        tile_color(m.ram[row], m.ram[row + 1], (px % 8) as u8)
    }
}

/// Shade of color index `c` under palette `p`.
pub open spec fn shade(p: u8, c: u8) -> u8 {
    (p / (if c == 0 { 1u8 } else if c == 1 { 4u8 } else if c == 2 { 16u8 } else { 64u8 }) % 4) as u8
}



/// Height in pixels of the sprites (LCDC bit 2: 8x16).
pub open spec fn obj_height(lcdc: u8) -> int {
    if bit(lcdc, 2) {
        16
    } else {
        8
    }
}

/// Byte `k` (Y, X, tile, attributes) of OAM entry `i`.
pub open spec fn oam(m: BusView, i: int, k: int) -> u8 {
    m.ram[0xFE00 + 4 * i + k]
}

/// Whether sprite `i` covers line `ly`.
pub open spec fn on_line(m: BusView, i: int, ly: int) -> bool {
    oam(m, i, 0) <= ly + 16 < oam(m, i, 0) + obj_height(m.ram[LCDC_ADDRESS as int])
}

/// How many of the sprites `0..n` cover line `ly`.
pub open spec fn count_on_line(m: BusView, ly: int, n: int) -> int
    decreases n,
{
    if n <= 0 {
        0
    } else {
        count_on_line(m, ly, n - 1) + if on_line(m, n - 1, ly) {
            1int
        } else {
            0
        }
    }
}

/// The OAM scan keeps the first 10 sprites that cover the line.
pub open spec fn selected(m: BusView, ly: int, i: int) -> bool {
    0 <= i < 40 && on_line(m, i, ly) && count_on_line(m, ly, i) < 10
}

/// Color index of sprite `i` at pixel `x` of line `ly` (0 where it is
/// transparent or absent), with its flips applied.
pub open spec fn obj_color(m: BusView, i: int, x: int, ly: int) -> u8 {
    let sx = oam(m, i, 1);
    let attr = oam(m, i, 3);
    let h = obj_height(m.ram[LCDC_ADDRESS as int]);
    let row0 = ly + 16 - oam(m, i, 0);
    let row = if bit(attr, 6) { h - 1 - row0 } else { row0 };
    let t: int = if h == 16 { oam(m, i, 2) / 2 * 2 } else { oam(m, i, 2) as int };
    let address = 0x8000 + 16 * t + 2 * row;
    let col0 = x + 8 - sx;
    let col = if bit(attr, 5) { 7 - col0 } else { col0 };
    if sx <= x + 8 < sx + 8 {
        tile_color(m.ram[address], m.ram[address + 1], col as u8)
    } else {
        0
    }
}

/// Drawing priority between sprites: lower X first, then lower OAM index.
pub open spec fn obj_before(m: BusView, i: int, j: int) -> bool {
    oam(m, i, 1) < oam(m, j, 1) || (oam(m, i, 1) == oam(m, j, 1) && i < j)
}

/// Sprite `i` is the one drawn at pixel `x` of line `ly`: selected, opaque
/// there, and before every other such sprite.
pub open spec fn obj_wins(m: BusView, x: int, ly: int, i: int) -> bool {
    &&& selected(m, ly, i)
    &&& obj_color(m, i, x, ly) != 0
    &&& forall|j: int|
        selected(m, ly, j) && obj_color(m, j, x, ly) != 0 && j != i ==> obj_before(m, i, j)
}

/// Shade of pixel `x` of line `ly`: the winning sprite's, through OBP0 or
/// OBP1 (attribute bit 4), unless sprites are off (LCDC bit 1) or it sits
/// behind a non-zero background (attribute bit 7); else the background's.
pub open spec fn pixel_shade(m: BusView, x: int, ly: int, wl: int, hit: bool) -> u8 {
    let lcdc = m.ram[LCDC_ADDRESS as int];
    let bgc = bg_color(m, x, ly, wl, hit);
    if bit(lcdc, 1) && exists|i: int| obj_wins(m, x, ly, i) {
        let i = choose|i: int| obj_wins(m, x, ly, i);
        let attr = oam(m, i, 3);
        if bit(attr, 7) && bgc != 0 {
            shade(m.ram[BGP_ADDRESS as int], bgc)
        } else {
            shade(
                m.ram[(if bit(attr, 4) { OBP1_ADDRESS } else { OBP0_ADDRESS }) as int],
                obj_color(m, i, x, ly),
            )
        }
    } else {
        shade(m.ram[BGP_ADDRESS as int], bgc)
    }
}

proof fn lemma_winner_unique(m: BusView, x: int, ly: int, i: int, j: int)
    requires
        obj_wins(m, x, ly, i),
        obj_wins(m, x, ly, j),
    ensures
        i == j,
{
    if i != j {
        assert(obj_before(m, i, j));
        assert(obj_before(m, j, i));
    }
}

/// The sprites selected for a line by the OAM scan, in OAM order; pixel
/// transfer takes its sprite pixels from them.
pub struct ObjFIFO {
    pub sprites: Vec<u8>,
}

impl ObjFIFO {
    /// The OAM scan of line `ly`: the sprites it selects, in OAM order.
    pub fn scan(memory: &Memory, ly: u16) -> (r: Self)
        requires
            memory.wf(),
            ly < 144,
        ensures
            r.sprites@.len() <= 10,
            r.sprites@.len() == if count_on_line(memory@, ly as int, 40) < 10 {
                count_on_line(memory@, ly as int, 40)
            } else {
                10
            },
            forall|k: int| 0 <= k < r.sprites@.len() ==> selected(memory@, ly as int, #[trigger] r.sprites@[k] as int),
            forall|i: int| selected(memory@, ly as int, i) ==> exists|k: int| 0 <= k < r.sprites@.len() && #[trigger] r.sprites@[k] == i,
            forall|a: int, b: int| 0 <= a < b < r.sprites@.len() ==> r.sprites@[a] < r.sprites@[b],
    {
        let ghost m = memory@;
        let lcdc = memory.read_raw(LCDC_ADDRESS);
        let h: u16 = if lcdc / 4 % 2 == 1 { 16 } else { 8 };
        let mut r: Vec<u8> = Vec::new();
        let mut i: u8 = 0;
        while i < 40
            invariant
                i <= 40,
                memory.wf(),
                memory@ == m,
                ly < 144,
                h == obj_height(m.ram[LCDC_ADDRESS as int]),
                r@.len() == if count_on_line(m, ly as int, i as int) < 10 {
                    count_on_line(m, ly as int, i as int)
                } else {
                    10
                },
                forall|k: int| 0 <= k < r@.len() ==> #[trigger] r@[k] < i && selected(m, ly as int, r@[k] as int),
                forall|j: int| 0 <= j < i && selected(m, ly as int, j) ==> exists|k: int| 0 <= k < r@.len() && #[trigger] r@[k] == j,
                forall|a: int, b: int| 0 <= a < b < r@.len() ==> r@[a] < r@[b],
            decreases 40 - i,
        {
            let y = memory.read_raw(0xFE00 + 4 * (i as u16)) as u16;
            let ghost old_r = r@;
            if y <= ly + 16 && ly + 16 < y + h && r.len() < 10 {
                r.push(i);
                assert(r@[r@.len() - 1] == i);
            }
            proof {
                assert forall|j: int| 0 <= j < i + 1 && selected(m, ly as int, j) implies exists|k: int|
                    0 <= k < r@.len() && #[trigger] r@[k] == j by {
                    if j == i {
                        assert(r@[r@.len() - 1] == i);
                    } else {
                        let k = choose|k: int| 0 <= k < old_r.len() && #[trigger] old_r[k] == j;
                        assert(r@[k] == old_r[k]);
                    }
                }
            }
            i = i + 1;
        }
        ObjFIFO { sprites: r }
    }
}

/// Color index of sprite `i` at pixel `x` of line `ly`.
fn obj_color_at(memory: &Memory, i: u8, x: u16, ly: u16) -> (r: u8)
    requires
        memory.wf(),
        i < 40,
        x < 160,
        ly < 144,
        on_line(memory@, i as int, ly as int),
    ensures
        r == obj_color(memory@, i as int, x as int, ly as int),
        r < 4,
{
    let base = 0xFE00 + 4 * (i as u16);
    let y = memory.read_raw(base) as u16;
    let sx = memory.read_raw(base + 1) as u16;
    let tile = memory.read_raw(base + 2) as u16;
    let attr = memory.read_raw(base + 3);
    let lcdc = memory.read_raw(LCDC_ADDRESS);
    let h: u16 = if lcdc / 4 % 2 == 1 { 16 } else { 8 };
    if !(sx <= x + 8 && x + 8 < sx + 8) {
        return 0;
    }
    let row0 = ly + 16 - y;
    let row = if attr / 64 % 2 == 1 { h - 1 - row0 } else { row0 };
    let t = if h == 16 { tile / 2 * 2 } else { tile };
    let address = 0x8000 + 16 * t + 2 * row;
    let col0 = x + 8 - sx;
    let col = if attr / 32 % 2 == 1 { 7 - col0 } else { col0 };
    color_of(memory.read_raw(address), memory.read_raw(address + 1), col as u8)
}

/// The sprite drawn at pixel `x` of line `ly`, among the selected `sel`.
fn winner(memory: &Memory, sel: &Vec<u8>, x: u16, ly: u16) -> (r: Option<u8>)
    requires
        memory.wf(),
        x < 160,
        ly < 144,
        forall|k: int| 0 <= k < sel@.len() ==> selected(memory@, ly as int, #[trigger] sel@[k] as int),
        forall|i: int| selected(memory@, ly as int, i) ==> exists|k: int| 0 <= k < sel@.len() && #[trigger] sel@[k] == i,
    ensures
        match r {
            Some(i) => obj_wins(memory@, x as int, ly as int, i as int),
            None => forall|i: int| !obj_wins(memory@, x as int, ly as int, i),
        },
{
    let ghost m = memory@;
    let mut best: Option<u8> = None;
    let mut best_x: u8 = 0;
    let mut k: usize = 0;
    while k < sel.len()
        invariant
            k <= sel@.len(),
            memory.wf(),
            memory@ == m,
            x < 160,
            ly < 144,
            forall|a: int| 0 <= a < sel@.len() ==> selected(m, ly as int, #[trigger] sel@[a] as int),
            match best {
                Some(b) => {
                    &&& selected(m, ly as int, b as int)
                    &&& obj_color(m, b as int, x as int, ly as int) != 0
                    &&& best_x == oam(m, b as int, 1)
                    &&& forall|a: int|
                        0 <= a < k && obj_color(m, #[trigger] sel@[a] as int, x as int, ly as int) != 0
                            && sel@[a] != b ==> obj_before(m, b as int, sel@[a] as int)
                },
                None => forall|a: int|
                    0 <= a < k ==> obj_color(m, #[trigger] sel@[a] as int, x as int, ly as int) == 0,
            },
        decreases sel@.len() - k,
    {
        let i = sel[k];
        let c = obj_color_at(memory, i, x, ly);
        if c != 0 {
            let sx = memory.read_raw(0xFE00 + 4 * (i as u16) + 1);
            match best {
                None => {
                    best = Some(i);
                    best_x = sx;
                },
                Some(b) => {
                    if sx < best_x || (sx == best_x && i < b) {
                        best = Some(i);
                        best_x = sx;
                    }
                },
            }
        }
        k = k + 1;
    }
    match best {
        Some(b) => {
            assert forall|j: int|
                selected(m, ly as int, j) && obj_color(m, j, x as int, ly as int) != 0 && j != b implies obj_before(
                m,
                b as int,
                j,
            ) by {
                let a = choose|a: int| 0 <= a < sel@.len() && #[trigger] sel@[a] == j;
                assert(sel@[a] == j);
            }
        },
        None => {
            assert forall|i: int| !obj_wins(m, x as int, ly as int, i) by {
                if selected(m, ly as int, i) {
                    let a = choose|a: int| 0 <= a < sel@.len() && #[trigger] sel@[a] == i;
                    assert(sel@[a] == i);
                }
            }
        },
    }
    best
}

/// Background/window color index of pixel `x` of line `ly`.
fn bg_color_at(memory: &Memory, x: u16, ly: u16, wl: u8, hit: bool) -> (r: u8)
    requires
        memory.wf(),
        x < 160,
        ly < 144,
        wl < 144,
    ensures
        r == bg_color(memory@, x as int, ly as int, wl as int, hit),
        r < 4,
{
    let lcdc = memory.read_raw(LCDC_ADDRESS);
    let wx = memory.read_raw(WX_ADDRESS) as u16;
    let scx = memory.read_raw(SCX_ADDRESS) as u16;
    let scy = memory.read_raw(SCY_ADDRESS) as u16;
    let win = lcdc / 32 % 2 == 1 && hit && x + 7 >= wx;
    let map: u16 = if win {
        if lcdc / 64 % 2 == 1 { 0x9C00 } else { 0x9800 }
    } else {
        if lcdc / 8 % 2 == 1 { 0x9C00 } else { 0x9800 }
    };
    let px: u16 = if win { x + 7 - wx } else { (x + scx) % 256 };
    let py: u16 = if win { wl as u16 } else { (ly + scy) % 256 };
    let t = memory.read_raw(map + py / 8 * 32 + px / 8);
    let base: u16 = if lcdc / 16 % 2 == 1 || t >= 128 {
        0x8000 + 16 * (t as u16)
    } else {
        0x9000 + 16 * (t as u16)
    };
    let row = base + 2 * (py % 8);
    let c: u8 = if lcdc % 2 == 0 {
        0
    } else {
        color_of(memory.read_raw(row), memory.read_raw(row + 1), (px % 8) as u8)
    };
    c
}

fn shade_of(p: u8, c: u8) -> (r: u8)
    ensures
        r == shade(p, c),
{
    let div: u8 = if c == 0 {
        1
    } else if c == 1 {
        4
    } else if c == 2 {
        16
    } else {
        64
    };
    p / div % 4
}

/// Shade of pixel `x` of line `ly`, given the sprites the OAM scan selected.
fn pixel_at(memory: &Memory, sel: &Vec<u8>, x: u16, ly: u16, wl: u8, hit: bool) -> (r: u8)
    requires
        memory.wf(),
        x < 160,
        ly < 144,
        wl < 144,
        forall|k: int| 0 <= k < sel@.len() ==> selected(memory@, ly as int, #[trigger] sel@[k] as int),
        forall|i: int| selected(memory@, ly as int, i) ==> exists|k: int| 0 <= k < sel@.len() && #[trigger] sel@[k] == i,
    ensures
        r == pixel_shade(memory@, x as int, ly as int, wl as int, hit),
{
    let ghost m = memory@;
    let lcdc = memory.read_raw(LCDC_ADDRESS);
    let bgc = bg_color_at(memory, x, ly, wl, hit);
    let bgp = memory.read_raw(BGP_ADDRESS);
    if lcdc / 2 % 2 == 0 {
        return shade_of(bgp, bgc);
    }
    match winner(memory, sel, x, ly) {
        None => shade_of(bgp, bgc),
        Some(i) => {
            proof {
                let c = choose|j: int| obj_wins(m, x as int, ly as int, j);
                lemma_winner_unique(m, x as int, ly as int, i as int, c);
            }
            let base = 0xFE00 + 4 * (i as u16);
            let attr = memory.read_raw(base + 3);
            if attr / 128 % 2 == 1 && bgc != 0 {
                shade_of(bgp, bgc)
            } else {
                let palette = if attr / 16 % 2 == 1 {
                    memory.read_raw(OBP1_ADDRESS)
                } else {
                    memory.read_raw(OBP0_ADDRESS)
                };
                shade_of(palette, obj_color_at(memory, i, x, ly))
            }
        },
    }
}

/// VBlank starts crossed when moving `n` dots on from position `p`.
pub open spec fn vblanks_between(p: int, n: int) -> int {
    (p + (FRAME_DOTS - VBLANK_START) + n) / (FRAME_DOTS as int) - (p + (FRAME_DOTS - VBLANK_START))
        / (FRAME_DOTS as int)
}

proof fn lemma_vblank_step(p: int, n: int)
    requires
        0 <= p,
        0 <= n,
    ensures
        vblanks_between(p, n + 1) == vblanks_between(p, n) + (if (p + n + 1) % (FRAME_DOTS as int)
            == VBLANK_START {
            1int
        } else {
            0
        }),
{
    let t = FRAME_DOTS as int;
    let q = p + (FRAME_DOTS - VBLANK_START) + n;
    let d = q / t;
    let r = q % t;
    if r == t - 1 {
        lemma_fundamental_div_mod_converse(q + 1, t, d + 1, 0);
        lemma_fundamental_div_mod_converse(p + n + 1, t, d, VBLANK_START as int);
    } else {
        lemma_fundamental_div_mod_converse(q + 1, t, d, r + 1);
        if r + 1 >= t - VBLANK_START {
            lemma_fundamental_div_mod_converse(p + n + 1, t, d, r + 1 - (t - VBLANK_START));
        } else {
            lemma_fundamental_div_mod_converse(p + n + 1, t, d - 1, r + 1 + VBLANK_START);
        }
    }
}

/// Every frame lasts 70 224 T-cycles and holds exactly one VBlank start:
/// from any position, a frame's worth of dots comes back to the same
/// position and crosses the start of VBlank once.
pub proof fn lemma_one_vblank_per_frame(p: int)
    requires
        0 <= p < FRAME_DOTS,
    ensures
        (p + FRAME_DOTS) % (FRAME_DOTS as int) == p,
        vblanks_between(p, FRAME_DOTS as int) == 1,
{
    let t = FRAME_DOTS as int;
    let q = p + (FRAME_DOTS - VBLANK_START);
    lemma_fundamental_div_mod_converse(p + t, t, 1, p);
    let d = q / t;
    let r = q % t;
    lemma_fundamental_div_mod_converse(q + t, t, d + 1, r);
}

/// Counting VBlank starts is additive over consecutive runs: `a` dots from
/// `p` and then `b` dots from where they end cross as many as `a + b` dots
/// from `p`. With `lemma_one_vblank_per_frame`, any run of whole frames
/// split over several calls to `render` requests VBlank once per frame.
pub proof fn lemma_vblanks_compose(p: int, a: int, b: int)
    requires
        0 <= p < FRAME_DOTS,
        0 <= a,
        0 <= b,
    ensures
        vblanks_between(p, a) + vblanks_between((p + a) % (FRAME_DOTS as int), b)
            == vblanks_between(p, a + b),
{
    let t = FRAME_DOTS as int;
    let off = (FRAME_DOTS - VBLANK_START) as int;
    let k = (p + a) / t;
    let r = (p + a) % t;
    lemma_fundamental_div_mod_converse(p + a, t, k, r);
    let x = r + off + b;
    let y = r + off;
    lemma_fundamental_div_mod_converse(x + t * k, t, k + x / t, x % t);
    lemma_fundamental_div_mod_converse(y + t * k, t, k + y / t, y % t);
    assert(p + a == t * k + r) by {
        vstd::arithmetic::div_mod::lemma_fundamental_div_mod(p + a, t);
    }
}

/// The picture-processing unit: scanline timing, STAT and LY, interrupts
/// and the 160x144 frame of shades.
pub struct Graphics {
    line: u16,
    dot: u16,
    stat_line: bool,
    enabled: bool,
    frame_ready: bool,
    mode3_end: u16,
    window_line: u8,
    wy_hit: bool,
    screen: Vec<u8>,
    frames: Ghost<nat>,
}

impl Graphics {
    pub closed spec fn wf(&self) -> bool {
        &&& self.line < FRAME_LINES
        &&& self.dot < LINE_DOTS
        &&& self.screen@.len() == PIXEL_COUNT
        &&& self.window_line as int <= self.line as int + (if self.dot >= 80 { 1int } else { 0 })
        &&& !self.enabled ==> self.line == 0 && self.dot == 0
        &&& 252 <= self.mode3_end <= 325
        &&& !self.enabled ==> forall|i: int| 0 <= i < PIXEL_COUNT ==> #[trigger] self.screen@[i] == 0
    }

    /// Position in the frame: `line * 456 + dot`.
    pub closed spec fn position(&self) -> int {
        self.line * LINE_DOTS + self.dot
    }

    pub closed spec fn line(&self) -> int {
        self.line as int
    }

    pub closed spec fn dot(&self) -> int {
        self.dot as int
    }

    /// Whether the LCD is on.
    pub closed spec fn lcd_on(&self) -> bool {
        self.enabled
    }

    /// The combined STAT interrupt line after the last dot.
    pub closed spec fn stat_line(&self) -> bool {
        self.stat_line
    }

    /// How position, scanline, dot and the end of pixel transfer relate.
    pub proof fn lemma_layout(&self)
        requires
            self.wf(),
        ensures
            0 <= self.position() < FRAME_DOTS,
            0 <= self.line() < FRAME_LINES,
            0 <= self.dot() < LINE_DOTS,
            self.line() == self.position() / (LINE_DOTS as int),
            self.dot() == self.position() % (LINE_DOTS as int),
            252 <= self.mode3_end() <= 325,
            0 <= self.window_line() <= self.line() + 1,
    {
        lemma_fundamental_div_mod_converse(
            self.position(),
            LINE_DOTS as int,
            self.line as int,
            self.dot as int,
        );
    }

    proof fn lemma_rows_step(
        &self,
        start: int,
        i: int,
        prev_screen: Seq<u8>,
        prev_mem: BusView,
        mem: BusView,
        prev_wl: int,
        prev_hit: bool,
    )
        requires
            self.wf(),
            prev_mem.wf(),
            ppu_frame(prev_mem, mem),
            0 <= start < FRAME_DOTS,
            0 <= i,
            self.position() == (start + i + 1) % (FRAME_DOTS as int),
            self.line() == self.position() / 456,
            self.dot() == self.position() % 456,
            0 <= prev_wl,
            self.line() < 144 && self.dot() == 80 ==> prev_wl <= self.line(),
            self.line() < 144 && self.dot() == 80 ==> forall|k: int|
                0 <= k < PIXEL_COUNT ==> #[trigger] self.screen()[k] == if self.line() * 160 <= k
                    < self.line() * 160 + 160 {
                    pixel_shade(prev_mem, k - self.line() * 160, self.line(), prev_wl, prev_hit)
                } else {
                    prev_screen[k]
                },
            !(self.line() < 144 && self.dot() == 80) ==> self.screen() == prev_screen,
            forall|ly: int|
                0 <= ly < 144 && drawn_within(start, i, ly) ==> row_drawn(prev_screen, prev_mem, ly),
        ensures
            forall|ly: int|
                0 <= ly < 144 && drawn_within(start, i + 1, ly) ==> row_drawn(self.screen(), mem, ly),
    {
        assert forall|ly: int| 0 <= ly < 144 && drawn_within(start, i + 1, ly) implies row_drawn(
            self.screen(),
            mem,
            ly,
        ) by {
            let here = (start + i + 1) % (FRAME_DOTS as int) == ly * 456 + 80;
            if here {
                lemma_fundamental_div_mod_converse(self.position(), 456, ly, 80);
                assert(((start + (i + 1)) % (FRAME_DOTS as int)) == ly * 456 + 80);
                assert(drawn_within(start, i + 1, ly));
                assert forall|x: int| 0 <= x < 160 implies #[trigger] self.screen()[ly * 160 + x]
                    == pixel_shade(mem, x, ly, prev_wl, prev_hit) by {
                    assert(self.screen()[ly * 160 + x] == pixel_shade(prev_mem, x, ly, prev_wl, prev_hit));
                    lemma_pixel_same(prev_mem, mem, x, ly, prev_wl, prev_hit);
                }
                assert(row_is(self.screen(), mem, ly, prev_wl, prev_hit));
            } else {
                assert forall|x: int| 0 <= x < 160 implies #[trigger] self.screen()[ly * 160 + x]
                    == prev_screen[ly * 160 + x] by {
                    if self.line() < 144 && self.dot() == 80 {
                        assert(self.line() != ly);
                        assert(self.screen()[ly * 160 + x] == prev_screen[ly * 160 + x]);
                    }
                }
                let k = choose|k: int|
                    1 <= k <= i + 1 && #[trigger] ((start + k) % (FRAME_DOTS as int)) == ly * 456
                        + 80;
                assert(k != i + 1);
                assert(((start + k) % (FRAME_DOTS as int)) == ly * 456 + 80);
                assert(drawn_within(start, i, ly));
                let (wl, h) = choose|wl: int, h: bool| 0 <= wl < 144 && #[trigger] row_is(prev_screen, prev_mem, ly, wl, h);
                assert forall|x: int| 0 <= x < 160 implies #[trigger] self.screen()[ly * 160 + x]
                    == pixel_shade(mem, x, ly, wl, h) by {
                    assert(prev_screen[ly * 160 + x] == pixel_shade(prev_mem, x, ly, wl, h));
                    lemma_pixel_same(prev_mem, mem, x, ly, wl, h);
                }
                assert(row_is(self.screen(), mem, ly, wl, h));
            }
        }
    }

    /// Whether WY <= LY was reached earlier in this frame.
    pub closed spec fn wy_hit(&self) -> bool {
        self.wy_hit
    }

    /// Lines of the window drawn so far in this frame.
    pub closed spec fn window_line(&self) -> int {
        self.window_line as int
    }

    /// The dot at which pixel transfer of the current line ends.
    pub closed spec fn mode3_end(&self) -> int {
        self.mode3_end as int
    }

    /// VBlank starts so far.
    pub closed spec fn frames(&self) -> nat {
        self.frames@
    }

    pub closed spec fn screen(&self) -> Seq<u8> {
        self.screen@
    }

    pub fn new() -> (r: Self)
        ensures
            r.wf(),
            r.position() == 0,
            r.frames() == 0,
            forall|i: int| 0 <= i < PIXEL_COUNT ==> #[trigger] r.screen()[i] == 0,
    {
        let mut screen: Vec<u8> = Vec::new();
        let mut i: usize = 0;
        while i < PIXEL_COUNT
            invariant
                i <= PIXEL_COUNT,
                screen@.len() == i,
                forall|k: int| 0 <= k < i ==> #[trigger] screen@[k] == 0,
            decreases PIXEL_COUNT - i,
        {
            screen.push(0);
            i = i + 1;
        }
        Graphics {
            line: 0,
            dot: 0,
            stat_line: false,
            enabled: false,
            frame_ready: false,
            mode3_end: 252,
            window_line: 0,
            wy_hit: false,
            screen,
            frames: Ghost(0),
        }
    }

    /// The shade (0-3) of pixel `x` of line `y` of the frame.
    pub fn pixel(&self, x: usize, y: usize) -> (r: u8)
        requires
            self.wf(),
            x < SCREEN_WIDTH,
            y < SCREEN_HEIGHT,
        ensures
            r == self.screen()[y * SCREEN_WIDTH + x],
    {
        self.screen[y * SCREEN_WIDTH + x]
    }

    /// Whether a frame was completed since the signal was last taken.
    pub closed spec fn frame_ready(&self) -> bool {
        self.frame_ready
    }

    /// Whether a frame was completed since the last call; clears the signal.
    pub fn take_frame_ready(&mut self) -> (r: bool)
        ensures
            r == old(self).frame_ready(),
            !final(self).frame_ready(),
            final(self).line() == old(self).line(),
            final(self).dot() == old(self).dot(),
            final(self).wf() == old(self).wf(),
            final(self).position() == old(self).position(),
            final(self).frames() == old(self).frames(),
            final(self).screen() == old(self).screen(),
    {
        let r = self.frame_ready;
        self.frame_ready = false;
        r
    }

    /// Draw line `ly` (background, window and sprites) into the frame;
    /// returns the length of its pixel transfer.
    fn render_line(&mut self, memory: &Memory, ly: u16) -> (r: u16)
        requires
            old(self).wf(),
            old(self).enabled,
            memory.wf(),
            ly < 144,
            ly == old(self).line,
            old(self).dot >= 80,
            old(self).window_line <= ly,
        ensures
            final(self).wf(),
            final(self).position() == old(self).position(),
            final(self).frames() == old(self).frames(),
            final(self).line() == old(self).line(),
            final(self).dot() == old(self).dot(),
            final(self).enabled,
            final(self).mode3_end() == old(self).mode3_end(),
            final(self).frame_ready() == old(self).frame_ready(),
            final(self).stat_line() == old(self).stat_line(),
            final(self).wy_hit() == (old(self).wy_hit || memory@.ram[WY_ADDRESS as int] <= ly),
            final(self).window_line() == old(self).window_line() + if window_on_line(
                memory@,
                final(self).wy_hit(),
            ) {
                1int
            } else {
                0
            },
            r == mode3_length(memory@, ly as int, final(self).wy_hit()),
            172 <= r <= 245,
            forall|i: int|
                0 <= i < PIXEL_COUNT ==> #[trigger] final(self).screen@[i] == if ly * 160 <= i < ly
                    * 160 + 160 {
                    pixel_shade(
                        memory@,
                        i - ly * 160,
                        ly as int,
                        old(self).window_line as int,
                        final(self).wy_hit(),
                    )
                } else {
                    old(self).screen@[i]
                },
    {
        let hit = self.wy_hit || (memory.read_raw(WY_ADDRESS) as u16) <= ly;
        self.wy_hit = hit;
        let sel = ObjFIFO::scan(memory, ly).sprites;
        let mut x: u16 = 0;
        while x < 160
            invariant
                x <= 160,
                ly < 144,
                memory.wf(),
                forall|k: int| 0 <= k < sel@.len() ==> selected(memory@, ly as int, #[trigger] sel@[k] as int),
                forall|i: int| selected(memory@, ly as int, i) ==> exists|k: int| 0 <= k < sel@.len() && #[trigger] sel@[k] == i,
                self.wf(),
                self.line == old(self).line,
                self.dot == old(self).dot,
                self.enabled,
                self.frames == old(self).frames,
                self.mode3_end == old(self).mode3_end,
                self.window_line == old(self).window_line,
                self.window_line <= ly,
                self.wy_hit == hit,
                hit == (old(self).wy_hit || memory@.ram[WY_ADDRESS as int] <= ly),
                self.frame_ready == old(self).frame_ready,
                self.stat_line == old(self).stat_line,
                forall|i: int|
                    0 <= i < PIXEL_COUNT ==> #[trigger] self.screen@[i] == if ly * 160 <= i < ly
                        * 160 + x {
                        pixel_shade(memory@, i - ly * 160, ly as int, self.window_line as int, hit)
                    } else {
                        old(self).screen@[i]
                    },
            decreases 160 - x,
        {
            let shade = pixel_at(memory, &sel, x, ly, self.window_line, hit);
            self.screen.set((ly as usize) * 160 + x as usize, shade);
            x = x + 1;
        }
        let lcdc = memory.read_raw(LCDC_ADDRESS);
        let window = lcdc / 32 % 2 == 1 && hit && memory.read_raw(WX_ADDRESS) <= 166;
        if window {
            self.window_line = self.window_line + 1;
        }
        172 + (memory.read_raw(SCX_ADDRESS) % 8) as u16 + 6 * (sel.len() as u16) + if window {
            6
        } else {
            0
        }
    }

    /// One dot with the LCD on: move on, draw the line on entering pixel
    /// transfer, update LY and STAT, request VBlank (IF bit 0) on entering
    /// line 144 and the STAT interrupt (IF bit 1) on a rising edge of the
    /// combined STAT sources.
    #[verifier::rlimit(100)]
    #[verifier::spinoff_prover]
    pub fn step_dot(&mut self, memory: &mut Memory)
        requires
            old(self).wf(),
            old(memory).wf(),
            old(self).lcd_on(),
        ensures
            final(self).wf(),
            final(memory).wf(),
            final(self).lcd_on(),
            final(self).position() == (old(self).position() + 1) % (FRAME_DOTS as int),
            final(self).frames() == old(self).frames() + (if final(self).position()
                == VBLANK_START { 1nat } else { 0 }),
            final(self).frame_ready() == (old(self).frame_ready() || final(self).position()
                == VBLANK_START),
            ppu_frame(old(memory)@, final(memory)@),
            final(memory)@.ram[LY_ADDRESS as int] == final(self).line(),
            ({
                let eq = old(memory)@.ram[LYC_ADDRESS as int] as int == final(self).line();
                let mode = mode_at(final(self).line(), final(self).dot(), final(self).mode3_end());
                let old_stat = old(memory)@.ram[STAT_ADDRESS as int];
                let old_if = old(memory)@.ram[INTERRUPT_FLAG_ADDRESS as int];
                let new_if = final(memory)@.ram[INTERRUPT_FLAG_ADDRESS as int];
                &&& final(memory)@.ram[STAT_ADDRESS as int] == stat_value(old_stat, mode, eq)
                &&& final(self).stat_line() == stat_level(old_stat, mode, eq)
                &&& new_if / 4 == old_if / 4
                &&& (new_if % 2 == 1) == (old_if % 2 == 1 || final(self).position() == VBLANK_START)
                &&& (new_if / 2 % 2 == 1) == (old_if / 2 % 2 == 1 || (stat_level(old_stat, mode, eq)
                    && !old(self).stat_line()))
            }),
            final(self).line() < 144 && final(self).dot() == 80 ==> forall|i: int|
                0 <= i < PIXEL_COUNT ==> #[trigger] final(self).screen()[i] == if final(self).line()
                    * 160 <= i < final(self).line() * 160 + 160 {
                    pixel_shade(
                        old(memory)@,
                        i - final(self).line() * 160,
                        final(self).line(),
                        old(self).window_line(),
                        old(self).wy_hit() || old(memory)@.ram[WY_ADDRESS as int] <= final(self).line(),
                    )
                } else {
                    old(self).screen()[i]
                },
            !(final(self).line() < 144 && final(self).dot() == 80) ==> final(self).screen()
                == old(self).screen() && final(self).mode3_end() == old(self).mode3_end(),
    {
        self.dot = self.dot + 1;
        if self.dot == LINE_DOTS {
            self.dot = 0;
            self.line = self.line + 1;
            if self.line == FRAME_LINES {
                self.line = 0;
                self.window_line = 0;
            self.wy_hit = false;
                self.wy_hit = false;
            }
        }
        if self.line < 144 && self.dot == 80 {
            let ly = self.line;
            let length = self.render_line(memory, ly);
            self.mode3_end = 80 + length;
        }
        memory.write_raw(LY_ADDRESS, self.line as u8);
        if self.line == 144 && self.dot == 0 {
            let iflag = memory.read_raw(INTERRUPT_FLAG_ADDRESS);
            if iflag % 2 == 0 {
                memory.write_raw(INTERRUPT_FLAG_ADDRESS, iflag + 1);
            }
            self.frames = Ghost(self.frames@ + 1);
            self.frame_ready = true;
        }
        let mode: u8 = if self.line >= 144 {
            1
        } else if self.dot < 80 {
            2
        } else if self.dot < self.mode3_end {
            3
        } else {
            0
        };
        let stat = memory.read_raw(STAT_ADDRESS);
        let lyc_eq = memory.read_raw(LYC_ADDRESS) == self.line as u8;
        let new_stat = stat / 8 * 8 + (if lyc_eq { 4 } else { 0 }) + mode;
        memory.write_raw(STAT_ADDRESS, new_stat);
        let level = (stat / 8 % 2 == 1 && mode == 0) || (stat / 16 % 2 == 1 && mode == 1) || (stat
            / 32 % 2 == 1 && mode == 2) || (stat / 64 % 2 == 1 && lyc_eq);
        if level && !self.stat_line {
            let iflag = memory.read_raw(INTERRUPT_FLAG_ADDRESS);
            if iflag / 2 % 2 == 0 {
                memory.write_raw(INTERRUPT_FLAG_ADDRESS, iflag + 2);
            }
        }
        self.stat_line = level;
    }

    /// Advance the PPU by `cycles` T-cycles.  With the LCD off (LCDC bit 7
    /// clear) it is held at LY 0 in mode 0 with a cleared frame.
    #[verifier::rlimit(100)]
    #[verifier::spinoff_prover]
    pub fn render(&mut self, memory: &mut Memory, cycles: u8)
        requires
            old(self).wf(),
            old(memory).wf(),
        ensures
            final(self).wf(),
            final(memory).wf(),
            ppu_frame(old(memory)@, final(memory)@),
            requests_kept(
                old(memory)@.ram[INTERRUPT_FLAG_ADDRESS as int],
                final(memory)@.ram[INTERRUPT_FLAG_ADDRESS as int],
            ),
            bit(old(memory)@.ram[LCDC_ADDRESS as int], 7) ==> {
                &&& final(self).position() == (old(self).position() + cycles) % (FRAME_DOTS as int)
                &&& final(self).frames() == old(self).frames() + vblanks_between(
                    old(self).position(),
                    cycles as int,
                )
                &&& final(self).lcd_on()
                &&& final(self).frame_ready() == (old(self).frame_ready() || vblanks_between(
                    old(self).position(),
                    cycles as int,
                ) > 0)
                &&& ppu_frame(old(memory)@, final(memory)@)
                &&& (forall|ly: int| 0 <= ly < 144 ==> !drawn_within(old(self).position(), cycles as int, ly))
                    ==> final(self).mode3_end() == old(self).mode3_end()
                &&& forall|ly: int|
                    0 <= ly < 144 && drawn_within(old(self).position(), cycles as int, ly)
                        ==> row_drawn(final(self).screen(), final(memory)@, ly)
                &&& final(memory)@.ram[INTERRUPT_FLAG_ADDRESS as int] / 4 == old(memory)@.ram[INTERRUPT_FLAG_ADDRESS as int] / 4
                &&& (final(memory)@.ram[INTERRUPT_FLAG_ADDRESS as int] % 2 == 1) == (old(memory)@.ram[INTERRUPT_FLAG_ADDRESS as int] % 2 == 1
                    || vblanks_between(old(self).position(), cycles as int) > 0)
                &&& old(memory)@.ram[INTERRUPT_FLAG_ADDRESS as int] / 2 % 2 == 1 ==> final(memory)@.ram[INTERRUPT_FLAG_ADDRESS as int] / 2 % 2 == 1
                &&& cycles > 0 ==> {
                    &&& final(memory)@.ram[LY_ADDRESS as int] == final(self).line()
                    &&& final(memory)@.ram[STAT_ADDRESS as int] % 4 == mode_at(
                        final(self).line(),
                        final(self).dot(),
                        final(self).mode3_end(),
                    )
                    &&& final(memory)@.ram[STAT_ADDRESS as int] / 8 == old(memory)@.ram[STAT_ADDRESS as int] / 8
                    &&& (final(memory)@.ram[STAT_ADDRESS as int] / 4 % 2 == 1) == (old(memory)@.ram[LYC_ADDRESS as int] as int == final(self).line())
                }
            },
            !bit(old(memory)@.ram[LCDC_ADDRESS as int], 7) ==> {
                &&& final(self).position() == 0
                &&& final(self).frames() == old(self).frames()
                &&& final(memory)@.ram[LY_ADDRESS as int] == 0
                &&& final(memory)@.ram[STAT_ADDRESS as int] % 4 == 0
                &&& final(memory)@.ram[STAT_ADDRESS as int] / 4 == old(memory)@.ram[STAT_ADDRESS as int] / 4
                &&& final(memory)@.ram[INTERRUPT_FLAG_ADDRESS as int] == old(memory)@.ram[INTERRUPT_FLAG_ADDRESS as int]
                &&& ppu_frame(old(memory)@, final(memory)@)
                &&& !final(self).lcd_on()
                &&& final(self).frame_ready() == old(self).frame_ready()
                &&& forall|i: int| 0 <= i < PIXEL_COUNT ==> #[trigger] final(self).screen()[i] == 0
            },
    {
        let lcdc = memory.read_raw(LCDC_ADDRESS);
        if lcdc / 128 % 2 == 0 {
            if self.enabled {
                let mut i: usize = 0;
                while i < PIXEL_COUNT
                    invariant
                        i <= PIXEL_COUNT,
                        self.screen@.len() == PIXEL_COUNT,
                        self.frames == old(self).frames,
                        self.mode3_end == old(self).mode3_end,
                        self.frame_ready == old(self).frame_ready,
                        forall|k: int| 0 <= k < i ==> #[trigger] self.screen@[k] == 0,
                    decreases PIXEL_COUNT - i,
                {
                    self.screen.set(i, 0);
                    i = i + 1;
                }
            }
            self.enabled = false;
            self.line = 0;
            self.dot = 0;
            self.window_line = 0;
            self.wy_hit = false;
            self.stat_line = false;
            memory.write_raw(LY_ADDRESS, 0);
            let stat = memory.read_raw(STAT_ADDRESS);
            memory.write_raw(STAT_ADDRESS, stat - stat % 4);
            proof {
                let a = memory@.ram[INTERRUPT_FLAG_ADDRESS as int];
                assert(a & a == a) by (bit_vector);
            }
            return;
        }
        if !self.enabled {
            self.enabled = true;
            self.line = 0;
            self.dot = 0;
            self.window_line = 0;
            self.wy_hit = false;
        }
        let ghost start = self.position();
        let ghost frames_before = self.frames();
        let mut i: u8 = 0;
        while i < cycles
            invariant
                i <= cycles,
                self.wf(),
                memory.wf(),
                self.enabled,
                start == old(self).position(),
                frames_before == old(self).frames(),
                0 <= start < FRAME_DOTS,
                self.position() == (start + i) % (FRAME_DOTS as int),
                self.frames() == frames_before + vblanks_between(start, i as int),
                ppu_frame(old(memory)@, memory@),
                memory@.ram[INTERRUPT_FLAG_ADDRESS as int] / 4 == old(memory)@.ram[INTERRUPT_FLAG_ADDRESS as int] / 4,
                (memory@.ram[INTERRUPT_FLAG_ADDRESS as int] % 2 == 1) == (old(memory)@.ram[INTERRUPT_FLAG_ADDRESS as int] % 2 == 1
                    || vblanks_between(start, i as int) > 0),
                old(memory)@.ram[INTERRUPT_FLAG_ADDRESS as int] / 2 % 2 == 1 ==> memory@.ram[INTERRUPT_FLAG_ADDRESS as int] / 2 % 2 == 1,
                self.frame_ready() == (old(self).frame_ready() || vblanks_between(start, i as int) > 0),
                i > 0 ==> {
                    &&& memory@.ram[LY_ADDRESS as int] == self.line()
                    &&& memory@.ram[STAT_ADDRESS as int] % 4 == mode_at(self.line(), self.dot(), self.mode3_end())
                    &&& memory@.ram[STAT_ADDRESS as int] / 8 == old(memory)@.ram[STAT_ADDRESS as int] / 8
                    &&& (memory@.ram[STAT_ADDRESS as int] / 4 % 2 == 1) == (old(memory)@.ram[LYC_ADDRESS as int] as int == self.line())
                },
                memory@.ram[LCDC_ADDRESS as int] == lcdc,
                i == 0 ==> memory@.ram[STAT_ADDRESS as int] == old(memory)@.ram[STAT_ADDRESS as int],
                forall|ly: int|
                    0 <= ly < 144 && drawn_within(start, i as int, ly) ==> row_drawn(
                        self.screen(),
                        memory@,
                        ly,
                    ),
                (forall|ly: int| 0 <= ly < 144 ==> !drawn_within(start, i as int, ly))
                    ==> self.mode3_end() == old(self).mode3_end(),
            decreases cycles - i,
        {
            proof {
                lemma_vblank_step(start, i as int);
            }
            let ghost stat_before = memory@.ram[STAT_ADDRESS as int];
            let ghost prev_screen = self.screen();
            let ghost prev_mem = memory@;
            let ghost prev_wl = self.window_line();
            let ghost prev_latch = self.wy_hit();
            proof {
                self.lemma_layout();
            }
            assert(memory@.ram[LYC_ADDRESS as int] == old(memory)@.ram[LYC_ADDRESS as int]);
            self.step_dot(memory);
            proof {
                self.lemma_layout();
                self.lemma_rows_step(
                    start,
                    i as int,
                    prev_screen,
                    prev_mem,
                    memory@,
                    prev_wl,
                    prev_latch || prev_mem.ram[WY_ADDRESS as int] <= self.line(),
                );
                if self.line() < 144 && self.dot() == 80 {
                    lemma_fundamental_div_mod_converse(self.position(), 456, self.line(), 80);
                    assert(((start + (i + 1)) % (FRAME_DOTS as int)) == self.line() * 456 + 80);
                    assert(drawn_within(start, i + 1, self.line()));
                } else {
                    assert forall|ly: int| 0 <= ly < 144 && drawn_within(start, i as int, ly) implies drawn_within(start, i + 1, ly) by {
                        let k = choose|k: int| 1 <= k <= i && #[trigger] ((start + k) % (FRAME_DOTS as int)) == ly * 456 + 80;
                        assert(((start + k) % (FRAME_DOTS as int)) == ly * 456 + 80);
                    }
                }
            }
            proof {
                lemma_stat_value(
                    stat_before,
                    mode_at(self.line(), self.dot(), self.mode3_end()),
                    old(memory)@.ram[LYC_ADDRESS as int] as int == self.line(),
                );
            }
            i = i + 1;
        }
        proof {
            let a = old(memory)@.ram[INTERRUPT_FLAG_ADDRESS as int];
            let b = memory@.ram[INTERRUPT_FLAG_ADDRESS as int];
            assert(b / 4 == a / 4 && (a % 2 == 1 ==> b % 2 == 1) && (a / 2 % 2 == 1 ==> b / 2 % 2
                == 1) ==> a & b == a) by (bit_vector);
        }
    }
}

} // verus!
