//! The picture processing unit: LCD timing, the video registers, and the
//! background, window and sprite renderer that fills a 160x144 framebuffer.
use vstd::prelude::*;

verus! {

pub const LCD_WIDTH: usize = 160;

pub const LCD_HEIGHT: usize = 144;

pub const TILE_SIZE: usize = 8;

pub const TILE_MAP_SIZE: usize = 32;

pub const VRAM_SIZE: usize = 0x2000;

pub const OAM_SIZE: usize = 0xA0;

/// Number of pixels in the framebuffer (`LCD_WIDTH * LCD_HEIGHT`).
pub const FRAMEBUFFER_SIZE: usize = 23040;

pub const LCDC_ADDR: u16 = 0xFF40;

pub const STAT_ADDR: u16 = 0xFF41;

pub const SCY_ADDR: u16 = 0xFF42;

pub const SCX_ADDR: u16 = 0xFF43;

pub const LY_ADDR: u16 = 0xFF44;

pub const LYC_ADDR: u16 = 0xFF45;

pub const DMA_ADDR: u16 = 0xFF46;

pub const BGP_ADDR: u16 = 0xFF47;

pub const OBP0_ADDR: u16 = 0xFF48;

pub const OBP1_ADDR: u16 = 0xFF49;

pub const WY_ADDR: u16 = 0xFF4A;

pub const WX_ADDR: u16 = 0xFF4B;

/// The LCD mode (STAT bits 1-0: HBlank 0, VBlank 1, OAMSearch 2, Drawing 3).
#[derive(Debug, Clone, Copy, PartialEq, Eq, Structural)]
pub enum PPUMode {
    HBlank,
    VBlank,
    OAMSearch,
    Drawing,
}

/// The number of a mode in STAT bits 1-0.
pub open spec fn mode_number(m: PPUMode) -> u8 {
    match m {
        PPUMode::HBlank => 0,
        PPUMode::VBlank => 1,
        PPUMode::OAMSearch => 2,
        PPUMode::Drawing => 3,
    }
}

fn mode_bits(m: PPUMode) -> (r: u8)
    ensures
        r == mode_number(m),
{
    match m {
        PPUMode::HBlank => 0,
        PPUMode::VBlank => 1,
        PPUMode::OAMSearch => 2,
        PPUMode::Drawing => 3,
    }
}

/// The LCD control register (LCDC, 0xFF40), bit 7 down to bit 0.
#[derive(Debug, Clone, Copy)]
pub struct LCDControl {
    pub lcd_enable: bool,
    pub window_tile_map: bool,
    pub window_enable: bool,
    pub bg_window_tile_data: bool,
    pub bg_tile_map: bool,
    pub sprite_size: bool,
    pub sprite_enable: bool,
    pub bg_window_enable: bool,
}

/// The LCD status register (STAT, 0xFF41): interrupt selects in bits 6-3, the
/// LYC=LY flag in bit 2 and the mode in bits 1-0.
#[derive(Debug, Clone, Copy)]
pub struct LCDStatus {
    pub lyc_interrupt: bool,
    pub oam_interrupt: bool,
    pub vblank_interrupt: bool,
    pub hblank_interrupt: bool,
    pub lyc_flag: bool,
    pub mode: PPUMode,
}

/// One entry of the object attribute memory.
#[derive(Debug, Clone, Copy)]
pub struct Sprite {
    pub y: u8,
    pub x: u8,
    pub tile: u8,
    pub flags: u8,
}

impl Sprite {
    /// Flag bit 7: the background's non-zero colours cover the sprite.
    pub fn priority(&self) -> (r: bool)
        ensures
            r == (self.flags & 0x80 != 0),
    {
        (self.flags & 0x80) != 0
    }

    /// Flag bit 6: the sprite is drawn upside down.
    pub fn y_flip(&self) -> (r: bool)
        ensures
            r == (self.flags & 0x40 != 0),
    {
        (self.flags & 0x40) != 0
    }

    /// Flag bit 5: the sprite is drawn mirrored.
    pub fn x_flip(&self) -> (r: bool)
        ensures
            r == (self.flags & 0x20 != 0),
    {
        (self.flags & 0x20) != 0
    }

    /// Flag bit 4: the sprite uses OBP1 rather than OBP0.
    pub fn palette(&self) -> (r: bool)
        ensures
            r == (self.flags & 0x10 != 0),
    {
        (self.flags & 0x10) != 0
    }
}

/// A 2-bit grey shade (0 White, 1 LightGray, 2 DarkGray, 3 Black).
#[derive(Debug, Clone, Copy, PartialEq, Eq, Structural)]
pub enum Color {
    White,
    LightGray,
    DarkGray,
    Black,
}

/// The shade with number `bits & 3`.
pub open spec fn color_of(bits: u8) -> Color {
    let b = bits & 0x3;
    if b == 0 {
        Color::White
    } else if b == 1 {
        Color::LightGray
    } else if b == 2 {
        Color::DarkGray
    } else {
        Color::Black
    }
}

/// The number of a shade.
pub open spec fn color_number(c: Color) -> u8 {
    match c {
        Color::White => 0,
        Color::LightGray => 1,
        Color::DarkGray => 2,
        Color::Black => 3,
    }
}

/// The RGB triple that a shade is displayed as.
pub open spec fn rgb_of(c: Color) -> (u8, u8, u8) {
    match c {
        Color::White => (255, 255, 255),
        Color::LightGray => (192, 192, 192),
        Color::DarkGray => (96, 96, 96),
        Color::Black => (0, 0, 0),
    }
}

fn color_bits(c: Color) -> (r: u8)
    ensures
        r == color_number(c),
{
    match c {
        Color::White => 0,
        Color::LightGray => 1,
        Color::DarkGray => 2,
        Color::Black => 3,
    }
}

impl Color {
    pub fn from_bits(bits: u8) -> (c: Color)
        ensures
            c == color_of(bits),
    {
        let b = bits & 0x3;
        if b == 0 {
            Color::White
        } else if b == 1 {
            Color::LightGray
        } else if b == 2 {
            Color::DarkGray
        } else {
            Color::Black
        }
    }

    pub fn to_rgb(self) -> (r: (u8, u8, u8))
        ensures
            r == rgb_of(self),
    {
        match self {
            Color::White => (255, 255, 255),
            Color::LightGray => (192, 192, 192),
            Color::DarkGray => (96, 96, 96),
            Color::Black => (0, 0, 0),
        }
    }
}

/// A palette: the shade that each of the four colour numbers shows as.
#[derive(Debug, Clone, Copy)]
pub struct Palette {
    pub colors: [Color; 4],
}

/// The palette that a palette register byte describes: colour number i shows as
/// the shade in bits 2i+1..2i.
pub open spec fn palette_of(byte: u8) -> Seq<Color> {
    seq![color_of(byte), color_of(byte >> 2u8), color_of(byte >> 4u8), color_of(byte >> 6u8)]
}

/// The palette register byte that a palette reads back as.
pub open spec fn palette_byte(colors: Seq<Color>) -> u8 {
    (color_number(colors[0]) + 4 * color_number(colors[1]) + 16 * color_number(colors[2]) + 64
        * color_number(colors[3])) as u8
}

impl Palette {
    /// The identity palette: colour number i shows as shade i.
    pub fn new() -> (p: Palette)
        ensures
            p.colors@ == seq![Color::White, Color::LightGray, Color::DarkGray, Color::Black],
    {
        let p = Palette { colors: [Color::White, Color::LightGray, Color::DarkGray, Color::Black] };
        proof {
            assert(p.colors@ =~= seq![Color::White, Color::LightGray, Color::DarkGray, Color::Black]);
        }
        p
    }

    pub fn from_byte(byte: u8) -> (p: Palette)
        ensures
            p.colors@ == palette_of(byte),
    {
        let p = Palette {
            colors: [
                Color::from_bits(byte),
                Color::from_bits(byte >> 2),
                Color::from_bits(byte >> 4),
                Color::from_bits(byte >> 6),
            ],
        };
        proof {
            assert(p.colors@ =~= palette_of(byte));
        }
        p
    }

    /// The shade of colour number `index & 3`.
    pub fn get_color(&self, index: u8) -> (c: Color)
        ensures
            c == self.colors@[(index & 0x3) as int],
    {
        proof {
            assert(index & 0x3 < 4) by (bit_vector);
        }
        self.colors[(index & 0x3) as usize]
    }
}

proof fn lemma_color_number(b: u8)
    ensures
        color_number(color_of(b)) == b & 3,
{
    assert(b & 3 < 4) by (bit_vector);
}

/// Reading a palette register back gives the byte that was written.
pub proof fn lemma_palette_round_trip(byte: u8)
    ensures
        palette_byte(palette_of(byte)) == byte,
{
    let c0 = byte & 3;
    let c1 = (byte >> 2u8) & 3;
    let c2 = (byte >> 4u8) & 3;
    let c3 = (byte >> 6u8) & 3;
    lemma_color_number(byte);
    lemma_color_number(byte >> 2u8);
    lemma_color_number(byte >> 4u8);
    lemma_color_number(byte >> 6u8);
    assert(c0 + 4 * c1 + 16 * c2 + 64 * c3 == byte) by (bit_vector)
        requires
            c0 == byte & 3,
            c1 == (byte >> 2u8) & 3,
            c2 == (byte >> 4u8) & 3,
            c3 == (byte >> 6u8) & 3,
    ;
}

/// The picture processing unit.
pub struct PPU {
    pub lcdc: LCDControl,
    pub stat: LCDStatus,
    pub scy: u8,
    pub scx: u8,
    pub ly: u8,
    pub lyc: u8,
    pub dma: u8,
    pub bgp: Palette,
    pub obp0: Palette,
    pub obp1: Palette,
    pub wy: u8,
    pub wx: u8,
    /// Video RAM (0x8000-0x9FFF).
    pub vram: [u8; 0x2000],
    /// Object attribute memory (0xFE00-0xFE9F): 40 sprites of 4 bytes.
    pub oam: [u8; 0xA0],
    /// Cycles spent in the current mode.
    pub mode_clock: u32,
    pub framebuffer: [Color; 23040],
    /// Whether the background or window drew a non-zero colour number at each
    /// pixel of the current line.
    pub bg_priority: [bool; 160],
    pub vblank_interrupt: bool,
    pub stat_interrupt: bool,
}

/// The state of the picture processing unit, with its memories as sequences.
pub struct PPUView {
    pub lcdc: LCDControl,
    pub stat: LCDStatus,
    pub scy: u8,
    pub scx: u8,
    pub ly: u8,
    pub lyc: u8,
    pub dma: u8,
    pub bgp: Seq<Color>,
    pub obp0: Seq<Color>,
    pub obp1: Seq<Color>,
    pub wy: u8,
    pub wx: u8,
    pub vram: Seq<u8>,
    pub oam: Seq<u8>,
    pub mode_clock: u32,
    pub framebuffer: Seq<Color>,
    pub bg_priority: Seq<bool>,
    pub vblank_interrupt: bool,
    pub stat_interrupt: bool,
}

impl View for PPU {
    type V = PPUView;

    open spec fn view(&self) -> PPUView {
        PPUView {
            lcdc: self.lcdc,
            stat: self.stat,
            scy: self.scy,
            scx: self.scx,
            ly: self.ly,
            lyc: self.lyc,
            dma: self.dma,
            bgp: self.bgp.colors@,
            obp0: self.obp0.colors@,
            obp1: self.obp1.colors@,
            wy: self.wy,
            wx: self.wx,
            vram: self.vram@,
            oam: self.oam@,
            mode_clock: self.mode_clock,
            framebuffer: self.framebuffer@,
            bg_priority: self.bg_priority@,
            vblank_interrupt: self.vblank_interrupt,
            stat_interrupt: self.stat_interrupt,
        }
    }
}

/// The LCDC byte for a control register.
pub open spec fn lcdc_byte(c: LCDControl) -> u8 {
    ((if c.lcd_enable { 0x80int } else { 0 }) + (if c.window_tile_map { 0x40int } else { 0 }) + (
    if c.window_enable {
        0x20int
    } else {
        0
    }) + (if c.bg_window_tile_data { 0x10int } else { 0 }) + (if c.bg_tile_map {
        0x08int
    } else {
        0
    }) + (if c.sprite_size { 0x04int } else { 0 }) + (if c.sprite_enable { 0x02int } else { 0 })
        + (if c.bg_window_enable { 0x01int } else { 0 })) as u8
}

/// The control register that an LCDC byte sets: each flag is its bit.
pub open spec fn lcdc_of(b: u8) -> LCDControl {
    LCDControl {
        lcd_enable: b & 0x80 != 0,
        window_tile_map: b & 0x40 != 0,
        window_enable: b & 0x20 != 0,
        bg_window_tile_data: b & 0x10 != 0,
        bg_tile_map: b & 0x08 != 0,
        sprite_size: b & 0x04 != 0,
        sprite_enable: b & 0x02 != 0,
        bg_window_enable: b & 0x01 != 0,
    }
}

/// The STAT byte for a status register (bit 7 reads as 0).
pub open spec fn stat_byte(s: LCDStatus) -> u8 {
    ((if s.lyc_interrupt { 0x40int } else { 0 }) + (if s.oam_interrupt { 0x20int } else { 0 }) + (
    if s.vblank_interrupt {
        0x10int
    } else {
        0
    }) + (if s.hblank_interrupt { 0x08int } else { 0 }) + (if s.lyc_flag { 0x04int } else { 0 })
        + mode_number(s.mode)) as u8
}

/// The address in VRAM (offset from 0x8000) of the first byte of tile `tile_id`:
/// tiles 0-255 from 0x8000 in unsigned mode, tiles -128..127 around 0x9000 in
/// signed mode.
pub open spec fn tile_address(unsigned_mode: bool, tile_id: u8) -> int {
    if unsigned_mode {
        tile_id * 16
    } else {
        0x1000 + (if tile_id < 128 { tile_id as int } else { tile_id - 256 }) * 16
    }
}

/// Bit `bit` of `b`, as 0 or 1.
pub open spec fn bit_of(b: u8, bit: int) -> u8 {
    (b >> (bit as u8)) & 1
}

/// The row of the screen (index of its first pixel in the framebuffer).
pub open spec fn row_start(line: int) -> int {
    line * 160
}

impl PPUView {
    /// The colour number (0-3) of pixel (`x`, `y`) of tile `tile_id`: row `y` is two
    /// bytes, the second holding the high bits; pixel 0 is bit 7.
    pub open spec fn tile_pixel(self, tile_id: u8, x: int, y: int) -> u8 {
        let addr = tile_address(self.lcdc.bg_window_tile_data, tile_id);
        let low = self.vram[addr + y * 2];
        let high = self.vram[addr + y * 2 + 1];
        (bit_of(high, 7 - x) * 2 + bit_of(low, 7 - x)) as u8
    }

    /// The colour number of the tile-map entry at (`col`, `row`) of the map at
    /// `map_base`, pixel (`tx`, `ty`) of that tile.
    pub open spec fn map_pixel(self, map_base: int, row: int, col: int, tx: int, ty: int) -> u8 {
        let tile_id = self.vram[map_base + (row % 32) * 32 + (col % 32)];
        self.tile_pixel(tile_id, tx, ty)
    }

    /// The background colour number at screen pixel `px` of `line`: the map is
    /// scrolled by SCX/SCY and wraps at 256 pixels.
    pub open spec fn bg_index(self, line: int, px: int) -> u8 {
        let sy = (self.scy + line) % 256;
        let sx = (self.scx + px) % 256;
        let base = if self.lcdc.bg_tile_map { 0x1C00int } else { 0x1800int };
        self.map_pixel(base, sy / 8, sx / 8, sx % 8, sy % 8)
    }

    /// The column of the window that screen pixel `px` shows (WX is offset by 7).
    pub open spec fn window_x(self, px: int) -> int {
        (px - (self.wx - 7)) % 256
    }

    /// The window colour number at screen pixel `px` of `line` (for `line >= WY`).
    pub open spec fn window_index(self, line: int, px: int) -> u8 {
        let wy = (line - self.wy) % 256;
        let wx = self.window_x(px);
        let base = if self.lcdc.window_tile_map { 0x1C00int } else { 0x1800int };
        self.map_pixel(base, wy / 8, wx / 8, wx % 8, wy % 8)
    }

    /// The background layer of `line` drawn: each pixel takes the BGP shade of its
    /// colour number, and its priority is whether that number is non-zero.
    pub open spec fn bg_drawn(self, line: int) -> PPUView {
        PPUView {
            framebuffer: Seq::new(
                self.framebuffer.len(),
                |i: int|
                    if row_start(line) <= i < row_start(line) + 160 {
                        self.bgp[self.bg_index(line, i - row_start(line)) as int]
                    } else {
                        self.framebuffer[i]
                    },
            ),
            bg_priority: Seq::new(
                self.bg_priority.len(),
                |i: int| self.bg_index(line, i) != 0,
            ),
            ..self
        }
    }

    /// The window layer of `line` drawn over the pixels that it covers (none when
    /// WY is below the line).
    pub open spec fn window_drawn(self, line: int) -> PPUView {
        if self.wy > line {
            self
        } else {
            PPUView {
                framebuffer: Seq::new(
                    self.framebuffer.len(),
                    |i: int|
                        if row_start(line) <= i < row_start(line) + 160 && self.window_x(
                            i - row_start(line),
                        ) < 160 {
                            self.bgp[self.window_index(line, i - row_start(line)) as int]
                        } else {
                            self.framebuffer[i]
                        },
                ),
                bg_priority: Seq::new(
                    self.bg_priority.len(),
                    |i: int|
                        if self.window_x(i) < 160 {
                            self.window_index(line, i) != 0
                        } else {
                            self.bg_priority[i]
                        },
                ),
                ..self
            }
        }
    }

    /// Sprite `index` of the object attribute memory.
    pub open spec fn oam_sprite(self, index: int) -> Sprite {
        Sprite {
            y: self.oam[4 * index],
            x: self.oam[4 * index + 1],
            tile: self.oam[4 * index + 2],
            flags: self.oam[4 * index + 3],
        }
    }

    /// The sprite height in lines (8 or 16, after LCDC bit 2).
    pub open spec fn sprite_height(self) -> int {
        if self.lcdc.sprite_size {
            16
        } else {
            8
        }
    }

    /// The sprites among the first `n` OAM entries that cover `line`, in OAM order.
    pub open spec fn sprites_on_line(self, line: int, n: int) -> Seq<Sprite>
        decreases n,
    {
        if n <= 0 {
            Seq::empty()
        } else {
            let earlier = self.sprites_on_line(line, n - 1);
            if sprite_covers(self.oam_sprite(n - 1), line, self.sprite_height()) {
                earlier.push(self.oam_sprite(n - 1))
            } else {
                earlier
            }
        }
    }

    /// The shade that `sprite` draws at screen pixel `px` of `line`, if it draws
    /// one there: pixels of colour number 0 are transparent, and a sprite behind
    /// the background gives way where the background drew a non-zero number.
    pub open spec fn sprite_pixel(self, sprite: Sprite, line: int, px: int) -> Option<Color> {
        let sx = (sprite.x - 8) % 256;
        let k = px - sx;
        if sx >= 160 || k < 0 || k >= 8 || px >= 160 {
            None
        } else {
            let row = self.sprite_row(sprite, line);
            let tx = if sprite.flags & 0x20 != 0 {
                7 - k
            } else {
                k
            };
            let c = self.tile_pixel(self.sprite_tile(sprite, row), tx, row % 8);
            if c == 0 {
                None
            } else if sprite.flags & 0x80 != 0 && self.bg_priority[px] {
                None
            } else {
                let pal = if sprite.flags & 0x10 != 0 {
                    self.obp1
                } else {
                    self.obp0
                };
                Some(pal[c as int])
            }
        }
    }

    /// The row of `sprite` that `line` shows (counted from the bottom when the
    /// sprite is flipped vertically).
    pub open spec fn sprite_row(self, sprite: Sprite, line: int) -> int {
        let offset = (line - (sprite.y - 16) % 256) % 256;
        if sprite.flags & 0x40 != 0 {
            self.sprite_height() - 1 - offset
        } else {
            offset
        }
    }

    /// The tile that holds `row` of `sprite`: 8x16 sprites use an even tile for
    /// their top half and the next one for the bottom half.
    pub open spec fn sprite_tile(self, sprite: Sprite, row: int) -> u8 {
        let base = if self.sprite_height() == 16 {
            sprite.tile & 0xFE
        } else {
            sprite.tile
        };
        if self.sprite_height() == 16 && row >= 8 {
            (base + 1) as u8
        } else {
            base
        }
    }

    /// `sprite` drawn on `line`.
    pub open spec fn sprite_drawn(self, sprite: Sprite, line: int) -> PPUView {
        PPUView {
            framebuffer: Seq::new(
                self.framebuffer.len(),
                |i: int|
                    if row_start(line) <= i < row_start(line) + 160 {
                        match self.sprite_pixel(sprite, line, i - row_start(line)) {
                            Some(c) => c,
                            None => self.framebuffer[i],
                        }
                    } else {
                        self.framebuffer[i]
                    },
            ),
            ..self
        }
    }

    /// `sprites` drawn on `line` one after the other.
    pub open spec fn sprites_drawn(self, sprites: Seq<Sprite>, line: int) -> PPUView
        decreases sprites.len(),
    {
        if sprites.len() == 0 {
            self
        } else {
            self.sprites_drawn(sprites.drop_last(), line).sprite_drawn(sprites.last(), line)
        }
    }

    /// The sprites that `line` shows: those that cover it, ordered by X (OAM order
    /// among equal X), at most ten.
    pub open spec fn line_sprites(self, line: int) -> Seq<Sprite> {
        let sorted = sort_by_x(self.sprites_on_line(line, 40));
        if sorted.len() > 10 {
            sorted.take(10)
        } else {
            sorted
        }
    }

    /// The current line (LY) rendered into the framebuffer: priorities cleared,
    /// then the background, the window and the sprites, each when enabled. Lines
    /// from 144 on are not drawn.
    #[verifier::opaque]
    pub open spec fn rendered(self) -> PPUView {
        if self.ly >= 144 {
            self
        } else {
            let line = self.ly as int;
            let p1 = PPUView { bg_priority: Seq::new(160, |i: int| false), ..self };
            let p2 = if self.lcdc.bg_window_enable {
                p1.bg_drawn(line)
            } else {
                p1
            };
            let p3 = if self.lcdc.window_enable && self.lcdc.bg_window_enable {
                p2.window_drawn(line)
            } else {
                p2
            };
            if self.lcdc.sprite_enable {
                p3.sprites_drawn(p3.line_sprites(line), line)
            } else {
                p3
            }
        }
    }

    /// No panic in a step of `cycles`: the mode clock does not overflow, and LY is
    /// not 255 when a line ends.
    pub open spec fn step_ok(self, cycles: u32) -> bool {
        self.lcdc.lcd_enable ==> {
            &&& self.mode_clock + cycles <= u32::MAX
            &&& (self.stat.mode == PPUMode::HBlank && self.mode_clock + cycles >= 204) ==> self.ly
                < 255
            &&& (self.stat.mode == PPUMode::VBlank && self.mode_clock + cycles >= 456) ==> self.ly
                < 255
        }
    }

    /// The timing invariant that every operation keeps: the mode clock is below a
    /// whole line (456 cycles), LY is at most 153, and below 144 outside V-blank.
    pub open spec fn inv(self) -> bool {
        &&& self.mode_clock < 456
        &&& self.ly <= 153
        &&& self.stat.mode != PPUMode::VBlank ==> self.ly < 144
    }

    /// The STAT interrupt request after LY changes to `self.ly`: the LYC=LY flag
    /// is updated and requests the interrupt when its select bit is set.
    pub open spec fn lyc_checked(self) -> PPUView {
        let flag = self.ly == self.lyc;
        PPUView {
            stat: LCDStatus { lyc_flag: flag, ..self.stat },
            stat_interrupt: self.stat_interrupt || (flag && self.stat.lyc_interrupt),
            ..self
        }
    }

    /// The unit after `cycles` CPU cycles: OAM search lasts 80 cycles, drawing 172
    /// (the line is rendered as it ends), H-blank 204 and each V-blank line 456;
    /// the mode's STAT select bits and LYC=LY request the STAT interrupt, and the
    /// start of V-blank (LY 144) requests the V-blank interrupt. A mode that has
    /// not run its time only counts the cycles; a disabled LCD does nothing.
    #[verifier::opaque]
    pub open spec fn stepped(self, cycles: u32) -> PPUView {
        let clock = self.mode_clock + cycles;
        if !self.lcdc.lcd_enable {
            self
        } else {
            match self.stat.mode {
                PPUMode::OAMSearch => {
                    if clock >= 80 {
                        PPUView {
                            mode_clock: 0,
                            stat: LCDStatus { mode: PPUMode::Drawing, ..self.stat },
                            ..self
                        }
                    } else {
                        PPUView { mode_clock: clock as u32, ..self }
                    }
                },
                PPUMode::Drawing => {
                    if clock >= 172 {
                        let q = PPUView {
                            mode_clock: 0,
                            stat: LCDStatus { mode: PPUMode::HBlank, ..self.stat },
                            ..self
                        }.rendered();
                        PPUView {
                            stat_interrupt: q.stat_interrupt || self.stat.hblank_interrupt,
                            ..q
                        }
                    } else {
                        PPUView { mode_clock: clock as u32, ..self }
                    }
                },
                PPUMode::HBlank => {
                    if clock >= 204 {
                        let ly = (self.ly + 1) as u8;
                        let q = if ly == 144 {
                            PPUView {
                                mode_clock: 0,
                                ly,
                                stat: LCDStatus { mode: PPUMode::VBlank, ..self.stat },
                                vblank_interrupt: true,
                                stat_interrupt: self.stat_interrupt || self.stat.vblank_interrupt,
                                ..self
                            }
                        } else {
                            PPUView {
                                mode_clock: 0,
                                ly,
                                stat: LCDStatus { mode: PPUMode::OAMSearch, ..self.stat },
                                stat_interrupt: self.stat_interrupt || self.stat.oam_interrupt,
                                ..self
                            }
                        };
                        q.lyc_checked()
                    } else {
                        PPUView { mode_clock: clock as u32, ..self }
                    }
                },
                PPUMode::VBlank => {
                    if clock >= 456 {
                        let ly = (self.ly + 1) as u8;
                        let q = if ly > 153 {
                            PPUView {
                                mode_clock: 0,
                                ly: 0,
                                stat: LCDStatus { mode: PPUMode::OAMSearch, ..self.stat },
                                stat_interrupt: self.stat_interrupt || self.stat.oam_interrupt,
                                ..self
                            }
                        } else {
                            PPUView { mode_clock: 0, ly, ..self }
                        };
                        q.lyc_checked()
                    } else {
                        PPUView { mode_clock: clock as u32, ..self }
                    }
                },
            }
        }
    }

    /// What the video register at `addr` reads as (0xFF outside 0xFF40-0xFF4B).
    #[verifier::opaque]
    pub open spec fn register_value(self, addr: u16) -> u8 {
        if addr == LCDC_ADDR {
            lcdc_byte(self.lcdc)
        } else if addr == STAT_ADDR {
            stat_byte(self.stat)
        } else if addr == SCY_ADDR {
            self.scy
        } else if addr == SCX_ADDR {
            self.scx
        } else if addr == LY_ADDR {
            self.ly
        } else if addr == LYC_ADDR {
            self.lyc
        } else if addr == DMA_ADDR {
            self.dma
        } else if addr == BGP_ADDR {
            palette_byte(self.bgp)
        } else if addr == OBP0_ADDR {
            palette_byte(self.obp0)
        } else if addr == OBP1_ADDR {
            palette_byte(self.obp1)
        } else if addr == WY_ADDR {
            self.wy
        } else if addr == WX_ADDR {
            self.wx
        } else {
            0xFF
        }
    }

    /// The unit after `value` is written to the video register at `addr`. LY is
    /// read-only, as are STAT's LYC=LY flag and mode bits; DMA only stores the byte.
    #[verifier::opaque]
    pub open spec fn after_register_write(self, addr: u16, value: u8) -> PPUView {
        if addr == LCDC_ADDR {
            PPUView { lcdc: lcdc_of(value), ..self }
        } else if addr == STAT_ADDR {
            PPUView {
                stat: LCDStatus {
                    lyc_interrupt: value & 0x40 != 0,
                    oam_interrupt: value & 0x20 != 0,
                    vblank_interrupt: value & 0x10 != 0,
                    hblank_interrupt: value & 0x08 != 0,
                    ..self.stat
                },
                ..self
            }
        } else if addr == SCY_ADDR {
            PPUView { scy: value, ..self }
        } else if addr == SCX_ADDR {
            PPUView { scx: value, ..self }
        } else if addr == LYC_ADDR {
            PPUView { lyc: value, ..self }
        } else if addr == DMA_ADDR {
            PPUView { dma: value, ..self }
        } else if addr == BGP_ADDR {
            self.with_bgp(value)
        } else if addr == OBP0_ADDR {
            self.with_obp0(value)
        } else if addr == OBP1_ADDR {
            self.with_obp1(value)
        } else if addr == WY_ADDR {
            PPUView { wy: value, ..self }
        } else if addr == WX_ADDR {
            PPUView { wx: value, ..self }
        } else {
            self
        }
    }

    /// The unit with BGP set from a palette byte.
    pub open spec fn with_bgp(self, value: u8) -> PPUView {
        PPUView { bgp: palette_of(value), ..self }
    }

    pub open spec fn with_obp0(self, value: u8) -> PPUView {
        PPUView { obp0: palette_of(value), ..self }
    }

    pub open spec fn with_obp1(self, value: u8) -> PPUView {
        PPUView { obp1: palette_of(value), ..self }
    }
}

impl PPUView {
    /// The state at power-on: LCDC reads 0x91 (LCD on, unsigned tile data,
    /// background on), OAM search on line 0, identity palettes, zeroed memories and
    /// a white screen.
    pub open spec fn power_on() -> PPUView {
        PPUView {
            lcdc: LCDControl {
                lcd_enable: true,
                window_tile_map: false,
                window_enable: false,
                bg_window_tile_data: true,
                bg_tile_map: false,
                sprite_size: false,
                sprite_enable: false,
                bg_window_enable: true,
            },
            stat: LCDStatus {
                lyc_interrupt: false,
                oam_interrupt: false,
                vblank_interrupt: false,
                hblank_interrupt: false,
                lyc_flag: false,
                mode: PPUMode::OAMSearch,
            },
            scy: 0,
            scx: 0,
            ly: 0,
            lyc: 0,
            dma: 0,
            bgp: seq![Color::White, Color::LightGray, Color::DarkGray, Color::Black],
            obp0: seq![Color::White, Color::LightGray, Color::DarkGray, Color::Black],
            obp1: seq![Color::White, Color::LightGray, Color::DarkGray, Color::Black],
            wy: 0,
            wx: 0,
            vram: Seq::new(0x2000, |i: int| 0u8),
            oam: Seq::new(0xA0, |i: int| 0u8),
            mode_clock: 0,
            framebuffer: Seq::new(23040, |i: int| Color::White),
            bg_priority: Seq::new(160, |i: int| false),
            vblank_interrupt: false,
            stat_interrupt: false,
        }
    }
}

impl PPU {
    pub fn new() -> (p: PPU)
        ensures
            p@ == PPUView::power_on(),
    {
        let p = PPU {
            lcdc: LCDControl {
                lcd_enable: true,
                window_tile_map: false,
                window_enable: false,
                bg_window_tile_data: true,
                bg_tile_map: false,
                sprite_size: false,
                sprite_enable: false,
                bg_window_enable: true,
            },
            stat: LCDStatus {
                lyc_interrupt: false,
                oam_interrupt: false,
                vblank_interrupt: false,
                hblank_interrupt: false,
                lyc_flag: false,
                mode: PPUMode::OAMSearch,
            },
            scy: 0,
            scx: 0,
            ly: 0,
            lyc: 0,
            dma: 0,
            bgp: Palette::new(),
            obp0: Palette::new(),
            obp1: Palette::new(),
            wy: 0,
            wx: 0,
            vram: [0u8; 0x2000],
            oam: [0u8; 0xA0],
            mode_clock: 0,
            framebuffer: [Color::White; 23040],
            bg_priority: [false; 160],
            vblank_interrupt: false,
            stat_interrupt: false,
        };
        proof {
            assert(p.vram@ =~= Seq::new(0x2000, |i: int| 0u8));
            assert(p.oam@ =~= Seq::new(0xA0, |i: int| 0u8));
            assert(p.framebuffer@ =~= Seq::new(23040, |i: int| Color::White));
            assert(p.bg_priority@ =~= Seq::new(160, |i: int| false));
        }
        p
    }

    /// Reads a video register.
    pub fn read_register(&self, addr: u16) -> (r: u8)
        ensures
            r == self@.register_value(addr),
    {
        reveal(PPUView::register_value);
        if addr == LCDC_ADDR {
            self.lcdc_to_byte()
        } else if addr == STAT_ADDR {
            self.stat_to_byte()
        } else if addr == SCY_ADDR {
            self.scy
        } else if addr == SCX_ADDR {
            self.scx
        } else if addr == LY_ADDR {
            self.ly
        } else if addr == LYC_ADDR {
            self.lyc
        } else if addr == DMA_ADDR {
            self.dma
        } else if addr == BGP_ADDR {
            self.palette_to_byte(&self.bgp)
        } else if addr == OBP0_ADDR {
            self.palette_to_byte(&self.obp0)
        } else if addr == OBP1_ADDR {
            self.palette_to_byte(&self.obp1)
        } else if addr == WY_ADDR {
            self.wy
        } else if addr == WX_ADDR {
            self.wx
        } else {
            0xFF
        }
    }

    /// Writes a video register.
    pub fn write_register(&mut self, addr: u16, value: u8)
        ensures
            final(self)@ == old(self)@.after_register_write(addr, value),
    {
        reveal(PPUView::after_register_write);
        let ghost old_view = self@;
        if addr == LCDC_ADDR {
            self.lcdc = self.byte_to_lcdc(value);
        } else if addr == STAT_ADDR {
            self.stat = self.byte_to_stat(value);
        } else if addr == SCY_ADDR {
            self.scy = value;
        } else if addr == SCX_ADDR {
            self.scx = value;
        } else if addr == LY_ADDR {
        } else if addr == LYC_ADDR {
            self.lyc = value;
        } else if addr == DMA_ADDR {
            self.dma = value;
        } else if addr == BGP_ADDR {
            self.bgp = Palette::from_byte(value);
        } else if addr == OBP0_ADDR {
            self.obp0 = Palette::from_byte(value);
        } else if addr == OBP1_ADDR {
            self.obp1 = Palette::from_byte(value);
        } else if addr == WY_ADDR {
            self.wy = value;
        } else if addr == WX_ADDR {
            self.wx = value;
        }
        assert(self@ =~= old_view.after_register_write(addr, value));
    }

    /// Advances the unit by `cycles` CPU cycles.
    pub fn step(&mut self, cycles: u32)
        requires
            old(self)@.step_ok(cycles),
        ensures
            final(self)@ == old(self)@.stepped(cycles),
    {
        reveal(PPUView::stepped);
        if !self.lcdc.lcd_enable {
            return;
        }
        match self.stat.mode {
            PPUMode::OAMSearch => self.step_oam_search(cycles),
            PPUMode::Drawing => self.step_drawing(cycles),
            PPUMode::HBlank => self.step_hblank(cycles),
            PPUMode::VBlank => self.step_vblank(cycles),
        }
    }

    fn step_oam_search(&mut self, cycles: u32)
        requires
            old(self)@.step_ok(cycles),
            old(self).lcdc.lcd_enable,
            old(self).stat.mode == PPUMode::OAMSearch,
        ensures
            final(self)@ == old(self)@.stepped(cycles),
    {
        reveal(PPUView::stepped);
        let ghost v0 = self@;
        self.mode_clock = self.mode_clock + cycles;
        if self.mode_clock >= 80 {
            self.mode_clock = 0;
            self.stat.mode = PPUMode::Drawing;
        }
        assert(self@ =~= v0.stepped(cycles));
    }

    fn step_drawing(&mut self, cycles: u32)
        requires
            old(self)@.step_ok(cycles),
            old(self).lcdc.lcd_enable,
            old(self).stat.mode == PPUMode::Drawing,
        ensures
            final(self)@ == old(self)@.stepped(cycles),
    {
        reveal(PPUView::stepped);
        let ghost v0 = self@;
        self.mode_clock = self.mode_clock + cycles;
        if self.mode_clock >= 172 {
            self.mode_clock = 0;
            self.stat.mode = PPUMode::HBlank;
            let ghost v1 = self@;
            assert(v1 =~= (PPUView {
                mode_clock: 0,
                stat: LCDStatus { mode: PPUMode::HBlank, ..v0.stat },
                ..v0
            }));
            self.render_scanline();
            if self.stat.hblank_interrupt {
                self.stat_interrupt = true;
            }
            proof {
                lemma_rendered_frame(v1);
            }
            assert(self@ =~= v0.stepped(cycles));
        } else {
            assert(self@ =~= v0.stepped(cycles));
        }
    }

    #[verifier::rlimit(60)]
    fn step_hblank(&mut self, cycles: u32)
        requires
            old(self)@.step_ok(cycles),
            old(self).lcdc.lcd_enable,
            old(self).stat.mode == PPUMode::HBlank,
        ensures
            final(self)@ == old(self)@.stepped(cycles),
    {
        reveal(PPUView::stepped);
        let ghost v0 = self@;
        self.mode_clock = self.mode_clock + cycles;
        if self.mode_clock >= 204 {
            self.mode_clock = 0;
            self.ly = self.ly + 1;
            if self.ly == 144 {
                self.stat.mode = PPUMode::VBlank;
                self.vblank_interrupt = true;
                if self.stat.vblank_interrupt {
                    self.stat_interrupt = true;
                }
            } else {
                self.stat.mode = PPUMode::OAMSearch;
                if self.stat.oam_interrupt {
                    self.stat_interrupt = true;
                }
            }
            let ghost q = self@;
            self.stat.lyc_flag = self.ly == self.lyc;
            if self.stat.lyc_flag && self.stat.lyc_interrupt {
                self.stat_interrupt = true;
            }
            assert(self@ =~= q.lyc_checked());
            assert(self@ =~= v0.stepped(cycles));
        } else {
            assert(self@ =~= v0.stepped(cycles));
        }
    }

    fn step_vblank(&mut self, cycles: u32)
        requires
            old(self)@.step_ok(cycles),
            old(self).lcdc.lcd_enable,
            old(self).stat.mode == PPUMode::VBlank,
        ensures
            final(self)@ == old(self)@.stepped(cycles),
    {
        reveal(PPUView::stepped);
        let ghost v0 = self@;
        self.mode_clock = self.mode_clock + cycles;
        if self.mode_clock >= 456 {
            self.mode_clock = 0;
            self.ly = self.ly + 1;
            if self.ly > 153 {
                self.ly = 0;
                self.stat.mode = PPUMode::OAMSearch;
                if self.stat.oam_interrupt {
                    self.stat_interrupt = true;
                }
            }
            self.stat.lyc_flag = self.ly == self.lyc;
            if self.stat.lyc_flag && self.stat.lyc_interrupt {
                self.stat_interrupt = true;
            }
        }
        assert(self@ =~= v0.stepped(cycles));
    }

    /// Renders line LY (if it is on screen) into the framebuffer.
    fn render_scanline(&mut self)
        ensures
            final(self)@ == old(self)@.rendered(),
    {
        reveal(PPUView::rendered);
        let ghost v0 = self@;
        if self.ly >= 144 {
            return;
        }
        let scanline = self.ly as usize;
        let mut i: usize = 0;
        while i < 160
            invariant
                i <= 160,
                self@ == (PPUView { bg_priority: self@.bg_priority, ..v0 }),
                self.bg_priority@.len() == 160,
                forall|j: int| 0 <= j < i ==> !self.bg_priority@[j],
            decreases 160 - i,
        {
            self.bg_priority[i] = false;
            i = i + 1;
        }
        let ghost p1 = PPUView { bg_priority: Seq::new(160, |i: int| false), ..v0 };
        assert(self.bg_priority@ =~= Seq::new(160, |i: int| false));
        assert(self@ =~= p1);
        if self.lcdc.bg_window_enable {
            self.render_background(scanline);
        }
        if self.lcdc.window_enable && self.lcdc.bg_window_enable {
            self.render_window(scanline);
        }
        if self.lcdc.sprite_enable {
            self.render_sprites(scanline);
        }
    }

    /// Draws the background layer of `scanline`.
    fn render_background(&mut self, scanline: usize)
        requires
            scanline < 144,
            old(self)@.bg_priority.len() == 160,
        ensures
            final(self)@ == old(self)@.bg_drawn(scanline as int),
    {
        let ghost v0 = self@;
        let ghost target = v0.bg_drawn(scanline as int);
        let mut pixel: usize = 0;
        while pixel < 160
            invariant
                target == v0.bg_drawn(scanline as int),
                scanline < 144,
                pixel <= 160,
                self@ == (PPUView {
                    framebuffer: self@.framebuffer,
                    bg_priority: self@.bg_priority,
                    ..v0
                }),
                self@.framebuffer.len() == 23040,
                target.framebuffer.len() == 23040,
                v0.framebuffer.len() == 23040,
                v0.bg_priority.len() == 160,
                self@.bg_priority.len() == 160,
                target.bg_priority.len() == 160,
                forall|j: int|
                    0 <= j < 23040 ==> #[trigger] self@.framebuffer[j] == if row_start(
                        scanline as int,
                    ) <= j < row_start(scanline as int) + pixel {
                        target.framebuffer[j]
                    } else {
                        v0.framebuffer[j]
                    },
                forall|j: int| 0 <= j < pixel ==> #[trigger] self@.bg_priority[j] == target.bg_priority[j],
            decreases 160 - pixel,
        {
            let color = self.background_pixel(scanline, pixel);
            let final_color = self.bgp.get_color(color);
            proof {
                assert(color & 3 == color) by (bit_vector)
                    requires
                        color < 4,
                ;
                assert(color == v0.bg_index(scanline as int, pixel as int));
                assert(target.framebuffer[row_start(scanline as int) + pixel] == final_color);
                assert(target.bg_priority[pixel as int] == (color != 0));
            }
            self.framebuffer[scanline * 160 + pixel] = final_color;
            self.bg_priority[pixel] = color != 0;
            pixel = pixel + 1;
        }
        assert(self@.framebuffer =~= target.framebuffer);
        assert(self@.bg_priority =~= target.bg_priority);
        assert(self@ =~= target);
    }

    /// The background colour number at `pixel` of `scanline`.
    fn background_pixel(&self, scanline: usize, pixel: usize) -> (r: u8)
        requires
            scanline < 144,
            pixel < 160,
        ensures
            r == self@.bg_index(scanline as int, pixel as int),
            r < 4,
    {
        let scroll_y = self.scy.wrapping_add(scanline as u8);
        let scroll_x = self.scx.wrapping_add(pixel as u8);
        assert(scroll_y == (self.scy + scanline) % 256);
        assert(scroll_x == (self.scx + pixel) % 256);
        let tile_map_base: usize = if self.lcdc.bg_tile_map {
            0x1C00
        } else {
            0x1800
        };
        self.map_pixel(
            tile_map_base,
            (scroll_y / 8) as usize,
            (scroll_x / 8) as usize,
            (scroll_x % 8) as usize,
            (scroll_y % 8) as usize,
        )
    }

    /// The colour number of pixel (`tile_x`, `tile_y`) of the tile at (`tile_col`,
    /// `tile_row`) of the tile map at `tile_map_base`.
    fn map_pixel(
        &self,
        tile_map_base: usize,
        tile_row: usize,
        tile_col: usize,
        tile_x: usize,
        tile_y: usize,
    ) -> (r: u8)
        requires
            tile_map_base == 0x1800 || tile_map_base == 0x1C00,
            tile_x < 8,
            tile_y < 8,
        ensures
            r == self@.map_pixel(
                tile_map_base as int,
                tile_row as int,
                tile_col as int,
                tile_x as int,
                tile_y as int,
            ),
            r < 4,
    {
        let tile_map_addr = tile_map_base + (tile_row % 32) * 32 + (tile_col % 32);
        let tile_id = self.vram[tile_map_addr];
        self.get_tile_pixel(tile_id, tile_x, tile_y)
    }

    /// Draws the window layer of `scanline`.
    #[verifier::rlimit(30)]
    fn render_window(&mut self, scanline: usize)
        requires
            scanline < 144,
            old(self)@.bg_priority.len() == 160,
        ensures
            final(self)@ == old(self)@.window_drawn(scanline as int),
    {
        let ghost v0 = self@;
        let ghost target = v0.window_drawn(scanline as int);
        if self.wy > scanline as u8 {
            return;
        }
        let shift = self.wx.wrapping_sub(7);
        let mut pixel: usize = 0;
        while pixel < 160
            invariant
                target == v0.window_drawn(scanline as int),
                scanline < 144,
                pixel <= 160,
                v0.wy <= scanline,
                shift == (v0.wx - 7) % 256,
                self@ == (PPUView {
                    framebuffer: self@.framebuffer,
                    bg_priority: self@.bg_priority,
                    ..v0
                }),
                self@.framebuffer.len() == 23040,
                target.framebuffer.len() == 23040,
                v0.framebuffer.len() == 23040,
                v0.bg_priority.len() == 160,
                self@.bg_priority.len() == 160,
                target.bg_priority.len() == 160,
                forall|j: int|
                    0 <= j < 23040 ==> #[trigger] self@.framebuffer[j] == if row_start(
                        scanline as int,
                    ) <= j < row_start(scanline as int) + pixel {
                        target.framebuffer[j]
                    } else {
                        v0.framebuffer[j]
                    },
                forall|j: int|
                    0 <= j < 160 ==> #[trigger] self@.bg_priority[j] == if j < pixel {
                        target.bg_priority[j]
                    } else {
                        v0.bg_priority[j]
                    },
            decreases 160 - pixel,
        {
            let window_x = (pixel as u8).wrapping_sub(shift);
            proof {
                assert(window_x == v0.window_x(pixel as int));
            }
            proof {
                if window_x >= 160 {
                    assert(target.framebuffer[row_start(scanline as int) + pixel]
                        == v0.framebuffer[row_start(scanline as int) + pixel]);
                    assert(target.bg_priority[pixel as int] == v0.bg_priority[pixel as int]);
                }
            }
            if window_x < 160 {
                let color = self.window_pixel(scanline, pixel, window_x);
                let final_color = self.bgp.get_color(color);
                proof {
                    assert(color & 3 == color) by (bit_vector)
                        requires
                            color < 4,
                    ;
                    assert(color == v0.window_index(scanline as int, pixel as int));
                    assert(target.framebuffer[row_start(scanline as int) + pixel] == final_color);
                    assert(target.bg_priority[pixel as int] == (color != 0));
                }
                self.framebuffer[scanline * 160 + pixel] = final_color;
                self.bg_priority[pixel] = color != 0;
            }
            pixel = pixel + 1;
        }
        assert(self@.framebuffer =~= target.framebuffer);
        assert(self@.bg_priority =~= target.bg_priority);
        assert(self@ =~= target);
    }

    /// The window colour number at screen pixel `pixel` of `scanline`, which shows
    /// window column `window_x`.
    fn window_pixel(&self, scanline: usize, pixel: usize, window_x: u8) -> (r: u8)
        requires
            scanline < 144,
            pixel < 160,
            self.wy <= scanline,
            window_x < 160,
            window_x == self@.window_x(pixel as int),
        ensures
            r == self@.window_index(scanline as int, pixel as int),
            r < 4,
    {
        let window_y = (scanline as u8).wrapping_sub(self.wy);
        assert(window_y == (scanline - self.wy) % 256);
        let tile_map_base: usize = if self.lcdc.window_tile_map {
            0x1C00
        } else {
            0x1800
        };
        self.map_pixel(
            tile_map_base,
            (window_y / 8) as usize,
            (window_x / 8) as usize,
            (window_x % 8) as usize,
            (window_y % 8) as usize,
        )
    }

    /// Draws the sprites of `scanline`: the OAM entries that cover it, ordered by
    /// X, at most ten, each over the previous ones.
    fn render_sprites(&mut self, scanline: usize)
        requires
            scanline < 144,
            old(self)@.bg_priority.len() == 160,
        ensures
            final(self)@ == old(self)@.sprites_drawn(
                old(self)@.line_sprites(scanline as int),
                scanline as int,
            ),
    {
        let ghost v0 = self@;
        let ghost line = scanline as int;
        let sprite_height: u8 = if self.lcdc.sprite_size {
            16
        } else {
            8
        };
        let mut sprites_on_line: Vec<Sprite> = Vec::new();
        let mut sprite_index: usize = 0;
        while sprite_index < 40
            invariant
                sprite_index <= 40,
                scanline < 144,
                line == scanline as int,
                self@ == v0,
                sprite_height == v0.sprite_height(),
                sprites_on_line@ == v0.sprites_on_line(line, sprite_index as int),
            decreases 40 - sprite_index,
        {
            let sprite_addr = sprite_index * 4;
            let sprite_y = self.oam[sprite_addr];
            let sprite_x = self.oam[sprite_addr + 1];
            let tile_id = self.oam[sprite_addr + 2];
            let flags = self.oam[sprite_addr + 3];
            let sprite_top = sprite_y.wrapping_sub(16);
            let sprite_bottom = sprite_top as u16 + sprite_height as u16;
            let sprite = Sprite { y: sprite_y, x: sprite_x, tile: tile_id, flags };
            proof {
                assert(sprite == v0.oam_sprite(sprite_index as int));
                assert(sprite_top == (sprite.y - 16) % 256);
                assert(sprite_covers(sprite, line, v0.sprite_height()) == ((scanline as u16)
                    >= sprite_top as u16 && (scanline as u16) < sprite_bottom));
            }
            if (scanline as u16) >= sprite_top as u16 && (scanline as u16) < sprite_bottom {
                sprites_on_line.push(sprite);
            }
            sprite_index = sprite_index + 1;
        }
        let sorted = sort_sprites_by_x(sprites_on_line);
        proof {
            let all = v0.sprites_on_line(line, 40);
            lemma_sort_keeps_elements(all);
            lemma_sprites_on_line_cover(v0, line, 40);
            assert forall|j: int| 0 <= j < sorted@.len() implies sprite_covers(
                #[trigger] sorted@[j],
                line,
                v0.sprite_height(),
            ) by {
                assert(all.contains(sorted@[j]));
                let m = choose|m: int| 0 <= m < all.len() && all[m] == sorted@[j];
                assert(sprite_covers(all[m], line, v0.sprite_height()));
            }
        }
        let count: usize = if sorted.len() > 10 {
            10
        } else {
            sorted.len()
        };
        let ghost chosen = v0.line_sprites(line);
        assert(chosen =~= sorted@.take(count as int));
        let mut i: usize = 0;
        while i < count
            invariant
                scanline < 144,
                line == scanline as int,
                i <= count,
                count <= sorted@.len(),
                sprite_height == v0.sprite_height(),
                chosen == sorted@.take(count as int),
                forall|j: int|
                    0 <= j < sorted@.len() ==> sprite_covers(
                        #[trigger] sorted@[j],
                        line,
                        v0.sprite_height(),
                    ),
                self@ == v0.sprites_drawn(sorted@.take(i as int), line),
                self@.lcdc == v0.lcdc,
                self@.bg_priority.len() == 160,
                self@.framebuffer.len() == 23040,
            decreases count - i,
        {
            proof {
                assert(sorted@.take(i + 1).drop_last() =~= sorted@.take(i as int));
                assert(sorted@.take(i + 1).last() == sorted@[i as int]);
                lemma_sprites_drawn_frame(v0, sorted@.take(i as int), line);
            }
            self.render_sprite(&sorted[i], scanline, sprite_height);
            i = i + 1;
        }
    }

    /// Draws `sprite`, which covers `scanline`.
    fn render_sprite(&mut self, sprite: &Sprite, scanline: usize, sprite_height: u8)
        requires
            scanline < 144,
            sprite_height == old(self)@.sprite_height(),
            sprite_covers(*sprite, scanline as int, sprite_height as int),
            old(self)@.bg_priority.len() == 160,
            old(self)@.framebuffer.len() == 23040,
        ensures
            final(self)@ == old(self)@.sprite_drawn(*sprite, scanline as int),
    {
        let ghost v0 = self@;
        let ghost line = scanline as int;
        let ghost target = v0.sprite_drawn(*sprite, line);
        let sprite_y = sprite.y.wrapping_sub(16);
        let sprite_x = sprite.x.wrapping_sub(8);
        if sprite_x >= 160 {
            assert(self@.framebuffer =~= target.framebuffer);
            assert(self@ =~= target);
            return;
        }
        let offset = (scanline as u8).wrapping_sub(sprite_y);
        assert(offset == (scanline - (sprite.y - 16) % 256) % 256);
        let line_in_sprite = if sprite.y_flip() {
            sprite_height - 1 - offset
        } else {
            offset
        };
        let base_tile = if sprite_height == 16 {
            sprite.tile & 0xFE
        } else {
            sprite.tile
        };
        let tile_y = (line_in_sprite % 8) as usize;
        proof {
            let t = sprite.tile;
            assert(t & 0xFE <= 0xFE) by (bit_vector);
        }
        let tile_id = if sprite_height == 16 && line_in_sprite >= 8 {
            base_tile + 1
        } else {
            base_tile
        };
        let mut pixel_x: u8 = 0;
        while pixel_x < 8 && (sprite_x as u16) + (pixel_x as u16) < 160
            invariant
                target == v0.sprite_drawn(*sprite, line),
                line == scanline as int,
                line_in_sprite == v0.sprite_row(*sprite, line),
                tile_id == v0.sprite_tile(*sprite, line_in_sprite as int),
                tile_y == line_in_sprite % 8,
                v0.framebuffer.len() == 23040,
                target.framebuffer.len() == 23040,
                scanline < 144,
                sprite_x < 160,
                sprite_x == (sprite.x - 8) % 256,
                pixel_x <= 8,
                tile_y < 8,
                self@ == (PPUView { framebuffer: self@.framebuffer, ..v0 }),
                self@.framebuffer.len() == 23040,
                forall|j: int|
                    0 <= j < 23040 ==> #[trigger] self@.framebuffer[j] == if row_start(line)
                        + sprite_x <= j < row_start(line) + sprite_x + pixel_x {
                        target.framebuffer[j]
                    } else {
                        v0.framebuffer[j]
                    },
                forall|j: int|
                    0 <= j < 23040 && !(row_start(line) + sprite_x <= j < row_start(line)
                        + sprite_x + 8) ==> target.framebuffer[j] == v0.framebuffer[j],
            decreases 8 - pixel_x,
        {
            let screen_x = sprite_x + pixel_x;
            let drawn = self.sprite_pixel_at(
                sprite,
                scanline,
                sprite_x,
                pixel_x,
                line_in_sprite,
                tile_id,
                tile_y,
            );
            proof {
                assert(drawn == v0.sprite_pixel(*sprite, line, screen_x as int));
                assert(target.framebuffer[row_start(line) + screen_x] == match drawn {
                    Some(c) => c,
                    None => v0.framebuffer[row_start(line) + screen_x],
                });
            }
            match drawn {
                Some(c) => {
                    self.framebuffer[scanline * 160 + screen_x as usize] = c;
                },
                None => {},
            }
            pixel_x = pixel_x + 1;
        }
        assert(self@.framebuffer =~= target.framebuffer);
        assert(self@ =~= target);
    }

    /// The shade that `sprite` draws at column `pixel_x` of its row on
    /// `scanline`, if any; `line_in_sprite`, `tile_id` and `tile_y` are that row,
    /// its tile and the row within the tile.
    fn sprite_pixel_at(
        &self,
        sprite: &Sprite,
        scanline: usize,
        sprite_x: u8,
        pixel_x: u8,
        line_in_sprite: u8,
        tile_id: u8,
        tile_y: usize,
    ) -> (r: Option<Color>)
        requires
            scanline < 144,
            sprite_x < 160,
            sprite_x == (sprite.x - 8) % 256,
            pixel_x < 8,
            sprite_x + pixel_x < 160,
            line_in_sprite == self@.sprite_row(*sprite, scanline as int),
            tile_id == self@.sprite_tile(*sprite, line_in_sprite as int),
            tile_y == line_in_sprite % 8,
            self@.bg_priority.len() == 160,
        ensures
            r == self@.sprite_pixel(*sprite, scanline as int, sprite_x + pixel_x),
    {
        let screen_x = sprite_x + pixel_x;
        let tile_x = if sprite.x_flip() {
            (7 - pixel_x) as usize
        } else {
            pixel_x as usize
        };
        let color = self.get_tile_pixel(tile_id, tile_x, tile_y);
        proof {
            assert(color & 3 == color) by (bit_vector)
                requires
                    color < 4,
            ;
        }
        if color != 0 && !(sprite.priority() && self.bg_priority[screen_x as usize]) {
            let palette = if sprite.palette() {
                self.obp1
            } else {
                self.obp0
            };
            Some(palette.get_color(color))
        } else {
            None
        }
    }

    /// The colour number of pixel (`x`, `y`) of tile `tile_id`.
    fn get_tile_pixel(&self, tile_id: u8, x: usize, y: usize) -> (r: u8)
        requires
            x < 8,
            y < 8,
        ensures
            r == self@.tile_pixel(tile_id, x as int, y as int),
            r < 4,
    {
        let tile_addr: usize = if self.lcdc.bg_window_tile_data {
            (tile_id as usize) * 16
        } else if tile_id < 128 {
            0x1000 + (tile_id as usize) * 16
        } else {
            (tile_id as usize) * 16
        };
        let byte_offset = y * 2;
        let low_byte = self.vram[tile_addr + byte_offset];
        let high_byte = self.vram[tile_addr + byte_offset + 1];
        let bit_pos = (7 - x) as u8;
        let low_bit = (low_byte >> bit_pos) & 1;
        let high_bit = (high_byte >> bit_pos) & 1;
        proof {
            assert(low_bit <= 1 && high_bit <= 1 && (high_bit << 1u8) | low_bit == high_bit * 2
                + low_bit) by (bit_vector)
                requires
                    low_bit == (low_byte >> bit_pos) & 1,
                    high_bit == (high_byte >> bit_pos) & 1,
            ;
        }
        (high_bit << 1) | low_bit
    }

    fn lcdc_to_byte(&self) -> (r: u8)
        ensures
            r == lcdc_byte(self.lcdc),
    {
        let mut byte: u8 = 0;
        if self.lcdc.lcd_enable {
            byte = byte + 0x80;
        }
        if self.lcdc.window_tile_map {
            byte = byte + 0x40;
        }
        if self.lcdc.window_enable {
            byte = byte + 0x20;
        }
        if self.lcdc.bg_window_tile_data {
            byte = byte + 0x10;
        }
        if self.lcdc.bg_tile_map {
            byte = byte + 0x08;
        }
        if self.lcdc.sprite_size {
            byte = byte + 0x04;
        }
        if self.lcdc.sprite_enable {
            byte = byte + 0x02;
        }
        if self.lcdc.bg_window_enable {
            byte = byte + 0x01;
        }
        byte
    }

    fn byte_to_lcdc(&self, byte: u8) -> (r: LCDControl)
        ensures
            r == lcdc_of(byte),
    {
        LCDControl {
            lcd_enable: (byte & 0x80) != 0,
            window_tile_map: (byte & 0x40) != 0,
            window_enable: (byte & 0x20) != 0,
            bg_window_tile_data: (byte & 0x10) != 0,
            bg_tile_map: (byte & 0x08) != 0,
            sprite_size: (byte & 0x04) != 0,
            sprite_enable: (byte & 0x02) != 0,
            bg_window_enable: (byte & 0x01) != 0,
        }
    }

    fn stat_to_byte(&self) -> (r: u8)
        ensures
            r == stat_byte(self.stat),
    {
        let mut byte: u8 = 0;
        if self.stat.lyc_interrupt {
            byte = byte + 0x40;
        }
        if self.stat.oam_interrupt {
            byte = byte + 0x20;
        }
        if self.stat.vblank_interrupt {
            byte = byte + 0x10;
        }
        if self.stat.hblank_interrupt {
            byte = byte + 0x08;
        }
        if self.stat.lyc_flag {
            byte = byte + 0x04;
        }
        byte + mode_bits(self.stat.mode)
    }

    fn byte_to_stat(&self, byte: u8) -> (r: LCDStatus)
        ensures
            r == (LCDStatus {
                lyc_interrupt: byte & 0x40 != 0,
                oam_interrupt: byte & 0x20 != 0,
                vblank_interrupt: byte & 0x10 != 0,
                hblank_interrupt: byte & 0x08 != 0,
                ..self.stat
            }),
    {
        LCDStatus {
            lyc_interrupt: (byte & 0x40) != 0,
            oam_interrupt: (byte & 0x20) != 0,
            vblank_interrupt: (byte & 0x10) != 0,
            hblank_interrupt: (byte & 0x08) != 0,
            lyc_flag: self.stat.lyc_flag,
            mode: self.stat.mode,
        }
    }

    fn palette_to_byte(&self, palette: &Palette) -> (r: u8)
        ensures
            r == palette_byte(palette.colors@),
    {
        color_bits(palette.colors[0]) + 4 * color_bits(palette.colors[1]) + 16 * color_bits(
            palette.colors[2],
        ) + 64 * color_bits(palette.colors[3])
    }

    /// The 160x144 screen, row by row.
    pub fn get_framebuffer(&self) -> (r: &[Color; 23040])
        ensures
            r@ == self.framebuffer@,
    {
        &self.framebuffer
    }

    /// Takes both interrupt requests.
    pub fn clear_interrupts(&mut self)
        ensures
            final(self)@ == (PPUView { vblank_interrupt: false, stat_interrupt: false, ..old(self)@ }),
    {
        self.vblank_interrupt = false;
        self.stat_interrupt = false;
    }
}

/// Whether `sprite`, `h` lines tall, covers `line` (its top is Y - 16).
pub open spec fn sprite_covers(sprite: Sprite, line: int, h: int) -> bool {
    let top = (sprite.y - 16) % 256;
    top <= line < top + h
}

/// `e` inserted into `s` after every element whose X is at most `e.x`.
pub open spec fn insert_by_x(s: Seq<Sprite>, e: Sprite) -> Seq<Sprite>
    decreases s.len(),
{
    if s.len() == 0 {
        seq![e]
    } else if s.last().x <= e.x {
        s.push(e)
    } else {
        insert_by_x(s.drop_last(), e).push(s.last())
    }
}

/// `s` ordered by X, elements with equal X in their order in `s` (a stable sort).
pub open spec fn sort_by_x(s: Seq<Sprite>) -> Seq<Sprite>
    decreases s.len(),
{
    if s.len() == 0 {
        s
    } else {
        insert_by_x(sort_by_x(s.drop_last()), s.last())
    }
}

/// Every sprite that `sprites_on_line` selects covers the line.
proof fn lemma_sprites_on_line_cover(p: PPUView, line: int, n: int)
    ensures
        forall|j: int|
            0 <= j < p.sprites_on_line(line, n).len() ==> sprite_covers(
                #[trigger] p.sprites_on_line(line, n)[j],
                line,
                p.sprite_height(),
            ),
    decreases n,
{
    if n > 0 {
        lemma_sprites_on_line_cover(p, line, n - 1);
        let earlier = p.sprites_on_line(line, n - 1);
        assert forall|j: int| 0 <= j < p.sprites_on_line(line, n).len() implies sprite_covers(
            #[trigger] p.sprites_on_line(line, n)[j],
            line,
            p.sprite_height(),
        ) by {
            if j < earlier.len() {
                assert(p.sprites_on_line(line, n)[j] == earlier[j]);
            }
        }
    }
}

/// Rendering a line changes nothing but the framebuffer and the priorities.
proof fn lemma_rendered_frame(p: PPUView)
    ensures
        p.rendered() == (PPUView {
            framebuffer: p.rendered().framebuffer,
            bg_priority: p.rendered().bg_priority,
            ..p
        }),
{
    reveal(PPUView::rendered);
    if p.ly < 144 {
        let line = p.ly as int;
        let p1 = PPUView { bg_priority: Seq::new(160, |i: int| false), ..p };
        let p2 = if p.lcdc.bg_window_enable {
            p1.bg_drawn(line)
        } else {
            p1
        };
        let p3 = if p.lcdc.window_enable && p.lcdc.bg_window_enable {
            p2.window_drawn(line)
        } else {
            p2
        };
        lemma_sprites_drawn_frame(p3, p3.line_sprites(line), line);
    }
}

/// Drawing sprites changes nothing but the framebuffer.
proof fn lemma_sprites_drawn_frame(p: PPUView, sprites: Seq<Sprite>, line: int)
    ensures
        p.sprites_drawn(sprites, line) == (PPUView {
            framebuffer: p.sprites_drawn(sprites, line).framebuffer,
            ..p
        }),
        p.sprites_drawn(sprites, line).framebuffer.len() == p.framebuffer.len(),
    decreases sprites.len(),
{
    if sprites.len() > 0 {
        lemma_sprites_drawn_frame(p, sprites.drop_last(), line);
    }
}

/// Inserting `e` at the first position whose element has X above `e.x`, all later
/// ones doing too, is `insert_by_x`.
proof fn lemma_insert_at(s: Seq<Sprite>, e: Sprite, p: int)
    requires
        0 <= p <= s.len(),
        forall|j: int| p <= j < s.len() ==> (#[trigger] s[j]).x > e.x,
        p == 0 || s[p - 1].x <= e.x,
    ensures
        insert_by_x(s, e) == s.insert(p, e),
    decreases s.len(),
{
    if s.len() == 0 {
        assert(s.insert(p, e) =~= seq![e]);
    } else if p == s.len() {
        assert(s.insert(p, e) =~= s.push(e));
    } else {
        lemma_insert_at(s.drop_last(), e, p);
        assert(s.insert(p, e) =~= s.drop_last().insert(p, e).push(s.last()));
    }
}

/// The sorted sequence holds only elements of the input.
proof fn lemma_sort_keeps_elements(s: Seq<Sprite>)
    ensures
        forall|j: int|
            0 <= j < sort_by_x(s).len() ==> s.contains(#[trigger] sort_by_x(s)[j]),
    decreases s.len(),
{
    if s.len() > 0 {
        lemma_sort_keeps_elements(s.drop_last());
        lemma_insert_keeps_elements(sort_by_x(s.drop_last()), s.last());
        assert forall|j: int| 0 <= j < sort_by_x(s).len() implies s.contains(
            #[trigger] sort_by_x(s)[j],
        ) by {
            let x = sort_by_x(s)[j];
            if x != s.last() {
                assert(sort_by_x(s.drop_last()).contains(x));
                let k = choose|k: int|
                    0 <= k < sort_by_x(s.drop_last()).len() && sort_by_x(s.drop_last())[k] == x;
                assert(s.drop_last().contains(x));
                let m = choose|m: int| 0 <= m < s.drop_last().len() && s.drop_last()[m] == x;
                assert(s[m] == x);
            } else {
                assert(s[s.len() - 1] == x);
            }
        }
    }
}

proof fn lemma_insert_keeps_elements(s: Seq<Sprite>, e: Sprite)
    ensures
        insert_by_x(s, e).len() == s.len() + 1,
        forall|j: int|
            0 <= j < insert_by_x(s, e).len() ==> #[trigger] insert_by_x(s, e)[j] == e || s.contains(
                insert_by_x(s, e)[j],
            ),
    decreases s.len(),
{
    if s.len() > 0 && s.last().x > e.x {
        lemma_insert_keeps_elements(s.drop_last(), e);
        assert forall|j: int| 0 <= j < insert_by_x(s, e).len() implies #[trigger] insert_by_x(
            s,
            e,
        )[j] == e || s.contains(insert_by_x(s, e)[j]) by {
            let x = insert_by_x(s, e)[j];
            if j == s.len() {
                assert(s[s.len() - 1] == x);
            } else if x != e {
                let m = choose|m: int| 0 <= m < s.drop_last().len() && s.drop_last()[m] == x;
                assert(s[m] == x);
            }
        }
    } else if s.len() > 0 {
        assert forall|j: int| 0 <= j < insert_by_x(s, e).len() implies #[trigger] insert_by_x(
            s,
            e,
        )[j] == e || s.contains(insert_by_x(s, e)[j]) by {
            if j < s.len() {
                assert(s[j] == insert_by_x(s, e)[j]);
            }
        }
    }
}

/// Orders sprites by X, keeping OAM order among equal X.
fn sort_sprites_by_x(sprites: Vec<Sprite>) -> (r: Vec<Sprite>)
    ensures
        r@ == sort_by_x(sprites@),
{
    let mut sorted: Vec<Sprite> = Vec::new();
    let mut i: usize = 0;
    while i < sprites.len()
        invariant
            i <= sprites.len(),
            sorted@ == sort_by_x(sprites@.take(i as int)),
        decreases sprites.len() - i,
    {
        let e = sprites[i];
        let mut p: usize = sorted.len();
        while p > 0 && sorted[p - 1].x > e.x
            invariant
                p <= sorted.len(),
                forall|j: int| p <= j < sorted.len() ==> (#[trigger] sorted@[j]).x > e.x,
            decreases p,
        {
            p = p - 1;
        }
        proof {
            lemma_insert_at(sorted@, e, p as int);
            assert(sprites@.take(i + 1).drop_last() =~= sprites@.take(i as int));
        }
        sorted.insert(p, e);
        i = i + 1;
    }
    assert(sprites@.take(sprites.len() as int) =~= sprites@);
    sorted
}

/// A register write leaves the line counter, the mode and the mode clock alone.
pub broadcast proof fn lemma_register_write_timing(p: PPUView, addr: u16, value: u8)
    ensures
        #[trigger] p.after_register_write(addr, value).ly == p.ly,
        p.after_register_write(addr, value).stat.mode == p.stat.mode,
        p.after_register_write(addr, value).mode_clock == p.mode_clock,
{
    reveal(PPUView::after_register_write);
}

/// Every step keeps the timing invariant, and from a state that satisfies it any
/// step of fewer than 2^32 - 456 cycles runs without overflow.
pub proof fn lemma_step_keeps_inv(p: PPUView, cycles: u32)
    requires
        p.inv(),
        cycles <= u32::MAX - 456,
    ensures
        p.step_ok(cycles),
        p.stepped(cycles).inv(),
{
    reveal(PPUView::stepped);
    let q = PPUView {
        mode_clock: 0,
        stat: LCDStatus { mode: PPUMode::HBlank, ..p.stat },
        ..p
    };
    lemma_rendered_frame(q);
}

/// An LCDC byte reads back as written.
pub proof fn lemma_lcdc_round_trip(b: u8)
    ensures
        lcdc_byte(lcdc_of(b)) == b,
{
    assert(((if b & 0x80 != 0 { 0x80int } else { 0 }) + (if b & 0x40 != 0 { 0x40int } else { 0 })
        + (if b & 0x20 != 0 { 0x20int } else { 0 }) + (if b & 0x10 != 0 { 0x10int } else { 0 })
        + (if b & 0x08 != 0 { 0x08int } else { 0 }) + (if b & 0x04 != 0 { 0x04int } else { 0 })
        + (if b & 0x02 != 0 { 0x02int } else { 0 }) + (if b & 0x01 != 0 { 0x01int } else { 0 }))
        == b as int) by (bit_vector);
}

/// A write to a read/write video register reads back (LCDC, SCY, SCX, LYC, DMA,
/// the palettes, WY, WX); a write to LY changes nothing.
pub proof fn lemma_register_round_trip(p: PPUView, addr: u16, value: u8)
    ensures
        (addr == LCDC_ADDR || addr == SCY_ADDR || addr == SCX_ADDR || addr == LYC_ADDR || addr
            == DMA_ADDR || addr == BGP_ADDR || addr == OBP0_ADDR || addr == OBP1_ADDR || addr
            == WY_ADDR || addr == WX_ADDR) ==> p.after_register_write(addr, value).register_value(
            addr,
        ) == value,
        p.after_register_write(LY_ADDR, value) == p,
{
    reveal(PPUView::register_value);
    reveal(PPUView::after_register_write);
    lemma_lcdc_round_trip(value);
    lemma_palette_round_trip(value);
}

/// The screen as RGBA bytes, four per pixel row by row: the pixel's RGB color and
/// an opaque alpha.
pub fn framebuffer_rgba(framebuffer: &[Color; 23040]) -> (r: Vec<u8>)
    ensures
        r@.len() == 4 * 23040,
        forall|i: int|
            #![trigger framebuffer@[i]]
            0 <= i < 23040 ==> {
                &&& r@[4 * i] == rgb_of(framebuffer@[i]).0
                &&& r@[4 * i + 1] == rgb_of(framebuffer@[i]).1
                &&& r@[4 * i + 2] == rgb_of(framebuffer@[i]).2
                &&& r@[4 * i + 3] == 255
            },
{
    let mut out: Vec<u8> = Vec::new();
    let mut i: usize = 0;
    while i < 23040
        invariant
            i <= 23040,
            out@.len() == 4 * i,
            forall|j: int|
                #![trigger framebuffer@[j]]
                0 <= j < i ==> {
                    &&& out@[4 * j] == rgb_of(framebuffer@[j]).0
                    &&& out@[4 * j + 1] == rgb_of(framebuffer@[j]).1
                    &&& out@[4 * j + 2] == rgb_of(framebuffer@[j]).2
                    &&& out@[4 * j + 3] == 255
                },
        decreases 23040 - i,
    {
        let rgb = framebuffer[i].to_rgb();
        out.push(rgb.0);
        out.push(rgb.1);
        out.push(rgb.2);
        out.push(255);
        i = i + 1;
    }
    out
}

/// A STAT write sets only its interrupt-select bits (6-3): the register reads
/// them back with the LYC=LY flag and the mode bits as they were. Addresses
/// outside 0xFF40-0xFF4B read 0xFF and ignore writes.
pub proof fn lemma_stat_write(p: PPUView, addr: u16, value: u8)
    ensures
        p.after_register_write(STAT_ADDR, value).register_value(STAT_ADDR) == (value & 0x78) | (
        p.register_value(STAT_ADDR) & 0x07),
        !(0xFF40 <= addr <= 0xFF4B) ==> p.register_value(addr) == 0xFF
            && p.after_register_write(addr, value) == p,
{
    reveal(PPUView::register_value);
    reveal(PPUView::after_register_write);
    let s = p.stat;
    let m = mode_number(s.mode);
    let lf = s.lyc_flag;
    let (a, b, c, d) = (s.lyc_interrupt, s.oam_interrupt, s.vblank_interrupt, s.hblank_interrupt);
    let (na, nb, nc, nd) = (value & 0x40 != 0, value & 0x20 != 0, value & 0x10 != 0, value & 0x08
        != 0);
    assert(((if na { 0x40int } else { 0 }) + (if nb { 0x20int } else { 0 }) + (if nc {
        0x10int
    } else {
        0
    }) + (if nd { 0x08int } else { 0 }) + (if lf { 0x04int } else { 0 }) + m) as u8 == (value
        & 0x78) | ((((if a { 0x40int } else { 0 }) + (if b { 0x20int } else { 0 }) + (if c {
        0x10int
    } else {
        0
    }) + (if d { 0x08int } else { 0 }) + (if lf { 0x04int } else { 0 }) + m) as u8) & 0x07))
        by (bit_vector)
        requires
            m < 4,
            na == (value & 0x40 != 0),
            nb == (value & 0x20 != 0),
            nc == (value & 0x10 != 0),
            nd == (value & 0x08 != 0),
    ;
}

/// Pixel `x` of a tile row (0 the leftmost) takes its colour from the row's two
/// bytes read most significant bit first: its low colour bit is the top bit of
/// the first byte shifted left by `x`, its high colour bit that of the second.
pub proof fn lemma_tile_pixel_order(p: PPUView, tile_id: u8, x: int, y: int)
    requires
        0 <= x < 8,
        0 <= y < 8,
    ensures
        ({
            let addr = tile_address(p.lcdc.bg_window_tile_data, tile_id);
            let low = p.vram[addr + y * 2];
            let high = p.vram[addr + y * 2 + 1];
            let xs = x as u8;
            &&& p.tile_pixel(tile_id, x, y) < 4
            &&& (p.tile_pixel(tile_id, x, y) % 2 == 1) == ((low << xs) & 0x80 != 0)
            &&& (p.tile_pixel(tile_id, x, y) >= 2) == ((high << xs) & 0x80 != 0)
        }),
{
    let addr = tile_address(p.lcdc.bg_window_tile_data, tile_id);
    let low = p.vram[addr + y * 2];
    let high = p.vram[addr + y * 2 + 1];
    let xs = x as u8;
    let sh = (7 - x) as u8;
    assert(bit_of(low, 7 - x) == (low >> sh) & 1);
    assert(bit_of(high, 7 - x) == (high >> sh) & 1);
    assert(((low >> sh) & 1 == 1) == ((low << xs) & 0x80 != 0) && (low >> sh) & 1 <= 1)
        by (bit_vector)
        requires
            xs < 8,
            sh == 7 - xs,
    ;
    assert(((high >> sh) & 1 == 1) == ((high << xs) & 0x80 != 0) && (high >> sh) & 1 <= 1)
        by (bit_vector)
        requires
            xs < 8,
            sh == 7 - xs,
    ;
}

/// Scrolling one pixel further right (SCX + 1) shows at each screen pixel what
/// its right-hand neighbour showed before; one line further down (SCY + 1)
/// shows what the next line showed.
pub proof fn lemma_scroll_shift(p: PPUView, line: int, px: int)
    requires
        0 <= line,
        0 <= px,
    ensures
        (PPUView { scx: ((p.scx + 1) % 256) as u8, ..p }).bg_index(line, px) == p.bg_index(
            line,
            px + 1,
        ),
        (PPUView { scy: ((p.scy + 1) % 256) as u8, ..p }).bg_index(line, px) == p.bg_index(
            line + 1,
            px,
        ),
{
    let q = PPUView { scx: ((p.scx + 1) % 256) as u8, ..p };
    let r = PPUView { scy: ((p.scy + 1) % 256) as u8, ..p };
    assert((q.scx + px) % 256 == (p.scx + px + 1) % 256) by {
        vstd::arithmetic::div_mod::lemma_add_mod_noop(p.scx + 1, px, 256);
        vstd::arithmetic::div_mod::lemma_mod_twice(p.scx + 1, 256);
        vstd::arithmetic::div_mod::lemma_add_mod_noop((p.scx + 1) % 256, px, 256);
    }
    assert((r.scy + line) % 256 == (p.scy + line + 1) % 256) by {
        vstd::arithmetic::div_mod::lemma_add_mod_noop(p.scy + 1, line, 256);
        vstd::arithmetic::div_mod::lemma_mod_twice(p.scy + 1, 256);
        vstd::arithmetic::div_mod::lemma_add_mod_noop((p.scy + 1) % 256, line, 256);
    }
}

/// Flipping a sprite horizontally (toggling flag bit 5) mirrors its eight
/// columns: pixel k of the flipped sprite is pixel 7 - k of the original, for a
/// sprite drawn above the background and wholly on screen.
pub proof fn lemma_sprite_x_flip(p: PPUView, sprite: Sprite, line: int, k: int)
    requires
        0 <= k < 8,
        sprite.flags & 0x80 == 0,
        8 <= sprite.x < 161,
    ensures
        p.sprite_pixel(Sprite { flags: sprite.flags ^ 0x20, ..sprite }, line, sprite.x - 8 + k)
            == p.sprite_pixel(sprite, line, sprite.x - 8 + 7 - k),
{
    let f = sprite.flags;
    let g = f ^ 0x20;
    assert(((g & 0x20 != 0) == (f & 0x20 == 0)) && (g & 0x80 == f & 0x80) && (g & 0x40 == f
        & 0x40) && (g & 0x10 == f & 0x10)) by (bit_vector)
        requires
            g == f ^ 0x20,
    ;
}

/// Each of the four colour numbers shows as the shade whose number is held in
/// its two bits of the palette byte, colour 0 in the lowest.
pub proof fn lemma_palette_shades(byte: u8)
    ensures
        color_number(palette_of(byte)[0]) == byte & 3,
        color_number(palette_of(byte)[1]) == (byte >> 2u8) & 3,
        color_number(palette_of(byte)[2]) == (byte >> 4u8) & 3,
        color_number(palette_of(byte)[3]) == (byte >> 6u8) & 3,
{
    lemma_color_number(byte);
    lemma_color_number(byte >> 2u8);
    lemma_color_number(byte >> 4u8);
    lemma_color_number(byte >> 6u8);
}

/// Where the two tile-data modes place a tile's 16 bytes: unsigned mode puts
/// tile n at 0x8000 + 16n; signed mode puts tiles 0-127 0x1000 bytes higher
/// (tile 0 at 0x9000) and shares tiles 128-255 (0x8800-0x8FFF) with it.
pub proof fn lemma_tile_data_modes(tile_id: u8)
    ensures
        tile_address(true, tile_id) == 16 * tile_id,
        tile_id < 128 ==> tile_address(false, tile_id) == tile_address(true, tile_id) + 0x1000,
        tile_id >= 128 ==> tile_address(false, tile_id) == tile_address(true, tile_id),
        0 <= tile_address(false, tile_id) && tile_address(false, tile_id) + 16 <= 0x1800,
{
}

} // verus!
