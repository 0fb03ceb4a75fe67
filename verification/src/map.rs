//! Fixed-size 2D occupancy grid with a derived wall-segment list and a DDA
//! raycaster.
//!
//! Cell values are bytes: `0` is empty, any nonzero value is a wall material
//! id (offset by one into the texture list). Each occupied cell `(x, y)`
//! contributes the four segments of a `cell_size` square spanning the world
//! rectangle one cell "before" its index, i.e. from `(x-1, y-1)` to `(x, y)`
//! in cell units. The raycaster uses the matching one-based tile convention,
//! so raycast hits and collision segments stay spatially consistent.

use vstd::prelude::*;
use vstd::string::StrSliceExecFns;
use vstd::arithmetic::div_mod::lemma_fundamental_div_mod_converse;
use crate::fixed::SCALE;
use crate::fixed::COORD_MAX;
use crate::fixed::Vec2;
use crate::collision::Segment;
use crate::collision::segs_in_range;

verus! {

/// Largest accepted cell count along either grid axis.
pub const MAX_DIM: u32 = 1024;

/// Largest accepted world size (in fixed-point units) of one grid cell.
pub const MAX_CELL_SIZE: i64 = 0x1_0000;

/// An RGB color handed to the renderer for floor and ceiling shading.
#[derive(Clone, Copy, PartialEq, Eq, Structural, Debug)]
pub struct Rgb {
    pub r: u8,
    pub g: u8,
    pub b: u8,
}

/// Pixel dimensions of a loaded wall texture; the renderer needs them for
/// texture-coordinate math.
#[derive(Clone, Copy, PartialEq, Eq, Structural, Debug)]
pub struct TextureInfo {
    pub width: u32,
    pub height: u32,
}

/// The occupancy grid, its derived wall segments, and the render resources
/// the map owns by value.
pub struct GridMap {
    pub width: u32,
    pub height: u32,
    pub cell_size: i64,
    pub data: Vec<u8>,
    pub textures: Vec<TextureInfo>,
    pub ceiling: Rgb,
    pub floor: Rgb,
    pub segments: Vec<Segment>,
}

/// A fixed-point point from mathematical coordinates; meaningful when the
/// coordinates are within `i64` range, which every user here guarantees.
pub open spec fn v2(x: int, y: int) -> Vec2 {
    Vec2 { x: x as i64, y: y as i64 }
}

/// The four wall segments of the square derived from occupied cell
/// `(cx, cy)`: the square spans one `c`-sized cell immediately before the
/// cell's grid index.
pub open spec fn square_segs(c: int, cx: int, cy: int) -> Seq<Segment> {
    let x0 = (cx - 1) * c;
    let y0 = (cy - 1) * c;
    seq![
        Segment { a: v2(x0, y0), b: v2(x0, y0 + c) },
        Segment { a: v2(x0, y0 + c), b: v2(x0 + c, y0 + c) },
        Segment { a: v2(x0 + c, y0 + c), b: v2(x0 + c, y0) },
        Segment { a: v2(x0 + c, y0), b: v2(x0, y0) },
    ]
}

/// Wall segments derived from the first `n` cells of grid `data` (row-major,
/// `w` cells per row, cell size `c`): four per occupied cell, in cell order.
pub open spec fn squares_up_to(data: Seq<u8>, w: int, c: int, n: int) -> Seq<Segment>
    decreases n,
{
    if n <= 0 {
        Seq::empty()
    } else {
        squares_up_to(data, w, c, n - 1) + if data[n - 1] > 0 {
            square_segs(c, (n - 1) % w, (n - 1) / w)
        } else {
            Seq::empty()
        }
    }
}

/// Digit value of the grid character at one flat cell index.
pub open spec fn digit_at(s: Seq<char>, k: int) -> u8 {
    (s[k] as int - 48) as u8
}

impl GridMap {
    /// Dimensions and cell contents are in their accepted ranges and every
    /// derived segment lies inside the geometry coordinate range.
    pub open spec fn wf(self) -> bool {
        &&& 1 <= self.width <= MAX_DIM
        &&& 1 <= self.height <= MAX_DIM
        &&& 1 <= self.cell_size <= MAX_CELL_SIZE
        &&& self.data@.len() == self.width * self.height
        &&& segs_in_range(self.segments@)
    }

    /// The cell value at coordinate `(x, y)` of the row-major grid.
    pub open spec fn spec_cell(self, x: int, y: int) -> u8 {
        self.data@[y * self.width + x]
    }

    /// Wall segments derived from the first `n` cells of this map's grid in
    /// flat row-major order: four per occupied cell, in cell order.
    pub open spec fn derived_segments(self, n: int) -> Seq<Segment> {
        squares_up_to(self.data@, self.width as int, self.cell_size as int, n)
    }

    /// An empty map of the given dimensions: all cells empty, no textures,
    /// no segments, black floor and ceiling.
    pub fn new(width: u32, height: u32, cell_size: i64) -> (m: GridMap)
        requires
            1 <= width <= MAX_DIM,
            1 <= height <= MAX_DIM,
            1 <= cell_size <= MAX_CELL_SIZE,
        ensures
            m.wf(),
            m.width == width,
            m.height == height,
            m.cell_size == cell_size,
            forall|k: int| 0 <= k < m.data@.len() ==> m.data@[k] == 0u8,
            m.textures@ =~= Seq::<TextureInfo>::empty(),
            m.segments@ =~= Seq::<Segment>::empty(),
            m.ceiling == (Rgb { r: 0u8, g: 0u8, b: 0u8 }),
            m.floor == (Rgb { r: 0u8, g: 0u8, b: 0u8 }),
    {
        proof {
            assert(width * height <= 0x10_0000) by (nonlinear_arith)
                requires
                    width <= 1024u32,
                    height <= 1024u32,
            ;
        }
        let total: usize = (width as usize) * (height as usize);
        let mut data: Vec<u8> = Vec::new();
        while data.len() < total
            invariant
                data@.len() <= total,
                forall|k: int| 0 <= k < data@.len() ==> data@[k] == 0u8,
            decreases total - data@.len(),
        {
            data.push(0u8);
        }
        GridMap {
            width,
            height,
            cell_size,
            data,
            textures: Vec::new(),
            ceiling: Rgb { r: 0, g: 0, b: 0 },
            floor: Rgb { r: 0, g: 0, b: 0 },
            segments: Vec::new(),
        }
    }

    /// Appends a texture and returns its index in the list.
    pub fn add_texture(&mut self, texture: TextureInfo) -> (idx: usize)
        ensures
            final(self).textures@ == old(self).textures@.push(texture),
            idx == old(self).textures@.len(),
            final(self).width == old(self).width,
            final(self).height == old(self).height,
            final(self).cell_size == old(self).cell_size,
            final(self).data@ == old(self).data@,
            final(self).segments@ == old(self).segments@,
            final(self).ceiling == old(self).ceiling,
            final(self).floor == old(self).floor,
    {
        self.textures.push(texture);
        self.textures.len() - 1
    }

    /// Writes one cell. The segment list is not regenerated here;
    /// `regenerate_segments` rebuilds it after occupancy changes.
    pub fn set(&mut self, x: u32, y: u32, to: u8)
        requires
            old(self).wf(),
            x < old(self).width,
            y < old(self).height,
        ensures
            final(self).wf(),
            final(self).data@ == old(self).data@.update(
                y * old(self).width + x,
                to,
            ),
            final(self).spec_cell(x as int, y as int) == to,
            final(self).width == old(self).width,
            final(self).height == old(self).height,
            final(self).cell_size == old(self).cell_size,
            final(self).textures@ == old(self).textures@,
            final(self).segments@ == old(self).segments@,
            final(self).ceiling == old(self).ceiling,
            final(self).floor == old(self).floor,
    {
        proof {
            lemma_flat_index(x as int, y as int, self.width as int, self.height as int);
        }
        let idx: usize = (y as usize) * (self.width as usize) + (x as usize);
        self.data[idx] = to;
    }

    /// Reads one cell; coordinates must be in range.
    pub fn get(&self, x: u32, y: u32) -> (v: u8)
        requires
            self.wf(),
            x < self.width,
            y < self.height,
        ensures
            v == self.spec_cell(x as int, y as int),
    {
        proof {
            lemma_flat_index(x as int, y as int, self.width as int, self.height as int);
        }
        let idx: usize = (y as usize) * (self.width as usize) + (x as usize);
        self.data[idx]
    }

    /// Builds a map from a textual grid: one ASCII digit per cell, row-major,
    /// exactly `width * height` digits. Digit `0` is an empty cell; a nonzero
    /// digit is a wall material index. The derived segment list is generated
    /// once all cells are written.
    pub fn from_string(string: &str, width: u32, height: u32, cell_size: i64) -> (m: GridMap)
        requires
            1 <= width <= MAX_DIM,
            1 <= height <= MAX_DIM,
            1 <= cell_size <= MAX_CELL_SIZE,
            string@.len() == width * height,
            forall|k: int| 0 <= k < string@.len() ==> 48 <= #[trigger] (string@[k] as int) <= 57,
        ensures
            m.wf(),
            m.width == width,
            m.height == height,
            m.cell_size == cell_size,
            forall|k: int| 0 <= k < string@.len() ==> m.data@[k] == digit_at(string@, k),
            forall|x: int, y: int|
                0 <= x < width && 0 <= y < height ==> #[trigger] m.spec_cell(x, y) == digit_at(
                    string@,
                    y * width + x,
                ),
            m.segments@ == m.derived_segments((width * height) as int),
            m.textures@ =~= Seq::<TextureInfo>::empty(),
    {
        let mut map = GridMap::new(width, height, cell_size);

        let mut y: u32 = 0;
        while y < height
            invariant
                0 <= y <= height,
                map.wf(),
                map.width == width,
                map.height == height,
                map.cell_size == cell_size,
                1 <= width <= MAX_DIM,
                1 <= height <= MAX_DIM,
                string@.len() == width * height,
                forall|k: int|
                    0 <= k < string@.len() ==> 48 <= #[trigger] (string@[k] as int) <= 57,
                map.data@.len() == width * height,
                forall|k: int| 0 <= k < y * width ==> map.data@[k] == digit_at(string@, k),
                map.textures@.len() == 0,
                map.segments@.len() == 0,
            decreases height - y,
        {
            let mut x: u32 = 0;
            while x < width
                invariant
                    0 <= x <= width,
                    y < height,
                    map.wf(),
                    map.width == width,
                    map.height == height,
                    map.cell_size == cell_size,
                    1 <= width <= MAX_DIM,
                    1 <= height <= MAX_DIM,
                    string@.len() == width * height,
                    forall|k: int|
                        0 <= k < string@.len() ==> 48 <= #[trigger] (string@[k] as int) <= 57,
                    map.data@.len() == width * height,
                    forall|k: int| 0 <= k < y * width + x ==> map.data@[k] == digit_at(string@, k),
                    map.textures@.len() == 0,
                    map.segments@.len() == 0,
                decreases width - x,
            {
                proof {
                    lemma_flat_index(x as int, y as int, width as int, height as int);
                }
                let idx: usize = (y as usize) * (width as usize) + (x as usize);
                let ch: char = string.get_char(idx);
                let digit: u8 = ((ch as u32) - 48) as u8;
                map.set(x, y, digit);
                x = x + 1;
            }
            y = y + 1;
            proof {
                assert(y * width == (y - 1) * width + width) by (nonlinear_arith);
            }
        }
        proof {
            assert((height as int) * (width as int) == (width as int) * (height as int))
                by (nonlinear_arith);
        }
        map.regenerate_segments();
        proof {
            assert forall|x: int, y: int|
                0 <= x < width && 0 <= y < height implies #[trigger] map.spec_cell(x, y)
                == digit_at(string@, y * width + x) by {
                lemma_flat_index(x, y, width as int, height as int);
            }
        }
        map
    }

    /// Distance shading factor for a wall strip, in fixed-point units of
    /// brightness: full brightness (`SCALE`) up close, falling off as
    /// `2 / distance` in world units.
    pub fn shade(&self, distance: i64) -> (s: i64)
        requires
            0 <= distance <= 0x2000_0000_0000_0000,
        ensures
            s == shade_spec(distance as int),
    {
        if distance == 0 {
            SCALE
        } else {
            let q: i64 = crate::fixed::div_floor(2 * SCALE * SCALE, distance);
            if q > SCALE {
                SCALE
            } else {
                q
            }
        }
    }

    /// Shading factor for a floor or ceiling band from its on-screen height.
    pub fn shade_from_height(&self, height: u32, screen_height: u32) -> (s: i64)
        requires
            screen_height >= 1,
        ensures
            s == shade_from_height_spec(height as int, screen_height as int),
    {
        proof {
            assert(2 * (height as int) * (SCALE as int) <= 0x20_0000_0000_0000) by (nonlinear_arith)
                requires
                    height <= 0xFFFF_FFFFu32,
                    SCALE == 1024i64,
            ;
        }
        let q: u64 = (2 * (height as u64) * (SCALE as u64)) / (screen_height as u64);
        if q > SCALE as u64 {
            SCALE
        } else {
            q as i64
        }
    }

    /// Appends the four segments of the square derived from occupied cell
    /// `(cell_x, cell_y)`.
    fn add_segment_square(&mut self, cell_x: u32, cell_y: u32)
        requires
            old(self).wf(),
            cell_x < old(self).width,
            cell_y < old(self).height,
        ensures
            final(self).wf(),
            final(self).segments@ == old(self).segments@ + square_segs(
                old(self).cell_size as int,
                cell_x as int,
                cell_y as int,
            ),
            final(self).width == old(self).width,
            final(self).height == old(self).height,
            final(self).cell_size == old(self).cell_size,
            final(self).data@ == old(self).data@,
            final(self).textures@ == old(self).textures@,
            final(self).ceiling == old(self).ceiling,
            final(self).floor == old(self).floor,
    {
        proof {
            let cs = self.cell_size as int;
            assert(-0x1_0000 <= ((cell_x as int) - 1) * cs <= 0x400_0000 - 0x1_0000 && -0x1_0000
                <= ((cell_y as int) - 1) * cs <= 0x400_0000 - 0x1_0000) by (nonlinear_arith)
                requires
                    cell_x < 1024u32,
                    cell_y < 1024u32,
                    1 <= cs <= 0x1_0000,
            ;
        }
        let x: i64 = ((cell_x as i64) - 1) * self.cell_size;
        let y: i64 = ((cell_y as i64) - 1) * self.cell_size;
        let c: i64 = self.cell_size;
        let ghost before = self.segments@;
        self.segments.push(
            Segment { a: Vec2 { x, y }, b: Vec2 { x, y: y + c } },
        );
        self.segments.push(
            Segment { a: Vec2 { x, y: y + c }, b: Vec2 { x: x + c, y: y + c } },
        );
        self.segments.push(
            Segment { a: Vec2 { x: x + c, y: y + c }, b: Vec2 { x: x + c, y } },
        );
        self.segments.push(
            Segment { a: Vec2 { x: x + c, y }, b: Vec2 { x, y } },
        );
        proof {
            assert(self.segments@ =~= before + square_segs(
                self.cell_size as int,
                cell_x as int,
                cell_y as int,
            ));
        }
    }

    /// Appends one square of four segments for every occupied cell, in
    /// row-major order. Segments shared by adjacent occupied cells are not
    /// de-duplicated, and an existing list is appended to, not cleared.
    pub fn regenerate_segments(&mut self)
        requires
            old(self).wf(),
        ensures
            final(self).wf(),
            final(self).segments@ == old(self).segments@ + old(self).derived_segments(
                (old(self).width * old(self).height) as int,
            ),
            final(self).width == old(self).width,
            final(self).height == old(self).height,
            final(self).cell_size == old(self).cell_size,
            final(self).data@ == old(self).data@,
            final(self).textures@ == old(self).textures@,
            final(self).ceiling == old(self).ceiling,
            final(self).floor == old(self).floor,
    {
        let ghost orig = *self;
        let width: u32 = self.width;
        let height: u32 = self.height;
        let mut y: u32 = 0;
        while y < height
            invariant
                0 <= y <= height,
                self.wf(),
                width == self.width == orig.width,
                height == self.height == orig.height,
                self.cell_size == orig.cell_size,
                self.data@ == orig.data@,
                self.textures@ == orig.textures@,
                self.ceiling == orig.ceiling,
                self.floor == orig.floor,
                self.segments@ == orig.segments@ + orig.derived_segments((y * width) as int),
            decreases height - y,
        {
            let mut x: u32 = 0;
            proof {
                assert(y * width + width == (y + 1) * width && y * width >= 0
                    && (y + 1) * width <= height * width) by (nonlinear_arith)
                    requires
                        0 <= y < height,
                ;
            }
            while x < width
                invariant
                    0 <= x <= width,
                    y < height,
                    self.wf(),
                    width == self.width == orig.width,
                    height == self.height == orig.height,
                    self.cell_size == orig.cell_size,
                    self.data@ == orig.data@,
                    self.textures@ == orig.textures@,
                    self.ceiling == orig.ceiling,
                    self.floor == orig.floor,
                    self.segments@ == orig.segments@ + orig.derived_segments((y * width + x) as int),
                decreases width - x,
            {
                proof {
                    lemma_flat_index(x as int, y as int, width as int, height as int);
                    lemma_fundamental_div_mod_converse(
                        (y * width + x) as int,
                        width as int,
                        y as int,
                        x as int,
                    );
                }
                if self.get(x, y) > 0 {
                    self.add_segment_square(x, y);
                }
                proof {
                    assert(self.segments@ =~= orig.segments@ + orig.derived_segments(
                        (y * width + x + 1) as int,
                    ));
                }
                x = x + 1;
            }
            y = y + 1;
            proof {
                assert(y * width == (y - 1) * width + width) by (nonlinear_arith);
            }
        }
        proof {
            assert(height * width == width * height) by (nonlinear_arith);
        }
    }
}

/// Fixed-point distance shading: `min(SCALE, 2*SCALE^2 / distance)`, full
/// brightness at distance zero.
pub open spec fn shade_spec(distance: int) -> int {
    if distance == 0 {
        SCALE as int
    } else {
        let q = 2 * (SCALE as int) * (SCALE as int) / distance;
        if q > SCALE {
            SCALE as int
        } else {
            q
        }
    }
}

/// Fixed-point band shading: `min(SCALE, 2*height*SCALE / screen_height)`.
pub open spec fn shade_from_height_spec(height: int, screen_height: int) -> int {
    let q = 2 * height * (SCALE as int) / screen_height;
    if q > SCALE {
        SCALE as int
    } else {
        q
    }
}

/// Result of a raycast: the struck cell, its flat row-major index, the
/// fixed-point hit point, and the texture coordinate `u` in `[0, SCALE)`.
#[derive(Clone, Copy, PartialEq, Eq, Debug)]
pub struct RaycastResult {
    pub cell: (u32, u32),
    pub index: usize,
    pub pos: Vec2,
    pub u: i64,
}

/// Sentinel parametric distance for an axis the ray never crosses.
pub const T_INF: i64 = 0x4000_0000_0000_0000;

/// Largest accepted magnitude of a ray direction component.
pub const RAY_DIR_MAX: i64 = 0x10_0000;

/// Bound under which every parametric distance of an in-bounds ray walk
/// stays; it keeps all raycast arithmetic inside `i64`.
pub const T_BOUND: i64 = 0x200_0000_0000;

/// Per-axis walk state of the DDA traversal, over unbounded integers:
/// current one-based tile indices, per-step tile increments, remaining
/// parametric distances to the next grid-line crossings, parametric step
/// sizes, accumulated parametric time, the current hit-test point, and
/// whether the latest step was along y.
pub struct DdaState {
    pub tile_x: int,
    pub tile_y: int,
    pub dtile_x: int,
    pub dtile_y: int,
    pub dt_x: int,
    pub dt_y: int,
    pub ddt_x: int,
    pub ddt_y: int,
    pub t: int,
    pub cur_x: int,
    pub cur_y: int,
    pub was_y: bool,
}

/// Spec-level raycast hit over unbounded integers.
pub struct HitSpec {
    pub cell_x: int,
    pub cell_y: int,
    pub index: int,
    pub pos_x: int,
    pub pos_y: int,
    pub u: int,
}

/// Per-axis setup of the DDA walk: the starting one-based tile index, the
/// tile increment, the parametric distance to the first grid-line crossing,
/// and the parametric distance between successive crossings. A zero
/// direction component never advances, marked by the `T_INF` sentinel.
pub open spec fn helper_spec(c: int, pos: int, dir: int) -> (int, int, int, int) {
    let tile = pos / c + 1;
    if dir > 0 {
        (tile, 1, (tile * c - pos) * (SCALE as int) / dir, c * (SCALE as int) / dir)
    } else if dir == 0 {
        (tile, 0, T_INF as int, 0)
    } else {
        (tile, -1, (pos - (tile - 1) * c) * (SCALE as int) / (-dir), c * (SCALE as int) / (-dir))
    }
}

/// The walk state before any step.
pub open spec fn init_state(c: int, x: int, y: int, dir_x: int, dir_y: int) -> DdaState {
    let hx = helper_spec(c, x, dir_x);
    let hy = helper_spec(c, y, dir_y);
    DdaState {
        tile_x: hx.0,
        tile_y: hy.0,
        dtile_x: hx.1,
        dtile_y: hy.1,
        dt_x: hx.2,
        dt_y: hy.2,
        ddt_x: hx.3,
        ddt_y: hy.3,
        t: 0,
        cur_x: 0,
        cur_y: 0,
        was_y: hy.2 < hx.2,
    }
}

/// One DDA step: advance along whichever axis has the smaller remaining
/// parametric distance, shift both remaining distances by the elapsed time,
/// and recompute the hit-test point from the accumulated time.
pub open spec fn dda_step(s: DdaState, x: int, y: int, dir_x: int, dir_y: int) -> DdaState {
    if s.dt_x < s.dt_y {
        let t2 = s.t + s.dt_x;
        DdaState {
            tile_x: s.tile_x + s.dtile_x,
            dt_x: s.ddt_x,
            dt_y: s.dt_y - s.dt_x,
            t: t2,
            cur_x: x + dir_x * t2 / (SCALE as int),
            cur_y: y + dir_y * t2 / (SCALE as int),
            was_y: false,
            ..s
        }
    } else {
        let t2 = s.t + s.dt_y;
        DdaState {
            tile_y: s.tile_y + s.dtile_y,
            dt_x: s.dt_x - s.dt_y,
            dt_y: s.ddt_y,
            t: t2,
            cur_x: x + dir_x * t2 / (SCALE as int),
            cur_y: y + dir_y * t2 / (SCALE as int),
            was_y: true,
            ..s
        }
    }
}

/// How many more tiles the walk can visit along one axis before leaving the
/// grid: zero for an axis that never advances.
pub open spec fn axis_fuel(tile: int, dtile: int, dim: int) -> int {
    if dtile == 1 {
        if tile < dim {
            dim - tile
        } else {
            0
        }
    } else if dtile == -1 {
        if tile >= 0 {
            tile + 1
        } else {
            0
        }
    } else {
        0
    }
}

/// Upper bound on the number of remaining DDA steps.
pub open spec fn dda_fuel(s: DdaState, w: int, h: int) -> nat {
    (axis_fuel(s.tile_x, s.dtile_x, w) + axis_fuel(s.tile_y, s.dtile_y, h)) as nat
}

/// Texture coordinate from the world coordinate of the non-stepping axis:
/// its offset within the cell, normalized to `[0, SCALE)`.
pub open spec fn hit_u(c: int, cur: int) -> int {
    (crate::fixed::abs_i(cur) % c) * (SCALE as int) / c
}

impl GridMap {
    /// The hit reported when the walk stands on an occupied tile.
    pub open spec fn hit_spec(self, s: DdaState) -> HitSpec {
        HitSpec {
            cell_x: s.tile_x,
            cell_y: s.tile_y,
            index: s.tile_y * self.width + s.tile_x,
            pos_x: s.cur_x,
            pos_y: s.cur_y,
            u: if s.was_y {
                hit_u(self.cell_size as int, s.cur_x)
            } else {
                hit_u(self.cell_size as int, s.cur_y)
            },
        }
    }

    /// The DDA main loop: walk tile to tile while inside the grid; report
    /// the first occupied tile, or nothing when the walk leaves the grid.
    /// `fuel` only forces termination; it never cuts a walk short when it
    /// starts at `dda_fuel`.
    pub open spec fn dda_loop(
        self,
        x: int,
        y: int,
        dir_x: int,
        dir_y: int,
        s: DdaState,
        fuel: nat,
    ) -> Option<HitSpec>
        decreases fuel,
    {
        if !(0 <= s.tile_x < self.width && 0 <= s.tile_y < self.height) {
            None
        } else if self.spec_cell(s.tile_x, s.tile_y) != 0 {
            Some(self.hit_spec(s))
        } else if fuel == 0 {
            None
        } else {
            self.dda_loop(x, y, dir_x, dir_y, dda_step(s, x, y, dir_x, dir_y), (fuel - 1) as nat)
        }
    }

    /// The whole raycast: the DDA walk for a moving ray, or a single
    /// occupancy test at the starting tile (with `u` fixed at one half) for
    /// a zero-length direction.
    pub open spec fn cast_ray_spec(self, x: int, y: int, dir_x: int, dir_y: int) -> Option<
        HitSpec,
    > {
        let s = init_state(self.cell_size as int, x, y, dir_x, dir_y);
        if dir_x != 0 || dir_y != 0 {
            self.dda_loop(x, y, dir_x, dir_y, s, dda_fuel(s, self.width as int, self.height as int))
        } else if 0 <= s.tile_x < self.width && 0 <= s.tile_y < self.height && self.spec_cell(
            s.tile_x,
            s.tile_y,
        ) != 0 {
            Some(
                HitSpec {
                    cell_x: s.tile_x,
                    cell_y: s.tile_y,
                    index: s.tile_y * self.width + s.tile_x,
                    pos_x: 0,
                    pos_y: 0,
                    u: (SCALE as int) / 2,
                },
            )
        } else {
            None
        }
    }
}

/// Per-axis DDA setup: starting tile, tile increment, distance to the first
/// crossing, and distance between crossings, all exactly as `helper_spec`
/// describes, with the ranges the walk relies on.
pub fn raycast_helpers(cell_size: i64, pos: i64, dir: i64) -> (r: (i64, i64, i64, i64))
    requires
        1 <= cell_size <= MAX_CELL_SIZE,
        -COORD_MAX <= pos <= COORD_MAX,
        -RAY_DIR_MAX <= dir <= RAY_DIR_MAX,
    ensures
        (r.0 as int, r.1 as int, r.2 as int, r.3 as int) == helper_spec(
            cell_size as int,
            pos as int,
            dir as int,
        ),
        -0x400_0001 <= r.0 <= 0x400_0001,
        dir > 0 ==> r.1 == 1,
        dir == 0 ==> r.1 == 0 && r.2 == T_INF && r.3 == 0,
        dir < 0 ==> r.1 == -1,
        dir != 0 ==> 0 <= r.2 <= 0x400_0000 && 0 <= r.3 <= 0x400_0000,
{
    proof {
        lemma_div_abs_le(pos as int, cell_size as int);
        vstd::arithmetic::div_mod::lemma_fundamental_div_mod(pos as int, cell_size as int);
        vstd::arithmetic::div_mod::lemma_mod_bound(pos as int, cell_size as int);
    }
    let tile: i64 = crate::fixed::div_floor(pos, cell_size) + 1;
    proof {
        let q = (pos as int) / (cell_size as int);
        assert((q + 1) * (cell_size as int) == (cell_size as int) * q + (cell_size as int)
            && q * (cell_size as int) == (cell_size as int) * q) by (nonlinear_arith);
    }
    if dir > 0 {
        let num: i64 = tile * cell_size - pos;
        proof {
            lemma_div_abs_le(num * SCALE, dir as int);
            lemma_div_abs_le(cell_size * SCALE, dir as int);
        }
        let dt: i64 = crate::fixed::div_floor(num * SCALE, dir);
        let ddt: i64 = crate::fixed::div_floor(cell_size * SCALE, dir);
        (tile, 1, dt, ddt)
    } else if dir == 0 {
        (tile, 0, T_INF, 0)
    } else {
        let num: i64 = pos - (tile - 1) * cell_size;
        proof {
            lemma_div_abs_le(num * SCALE, -(dir as int));
            lemma_div_abs_le(cell_size * SCALE, -(dir as int));
        }
        let dt: i64 = crate::fixed::div_floor(num * SCALE, -dir);
        let ddt: i64 = crate::fixed::div_floor(cell_size * SCALE, -dir);
        (tile, -1, dt, ddt)
    }
}

/// Division by a positive integer keeps the quotient between zero and the
/// dividend (toward zero from above for nonnegative dividends, toward zero
/// from below for negative ones).
proof fn lemma_div_abs_le(a: int, b: int)
    requires
        b >= 1,
    ensures
        a >= 0 ==> 0 <= a / b <= a,
        a < 0 ==> a <= a / b <= 0,
{
    vstd::arithmetic::div_mod::lemma_fundamental_div_mod(a, b);
    vstd::arithmetic::div_mod::lemma_mod_bound(a, b);
    let q = a / b;
    let r = a % b;
    if a >= 0 {
        assert(0 <= q <= a) by (nonlinear_arith)
            requires
                a == b * q + r,
                0 <= r < b,
                b >= 1,
                a >= 0,
        ;
    } else {
        assert(a <= q <= 0) by (nonlinear_arith)
            requires
                a == b * q + r,
                0 <= r < b,
                b >= 1,
                a < 0,
        ;
    }
}

impl GridMap {
    /// Casts a ray from `(x, y)` along `(dir_x, dir_y)` and returns the
    /// first occupied cell it strikes, the hit point, and the texture
    /// coordinate, or nothing when the ray leaves the grid; exactly what
    /// `cast_ray_spec` describes. A zero-length direction is a single
    /// occupancy test at the starting tile, which must then be inside the
    /// grid.
    pub fn cast_ray(&self, x: i64, y: i64, dir_x: i64, dir_y: i64) -> (res: Option<RaycastResult>)
        requires
            self.wf(),
            -COORD_MAX <= x <= COORD_MAX,
            -COORD_MAX <= y <= COORD_MAX,
            -RAY_DIR_MAX <= dir_x <= RAY_DIR_MAX,
            -RAY_DIR_MAX <= dir_y <= RAY_DIR_MAX,
            dir_x == 0 && dir_y == 0 ==> {
                let s = init_state(self.cell_size as int, x as int, y as int, 0, 0);
                0 <= s.tile_x < self.width && 0 <= s.tile_y < self.height
            },
        ensures
            ({
                let spec = self.cast_ray_spec(x as int, y as int, dir_x as int, dir_y as int);
                match res {
                    None => spec is None,
                    Some(rr) => spec == Some(
                        HitSpec {
                            cell_x: rr.cell.0 as int,
                            cell_y: rr.cell.1 as int,
                            index: rr.index as int,
                            pos_x: rr.pos.x as int,
                            pos_y: rr.pos.y as int,
                            u: rr.u as int,
                        },
                    ),
                }
            }),
    {
        let c: i64 = self.cell_size;
        let ghost w = self.width as int;
        let ghost h = self.height as int;
        let (tile_x0, dtile_x, dt_x0, ddt_x) = raycast_helpers(c, x, dir_x);
        let (tile_y0, dtile_y, dt_y0, ddt_y) = raycast_helpers(c, y, dir_y);
        let mut tile_x: i64 = tile_x0;
        let mut tile_y: i64 = tile_y0;
        let mut dt_x: i64 = dt_x0;
        let mut dt_y: i64 = dt_y0;
        let mut t: i64 = 0;
        let mut cur_x: i64 = 0;
        let mut cur_y: i64 = 0;
        let mut was_y: bool = dt_y < dt_x;
        let ghost s0 = init_state(c as int, x as int, y as int, dir_x as int, dir_y as int);
        let ghost mut s = s0;
        let ghost mut kx: int = 0;
        let ghost mut ky: int = 0;
        if dir_x != 0 || dir_y != 0 {
            while tile_x >= 0 && tile_x < self.width as i64 && tile_y >= 0 && tile_y
                < self.height as i64
                invariant
                    self.wf(),
                    w == self.width as int,
                    h == self.height as int,
                    c == self.cell_size,
                    -COORD_MAX <= x <= COORD_MAX,
                    -COORD_MAX <= y <= COORD_MAX,
                    -RAY_DIR_MAX <= dir_x <= RAY_DIR_MAX,
                    -RAY_DIR_MAX <= dir_y <= RAY_DIR_MAX,
                    dir_x != 0 || dir_y != 0,
                    s.tile_x == tile_x && s.tile_y == tile_y && s.dtile_x == dtile_x && s.dtile_y
                        == dtile_y && s.dt_x == dt_x && s.dt_y == dt_y && s.ddt_x == ddt_x
                        && s.ddt_y == ddt_y && s.t == t && s.cur_x == cur_x && s.cur_y == cur_y
                        && s.was_y == was_y,
                    dtile_x == (if dir_x > 0 { 1i64 } else if dir_x == 0 { 0i64 } else { -1i64 }),
                    dtile_y == (if dir_y > 0 { 1i64 } else if dir_y == 0 { 0i64 } else { -1i64 }),
                    dir_x != 0 ==> 0 <= ddt_x <= 0x400_0000 && 0 <= dt_x0 <= 0x400_0000,
                    dir_y != 0 ==> 0 <= ddt_y <= 0x400_0000 && 0 <= dt_y0 <= 0x400_0000,
                    dir_x == 0 ==> ddt_x == 0,
                    dir_y == 0 ==> ddt_y == 0,
                    t >= 0,
                    dir_x != 0 ==> dt_x >= 0 && t + dt_x == dt_x0 + kx * ddt_x && t + dt_x
                        <= T_BOUND,
                    dir_y != 0 ==> dt_y >= 0 && t + dt_y == dt_y0 + ky * ddt_y && t + dt_y
                        <= T_BOUND,
                    dir_x == 0 ==> dt_x == T_INF - t && kx == 0,
                    dir_y == 0 ==> dt_y == T_INF - t && ky == 0,
                    0 <= kx <= 1025,
                    0 <= ky <= 1025,
                    dtile_x == 1 ==> tile_x == tile_x0 + kx,
                    dtile_x == -1 ==> tile_x == tile_x0 - kx,
                    dtile_x == 0 ==> tile_x == tile_x0 && kx == 0,
                    dtile_y == 1 ==> tile_y == tile_y0 + ky,
                    dtile_y == -1 ==> tile_y == tile_y0 - ky,
                    dtile_y == 0 ==> tile_y == tile_y0 && ky == 0,
                    kx > 0 ==> 0 <= tile_x0 < w && -1 <= tile_x <= w,
                    ky > 0 ==> 0 <= tile_y0 < h && -1 <= tile_y <= h,
                    -0x400_0001 <= tile_x0 <= 0x400_0001,
                    -0x400_0001 <= tile_y0 <= 0x400_0001,
                    -0x400_0002 <= tile_x <= 0x400_0002,
                    -0x400_0002 <= tile_y <= 0x400_0002,
                    -0x10_0000_0000_0000 <= cur_x <= 0x10_0000_0000_0000,
                    -0x10_0000_0000_0000 <= cur_y <= 0x10_0000_0000_0000,
                    self.dda_loop(
                        x as int,
                        y as int,
                        dir_x as int,
                        dir_y as int,
                        s,
                        dda_fuel(s, w, h),
                    ) == self.cast_ray_spec(x as int, y as int, dir_x as int, dir_y as int),
                decreases dda_fuel(s, w, h),
            {
                if self.get(tile_x as u32, tile_y as u32) != 0 {
                    proof {
                        lemma_flat_index(tile_x as int, tile_y as int, w, h);
                    }
                    let index: usize = (tile_y as usize) * (self.width as usize) + (
                    tile_x as usize);
                    let cur: i64 = if was_y {
                        cur_x
                    } else {
                        cur_y
                    };
                    let a: i64 = if cur < 0 {
                        -cur
                    } else {
                        cur
                    };
                    let m: u64 = (a as u64) % (c as u64);
                    let u_fp: i64 = ((m * (SCALE as u64)) / (c as u64)) as i64;
                    proof {
                        lemma_div_abs_le((m as int) * (SCALE as int), c as int);
                        assert(m as int == crate::fixed::abs_i(cur as int) % (c as int));
                        assert(u_fp as int == hit_u(c as int, cur as int));
                        assert(self.cast_ray_spec(x as int, y as int, dir_x as int, dir_y as int)
                            == Some(self.hit_spec(s)));
                        lemma_flat_index(tile_x as int, tile_y as int, w, h);
                        assert(index as int == s.tile_y * w + s.tile_x);
                    }
                    return Some(
                        RaycastResult {
                            cell: (tile_x as u32, tile_y as u32),
                            index,
                            pos: Vec2 { x: cur_x, y: cur_y },
                            u: u_fp,
                        },
                    );
                }
                proof {
                    if dt_x < dt_y {
                        // The x axis is about to step, so its direction is
                        // live: a dead axis carries the sentinel distance,
                        // which can never be the smaller one.
                        assert(dir_x != 0);
                        assert(dda_fuel(s, w, h) >= 1);
                    } else {
                        assert(dir_y != 0);
                        assert(dda_fuel(s, w, h) >= 1);
                    }
                }
                let ghost s_pre = s;
                if dt_x < dt_y {
                    let dt: i64 = dt_x;
                    proof {
                        assert(dt_x0 + (kx + 1) * ddt_x <= 0x400_0000 + 1026 * 0x400_0000)
                            by (nonlinear_arith)
                            requires
                                0 <= kx <= 1025,
                                0 <= ddt_x <= 0x400_0000,
                                0 <= dt_x0 <= 0x400_0000,
                        ;
                        assert(dt_x0 + (kx + 1) * ddt_x == dt_x0 + kx * ddt_x + ddt_x)
                            by (nonlinear_arith);
                    }
                    tile_x = tile_x + dtile_x;
                    t = t + dt;
                    dt_x = dt_x + (ddt_x - dt);
                    dt_y = dt_y - dt;
                    was_y = false;
                    proof {
                        kx = kx + 1;
                    }
                } else {
                    let dt: i64 = dt_y;
                    proof {
                        assert(dt_y0 + (ky + 1) * ddt_y <= 0x400_0000 + 1026 * 0x400_0000)
                            by (nonlinear_arith)
                            requires
                                0 <= ky <= 1025,
                                0 <= ddt_y <= 0x400_0000,
                                0 <= dt_y0 <= 0x400_0000,
                        ;
                        assert(dt_y0 + (ky + 1) * ddt_y == dt_y0 + ky * ddt_y + ddt_y)
                            by (nonlinear_arith);
                    }
                    tile_y = tile_y + dtile_y;
                    t = t + dt;
                    dt_x = dt_x - dt;
                    dt_y = dt_y + (ddt_y - dt);
                    was_y = true;
                    proof {
                        ky = ky + 1;
                    }
                }
                proof {
                    lemma_div_abs_le(dir_x as int * t as int, SCALE as int);
                    lemma_div_abs_le(dir_y as int * t as int, SCALE as int);
                    assert(-0x2000_0000_0000_0000 <= (dir_x as int) * (t as int)
                        <= 0x2000_0000_0000_0000 && -0x2000_0000_0000_0000 <= (dir_y as int) * (
                    t as int) <= 0x2000_0000_0000_0000) by (nonlinear_arith)
                        requires
                            -0x10_0000 <= dir_x <= 0x10_0000i64,
                            -0x10_0000 <= dir_y <= 0x10_0000i64,
                            0 <= t <= 0x200_0000_0000i64,
                    ;
                }
                cur_x = x + crate::fixed::div_floor(dir_x * t, SCALE);
                cur_y = y + crate::fixed::div_floor(dir_y * t, SCALE);
                proof {
                    s = dda_step(s_pre, x as int, y as int, dir_x as int, dir_y as int);
                    assert(s.tile_x == tile_x && s.tile_y == tile_y && s.dt_x == dt_x && s.dt_y
                        == dt_y && s.t == t && s.cur_x == cur_x && s.cur_y == cur_y && s.was_y
                        == was_y);
                    assert(dda_fuel(s, w, h) == dda_fuel(s_pre, w, h) - 1);
                }
            }
            proof {
                assert(self.dda_loop(x as int, y as int, dir_x as int, dir_y as int, s, dda_fuel(s, w, h))
                    is None);
            }
            None
        } else {
            if self.get(tile_x as u32, tile_y as u32) != 0 {
                proof {
                    lemma_flat_index(tile_x as int, tile_y as int, w, h);
                }
                let index: usize = (tile_y as usize) * (self.width as usize) + (tile_x as usize);
                Some(
                    RaycastResult {
                        cell: (tile_x as u32, tile_y as u32),
                        index,
                        pos: Vec2 { x: cur_x, y: cur_y },
                        u: SCALE / 2,
                    },
                )
            } else {
                None
            }
        }
    }
}

/// A row-major flat index stays inside the grid data and inside `usize`.
proof fn lemma_flat_index(x: int, y: int, w: int, h: int)
    by (nonlinear_arith)
    requires
        0 <= x < w,
        0 <= y < h,
        w <= 1024,
        h <= 1024,
    ensures
        0 <= y * w + x < w * h,
        0 <= y * w + x < h * w,
        w * h == h * w,
        y * w + x < 0x10_0000,
{
}

} // verus!
