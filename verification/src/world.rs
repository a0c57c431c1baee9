//! The voxel world: a fixed cube of blocks with grid ray traversal.
//!
//! World coordinates are signed and centered on the origin; array
//! coordinates are the non-negative indices of the backing storage. The
//! conversion between the two subtracts or adds the origin with wrapping
//! in both directions, so out-of-range inputs produce wrapping outputs
//! rather than faulting; lookups answer `None` off the grid.
//!
//! The centerpiece is the grid traversal (`cast_ray`): starting from a
//! continuous position it visits every grid cell the ray passes through,
//! in order of increasing ray parameter, until the ray leaves the grid.
//! Per axis it tracks the parameter of the next grid-line crossing; each
//! step advances the axis with the smallest such parameter, ties going to
//! the first axis in `x`, `y`, `z` order. The whole visited sequence is
//! pinned by the recursive specification `ray_trace`.

use crate::fixed::{fix_div, fix_mul, int_abs, lemma_wrap_i64_in_range, wrap_i64, crop_to_i64,
    Fix64, FRAC_HALF, FRAC_ONE};
use crate::screen::{pack_bits, packed_of_byte, unpack_bits, PackedColor, RgbColor, Screen};
use crate::vec3d::Vec3D;
use vstd::prelude::*;

verus! {

/// Side length of the world cube.
pub const SIZE: usize = 40;

/// World coordinate of array index 0 on every axis.
pub const ARRAY_AXIS_ORIGIN: i64 = -20;

/// The unit of world content: an optional packed color; absence is air.
#[derive(Clone, Copy, PartialEq, Eq, Debug)]
pub struct Block {
    pub color: Option<PackedColor>,
}

impl Block {
    /// Whether the block is air.
    pub fn is_empty(&self) -> (r: bool)
        ensures
            r == self.color.is_none(),
    {
        self.color.is_none()
    }

    /// The empty block.
    pub fn default() -> (b: Block)
        ensures
            b.color.is_none(),
    {
        Block { color: None }
    }
}

/// Storage index of array coordinates `(x, y, z)`: `z`-major, `x`-minor,
/// matching a `[z][y][x]` nesting.
pub open spec fn grid_index(x: int, y: int, z: int) -> int {
    (z * (SIZE as int) + y) * (SIZE as int) + x
}

/// Whether array coordinates address a cell of the cube.
pub open spec fn in_array(ap: Vec3D<usize>) -> bool {
    ap.x < SIZE && ap.y < SIZE && ap.z < SIZE
}

/// Whether world coordinates lie inside the cube.
pub open spec fn in_grid(pos: Vec3D<i64>) -> bool {
    &&& ARRAY_AXIS_ORIGIN <= pos.x < ARRAY_AXIS_ORIGIN + SIZE
    &&& ARRAY_AXIS_ORIGIN <= pos.y < ARRAY_AXIS_ORIGIN + SIZE
    &&& ARRAY_AXIS_ORIGIN <= pos.z < ARRAY_AXIS_ORIGIN + SIZE
}

/// Reduce a mathematical integer into the `usize` range by wrapping:
/// the result is congruent to `x` modulo `usize::MAX + 1`.
pub open spec fn wrap_usize(x: int) -> usize {
    (x % (usize::MAX as int + 1)) as usize
}

/// Wrapping a value that already fits leaves it unchanged.
pub broadcast proof fn lemma_wrap_usize_in_range(x: int)
    requires
        0 <= x <= usize::MAX,
    ensures
        #[trigger] wrap_usize(x) == x,
{
    vstd::arithmetic::div_mod::lemma_small_mod(x as nat, (usize::MAX as nat) + 1);
}

/// Compute the wrapped `usize` of a 128-bit offset.
fn wrap_to_usize(x: i128) -> (r: usize)
    ensures
        r == wrap_usize(x as int),
{
    let span = usize::MAX as i128 + 1;
    proof {
        vstd::arithmetic::div_mod::lemma_mod_bound(x as int, span as int);
    }
    let m = x.checked_rem_euclid(span).unwrap();
    m as usize
}

/// A fixed cube of blocks.
pub struct World {
    /// Blocks in `grid_index` order.
    pub blocks: Vec<Block>,
}

impl World {
    /// The storage holds exactly one block per cell.
    pub open spec fn wf(&self) -> bool {
        self.blocks@.len() == 64000
    }

    /// The block at in-grid world position `pos`.
    pub open spec fn block_at(&self, pos: Vec3D<i64>) -> Block
        recommends
            in_grid(pos),
    {
        self.blocks@[grid_index(pos.x + 20, pos.y + 20, pos.z + 20)]
    }

    /// Whether the cell at in-grid world position `pos` is air.
    pub open spec fn cell_empty(&self, pos: Vec3D<i64>) -> bool
        recommends
            in_grid(pos),
    {
        self.block_at(pos).color is None
    }

    /// Convert array coordinates to world coordinates; indices past the
    /// grid produce wrapping outputs rather than faulting.
    pub fn from_array_pos(array_pos: Vec3D<usize>) -> (r: Vec3D<i64>)
        ensures
            r.x == wrap_i64(array_pos.x - 20),
            r.y == wrap_i64(array_pos.y - 20),
            r.z == wrap_i64(array_pos.z - 20),
            array_pos.x <= i64::MAX ==> r.x == array_pos.x - 20,
            array_pos.y <= i64::MAX ==> r.y == array_pos.y - 20,
            array_pos.z <= i64::MAX ==> r.z == array_pos.z - 20,
    {
        proof {
            broadcast use lemma_wrap_i64_in_range;
        }
        Vec3D {
            x: crop_to_i64(array_pos.x as i128 - 20),
            y: crop_to_i64(array_pos.y as i128 - 20),
            z: crop_to_i64(array_pos.z as i128 - 20),
        }
    }

    /// Convert world coordinates to array coordinates by subtracting the
    /// origin; out-of-range inputs produce wrapping outputs rather than
    /// faulting, mirroring `from_array_pos` exactly.
    pub fn array_pos(pos: Vec3D<i64>) -> (r: Vec3D<usize>)
        ensures
            r.x == wrap_usize(pos.x - ARRAY_AXIS_ORIGIN),
            r.y == wrap_usize(pos.y - ARRAY_AXIS_ORIGIN),
            r.z == wrap_usize(pos.z - ARRAY_AXIS_ORIGIN),
            -20 <= pos.x < 20 ==> r.x == pos.x + 20,
            -20 <= pos.y < 20 ==> r.y == pos.y + 20,
            -20 <= pos.z < 20 ==> r.z == pos.z + 20,
    {
        proof {
            broadcast use lemma_wrap_usize_in_range;
        }
        Vec3D {
            x: wrap_to_usize(pos.x as i128 - ARRAY_AXIS_ORIGIN as i128),
            y: wrap_to_usize(pos.y as i128 - ARRAY_AXIS_ORIGIN as i128),
            z: wrap_to_usize(pos.z as i128 - ARRAY_AXIS_ORIGIN as i128),
        }
    }

    /// The block at array coordinates, if they address a cell.
    pub fn get_array(&self, array_pos: Vec3D<usize>) -> (r: Option<Block>)
        requires
            self.wf(),
        ensures
            r == (if in_array(array_pos) {
                Some(self.blocks@[grid_index(array_pos.x as int, array_pos.y as int, array_pos.z as int)])
            } else {
                None::<Block>
            }),
    {
        if array_pos.x < 40 && array_pos.y < 40 && array_pos.z < 40 {
            Some(self.blocks[(array_pos.z * 40 + array_pos.y) * 40 + array_pos.x])
        } else {
            None
        }
    }

    /// Overwrite the block at array coordinates; reports whether they
    /// addressed a cell.
    pub fn set_array(&mut self, array_pos: Vec3D<usize>, block: Block) -> (ok: bool)
        requires
            old(self).wf(),
        ensures
            final(self).wf(),
            ok == in_array(array_pos),
            in_array(array_pos) ==> final(self).blocks@ == old(self).blocks@.update(
                grid_index(array_pos.x as int, array_pos.y as int, array_pos.z as int),
                block,
            ),
            !in_array(array_pos) ==> final(self).blocks@ == old(self).blocks@,
    {
        if array_pos.x < 40 && array_pos.y < 40 && array_pos.z < 40 {
            let idx = (array_pos.z * 40 + array_pos.y) * 40 + array_pos.x;
            self.blocks[idx] = block;
            true
        } else {
            false
        }
    }

    /// The block at world position `pos`: `Some` exactly on the grid,
    /// `None` outside it, never a fault.
    pub fn get(&self, pos: Vec3D<i64>) -> (r: Option<Block>)
        requires
            self.wf(),
        ensures
            r == (if in_grid(pos) {
                Some(self.block_at(pos))
            } else {
                None::<Block>
            }),
    {
        if pos.x >= -20 && pos.x < 20 && pos.y >= -20 && pos.y < 20 && pos.z >= -20 && pos.z
            < 20 {
            let idx = (((pos.z + 20) * 40 + (pos.y + 20)) * 40 + (pos.x + 20)) as usize;
            Some(self.blocks[idx])
        } else {
            None
        }
    }

    /// Overwrite the block at world position `pos`; reports whether the
    /// position was on the grid.
    pub fn set(&mut self, pos: Vec3D<i64>, block: Block) -> (ok: bool)
        requires
            old(self).wf(),
        ensures
            final(self).wf(),
            ok == in_grid(pos),
            in_grid(pos) ==> final(self).blocks@ == old(self).blocks@.update(
                grid_index(pos.x + 20, pos.y + 20, pos.z + 20),
                block,
            ),
            !in_grid(pos) ==> final(self).blocks@ == old(self).blocks@,
    {
        if pos.x >= -20 && pos.x < 20 && pos.y >= -20 && pos.y < 20 && pos.z >= -20 && pos.z
            < 20 {
            let idx = (((pos.z + 20) * 40 + (pos.y + 20)) * 40 + (pos.x + 20)) as usize;
            self.blocks[idx] = block;
            true
        } else {
            false
        }
    }
}

/// Law: the coordinate conversions are mutual inverses on array
/// coordinates: every index, wrapped to a world position and back,
/// returns unchanged.
pub proof fn lemma_array_pos_round_trip(ap: usize)
    ensures
        wrap_usize(wrap_i64(ap - 20) + 20) == ap,
{
    let span = usize::MAX as int + 1;
    let big = 0x1_0000_0000_0000_0000int;
    let y = ap - 20;
    vstd::arithmetic::div_mod::lemma_fundamental_div_mod(y, big);
    let k = if y % big > i64::MAX as int {
        y / big + 1
    } else {
        y / big
    };
    assert(wrap_i64(y) == y - big * k) by {
        assert(big * (y / big + 1) == big * (y / big) + big) by (nonlinear_arith);
    }
    let f = if usize::BITS == 32 {
        0x1_0000_0000int
    } else {
        1int
    };
    assert(big == span * f);
    assert(big * k == span * (f * k)) by (nonlinear_arith)
        requires
            big == span * f,
    ;
    assert(wrap_i64(y) + 20 == span * (-(f * k)) + ap) by (nonlinear_arith)
        requires
            wrap_i64(y) == y - span * (f * k) && y == ap - 20,
    ;
    vstd::arithmetic::div_mod::lemma_mod_multiples_vanish(-(f * k), ap as int, span);
    vstd::arithmetic::div_mod::lemma_small_mod(ap as nat, span as nat);
}

/// Law: on the 64-bit layout the conversions invert in the other
/// direction too: every world position, wrapped to an index and back,
/// returns unchanged.
pub proof fn lemma_world_pos_round_trip(p: i64)
    requires
        usize::BITS == 64,
    ensures
        wrap_i64(wrap_usize(p - ARRAY_AXIS_ORIGIN) - 20) == p,
{
    let span = usize::MAX as int + 1;
    let big = 0x1_0000_0000_0000_0000int;
    assert(span == big);
    let u = wrap_usize(p + 20) as int;
    vstd::arithmetic::div_mod::lemma_fundamental_div_mod(p + 20, big);
    let k = (p + 20) / big;
    assert(u == p + 20 - big * k);
    assert(u - 20 == big * (-k) + p) by (nonlinear_arith)
        requires
            u == p + 20 - big * k,
    ;
    vstd::arithmetic::div_mod::lemma_mod_multiples_vanish(-k, p as int, big);
    assert((u - 20) % big == (p as int) % big);
    lemma_wrap_i64_in_range(p as int);
    assert(wrap_i64(u - 20) == wrap_i64(p as int));
}

/// Traversal state of one axis: the cell boundary the ray will cross
/// next (`next_pos`, `next_t`) and the per-crossing increments. All
/// values are fixed-point bits or plain cell coordinates.
#[derive(Clone, Copy, PartialEq, Eq, Debug)]
pub struct RayCastDimension {
    /// Cell coordinate entered at the next crossing on this axis.
    pub next_pos: i64,
    /// Ray parameter of the next crossing (fixed-point bits).
    pub next_t: i64,
    /// Parameter distance between crossings: `|1 / dir|` (bits).
    pub t_step: i64,
    /// Cell step per crossing: 1 or -1.
    pub pos_step: i64,
}

/// The initial state of one axis, or `None` when the direction component
/// is zero and the axis never advances.
pub open spec fn ray_dim_spec(start: i64, dir: i64) -> Option<RayCastDimension> {
    if dir == 0 {
        None
    } else {
        let step: int = if dir < 0 {
            -1
        } else {
            1
        };
        let inv = fix_div(FRAC_ONE, dir);
        let fl = (start as int) / (FRAC_ONE as int);
        let next_pos = fl + step;
        let target = if step > 0 {
            wrap_i64(next_pos * (FRAC_ONE as int))
        } else {
            wrap_i64(wrap_i64(next_pos * (FRAC_ONE as int)) + FRAC_ONE)
        };
        let next_t = fix_mul(wrap_i64(target - start), inv);
        let t_step = if inv == i64::MIN {
            i64::MIN as int
        } else {
            int_abs(inv as int)
        };
        Some(
            RayCastDimension {
                next_pos: next_pos as i64,
                next_t: next_t,
                t_step: t_step as i64,
                pos_step: step as i64,
            },
        )
    }
}

impl RayCastDimension {
    /// Set up one axis of a traversal from the start coordinate and the
    /// direction component.
    pub fn new(start: Fix64, dir: Fix64) -> (r: Option<RayCastDimension>)
        ensures
            r == ray_dim_spec(start@, dir@),
    {
        let pos_step = dir.signum();
        if pos_step == 0 {
            return None;
        }
        let inv_dir = Fix64::from_bits(FRAC_ONE).div(dir);
        let next_pos = start.floor() + pos_step;
        let target = if pos_step > 0 {
            Fix64::from_int(next_pos)
        } else {
            Fix64::from_int(next_pos).add(Fix64::from_bits(FRAC_ONE))
        };
        let next_t = target.sub(start).mul(inv_dir);
        Some(
            RayCastDimension {
                next_pos,
                next_t: next_t.as_bits(),
                t_step: inv_dir.abs().as_bits(),
                pos_step,
            },
        )
    }

    /// Advance to the following crossing on this axis.
    pub fn step(&mut self)
        ensures
            final(self).next_t == wrap_i64(old(self).next_t + old(self).t_step),
            final(self).next_pos == wrap_i64(old(self).next_pos + old(self).pos_step),
            final(self).t_step == old(self).t_step,
            final(self).pos_step == old(self).pos_step,
    {
        self.next_t = crop_to_i64(self.next_t as i128 + self.t_step as i128);
        self.next_pos = crop_to_i64(self.next_pos as i128 + self.pos_step as i128);
    }
}

/// Well-formedness of one axis state relative to the current cell: the
/// step is a unit and `next_pos` is the adjacent cell in that direction.
pub open spec fn dim_wf(c: RayCastDimension, p: i64) -> bool {
    (c.pos_step == 1 || c.pos_step == -1) && c.next_pos == p + c.pos_step
}

/// Well-formedness of a whole traversal state.
pub open spec fn casters_wf(
    pos: Vec3D<i64>,
    cx: Option<RayCastDimension>,
    cy: Option<RayCastDimension>,
    cz: Option<RayCastDimension>,
) -> bool {
    &&& (cx matches Some(c) ==> dim_wf(c, pos.x))
    &&& (cy matches Some(c) ==> dim_wf(c, pos.y))
    &&& (cz matches Some(c) ==> dim_wf(c, pos.z))
}

/// The axis advanced next: the first axis, in `x`, `y`, `z` order, whose
/// pending crossing parameter is strictly smallest; 3 when no axis can
/// advance.
pub open spec fn min_axis(
    cx: Option<RayCastDimension>,
    cy: Option<RayCastDimension>,
    cz: Option<RayCastDimension>,
) -> int {
    let m0: (int, int) = (3, i64::MAX as int);
    let m1: (int, int) = match cx {
        Some(c) => if (c.next_t as int) < m0.1 {
            (0, c.next_t as int)
        } else {
            m0
        },
        None => m0,
    };
    let m2: (int, int) = match cy {
        Some(c) => if (c.next_t as int) < m1.1 {
            (1, c.next_t as int)
        } else {
            m1
        },
        None => m1,
    };
    let m3: (int, int) = match cz {
        Some(c) => if (c.next_t as int) < m2.1 {
            (2, c.next_t as int)
        } else {
            m2
        },
        None => m2,
    };
    m3.0
}

/// One crossing on an axis: the following boundary and parameter.
pub open spec fn step_dim(c: RayCastDimension) -> RayCastDimension {
    RayCastDimension {
        next_pos: wrap_i64(c.next_pos + c.pos_step),
        next_t: wrap_i64(c.next_t + c.t_step),
        t_step: c.t_step,
        pos_step: c.pos_step,
    }
}

/// How many more cells this axis can visit before it leaves the grid;
/// 0 for an axis that never advances.
pub open spec fn axis_rem(c: Option<RayCastDimension>, p: i64) -> nat {
    match c {
        Some(c) => if c.pos_step == 1 {
            if p <= 20 {
                (20 - p) as nat
            } else {
                0
            }
        } else {
            if p >= -21 {
                (p + 21) as nat
            } else {
                0
            }
        },
        None => 0,
    }
}

/// Termination measure of a traversal: cells left before every advancing
/// axis has crossed the grid.
pub open spec fn trace_measure(
    pos: Vec3D<i64>,
    cx: Option<RayCastDimension>,
    cy: Option<RayCastDimension>,
    cz: Option<RayCastDimension>,
) -> nat {
    axis_rem(cx, pos.x) + axis_rem(cy, pos.y) + axis_rem(cz, pos.z)
}

/// The cells a traversal visits from state `(pos, cx, cy, cz)`: every
/// in-grid cell in ray order, ending when the ray leaves the grid or no
/// axis can advance. (A state whose axis bookkeeping is out of step with
/// the current cell stops at that cell; the traversal never constructs
/// such a state.)
pub open spec fn ray_trace(
    pos: Vec3D<i64>,
    cx: Option<RayCastDimension>,
    cy: Option<RayCastDimension>,
    cz: Option<RayCastDimension>,
) -> Seq<Vec3D<i64>>
    decreases trace_measure(pos, cx, cy, cz),
{
    if !in_grid(pos) {
        Seq::empty()
    } else if !casters_wf(pos, cx, cy, cz) {
        seq![pos]
    } else {
        let a = min_axis(cx, cy, cz);
        if a == 0 {
            match cx {
                Some(c) => seq![pos] + ray_trace(
                    Vec3D { x: c.next_pos, y: pos.y, z: pos.z },
                    Some(step_dim(c)),
                    cy,
                    cz,
                ),
                None => seq![pos],
            }
        } else if a == 1 {
            match cy {
                Some(c) => seq![pos] + ray_trace(
                    Vec3D { x: pos.x, y: c.next_pos, z: pos.z },
                    cx,
                    Some(step_dim(c)),
                    cz,
                ),
                None => seq![pos],
            }
        } else if a == 2 {
            match cz {
                Some(c) => seq![pos] + ray_trace(
                    Vec3D { x: pos.x, y: pos.y, z: c.next_pos },
                    cx,
                    cy,
                    Some(step_dim(c)),
                ),
                None => seq![pos],
            }
        } else {
            seq![pos]
        }
    }
}

/// The first cell a traversal starts from: the floor of the start
/// coordinates.
pub open spec fn start_cell(start: Vec3D<Fix64>) -> Vec3D<i64> {
    Vec3D {
        x: ((start.x@ as int) / (FRAC_ONE as int)) as i64,
        y: ((start.y@ as int) / (FRAC_ONE as int)) as i64,
        z: ((start.z@ as int) / (FRAC_ONE as int)) as i64,
    }
}

/// The whole visited sequence of a cast from `start` toward `dir`.
pub open spec fn cast_trace(w: &World, start: Vec3D<Fix64>, dir: Vec3D<Fix64>) -> Seq<Vec3D<i64>> {
    ray_trace(
        start_cell(start),
        ray_dim_spec(start.x@, dir.x@),
        ray_dim_spec(start.y@, dir.y@),
        ray_dim_spec(start.z@, dir.z@),
    )
}

impl World {
    /// Visit every grid cell the ray passes through, in order of
    /// increasing ray parameter, until it leaves the grid; ties between
    /// axes go to the first axis in `x`, `y`, `z` order.
    pub fn cast_ray(&self, start: Vec3D<Fix64>, dir: Vec3D<Fix64>) -> (r: Vec<Vec3D<i64>>)
        requires
            self.wf(),
        ensures
            r@ == cast_trace(self, start, dir),
    {
        let mut px = start.x.floor();
        let mut py = start.y.floor();
        let mut pz = start.z.floor();
        let mut cx = RayCastDimension::new(start.x, dir.x);
        let mut cy = RayCastDimension::new(start.y, dir.y);
        let mut cz = RayCastDimension::new(start.z, dir.z);
        let mut out: Vec<Vec3D<i64>> = Vec::new();
        let ghost t0 = cast_trace(self, start, dir);
        loop
            invariant_except_break
                t0 == out@ + ray_trace(Vec3D { x: px, y: py, z: pz }, cx, cy, cz),
            ensures
                out@ == t0,
            decreases trace_measure(Vec3D { x: px, y: py, z: pz }, cx, cy, cz),
        {
            let pos = Vec3D { x: px, y: py, z: pz };
            if !(px >= -20 && px < 20 && py >= -20 && py < 20 && pz >= -20 && pz < 20) {
                proof {
                    assert(t0 =~= out@);
                }
                break;
            }
            out.push(pos);
            if !casters_ok(pos, cx, cy, cz) {
                proof {
                    assert(t0 =~= out@);
                }
                break;
            }
            let mut min_i: usize = 3;
            let mut min_t: i64 = i64::MAX;
            if let Some(c) = &cx {
                if c.next_t < min_t {
                    min_t = c.next_t;
                    min_i = 0;
                }
            }
            if let Some(c) = &cy {
                if c.next_t < min_t {
                    min_t = c.next_t;
                    min_i = 1;
                }
            }
            if let Some(c) = &cz {
                if c.next_t < min_t {
                    min_t = c.next_t;
                    min_i = 2;
                }
            }
            proof {
                assert(min_i as int == min_axis(cx, cy, cz));
            }
            if min_i == 0 {
                match &mut cx {
                    Some(c) => {
                        px = c.next_pos;
                        c.step();
                    },
                    None => {
                        proof {
                            assert(false);
                        }
                    },
                }
            } else if min_i == 1 {
                match &mut cy {
                    Some(c) => {
                        py = c.next_pos;
                        c.step();
                    },
                    None => {
                        proof {
                            assert(false);
                        }
                    },
                }
            } else if min_i == 2 {
                match &mut cz {
                    Some(c) => {
                        pz = c.next_pos;
                        c.step();
                    },
                    None => {
                        proof {
                            assert(false);
                        }
                    },
                }
            } else {
                proof {
                    assert(t0 =~= out@);
                }
                break;
            }
            proof {
                assert(t0 =~= out@ + ray_trace(Vec3D { x: px, y: py, z: pz }, cx, cy, cz));
            }
        }
        out
    }
}

/// Runtime test of `casters_wf`; always true for the states the
/// traversal builds, but checked so the loop mirrors its specification
/// exactly.
fn casters_ok(
    pos: Vec3D<i64>,
    cx: Option<RayCastDimension>,
    cy: Option<RayCastDimension>,
    cz: Option<RayCastDimension>,
) -> (r: bool)
    ensures
        r == casters_wf(pos, cx, cy, cz),
{
    let okx = match cx {
        Some(c) => (c.pos_step == 1 || c.pos_step == -1) && c.next_pos as i128 == pos.x as i128
            + c.pos_step as i128,
        None => true,
    };
    let oky = match cy {
        Some(c) => (c.pos_step == 1 || c.pos_step == -1) && c.next_pos as i128 == pos.y as i128
            + c.pos_step as i128,
        None => true,
    };
    let okz = match cz {
        Some(c) => (c.pos_step == 1 || c.pos_step == -1) && c.next_pos as i128 == pos.z as i128
            + c.pos_step as i128,
        None => true,
    };
    okx && oky && okz
}

/// Law: every cell a traversal visits lies inside the grid.
pub proof fn lemma_trace_in_grid(
    pos: Vec3D<i64>,
    cx: Option<RayCastDimension>,
    cy: Option<RayCastDimension>,
    cz: Option<RayCastDimension>,
)
    ensures
        forall|i: int|
            0 <= i < ray_trace(pos, cx, cy, cz).len() ==> in_grid(
                #[trigger] ray_trace(pos, cx, cy, cz)[i],
            ),
    decreases trace_measure(pos, cx, cy, cz),
{
    if !in_grid(pos) || !casters_wf(pos, cx, cy, cz) {
    } else {
        let a = min_axis(cx, cy, cz);
        let t = ray_trace(pos, cx, cy, cz);
        if a == 0 {
            match cx {
                Some(c) => {
                    let p2 = Vec3D { x: c.next_pos, y: pos.y, z: pos.z };
                    let sub = ray_trace(p2, Some(step_dim(c)), cy, cz);
                    lemma_trace_in_grid(p2, Some(step_dim(c)), cy, cz);
                    assert forall|i: int| 0 <= i < t.len() implies in_grid(#[trigger] t[i]) by {
                        if i > 0 {
                            assert(t[i] == sub[i - 1]);
                        }
                    }
                },
                None => {},
            }
        } else if a == 1 {
            match cy {
                Some(c) => {
                    let p2 = Vec3D { x: pos.x, y: c.next_pos, z: pos.z };
                    let sub = ray_trace(p2, cx, Some(step_dim(c)), cz);
                    lemma_trace_in_grid(p2, cx, Some(step_dim(c)), cz);
                    assert forall|i: int| 0 <= i < t.len() implies in_grid(#[trigger] t[i]) by {
                        if i > 0 {
                            assert(t[i] == sub[i - 1]);
                        }
                    }
                },
                None => {},
            }
        } else if a == 2 {
            match cz {
                Some(c) => {
                    let p2 = Vec3D { x: pos.x, y: pos.y, z: c.next_pos };
                    let sub = ray_trace(p2, cx, cy, Some(step_dim(c)));
                    lemma_trace_in_grid(p2, cx, cy, Some(step_dim(c)));
                    assert forall|i: int| 0 <= i < t.len() implies in_grid(#[trigger] t[i]) by {
                        if i > 0 {
                            assert(t[i] == sub[i - 1]);
                        }
                    }
                },
                None => {},
            }
        }
    }
}

/// Whether `b` is exactly one unit axis step away from `a`.
pub open spec fn unit_step(a: Vec3D<i64>, b: Vec3D<i64>) -> bool {
    ||| (int_abs(b.x - a.x) == 1 && b.y == a.y && b.z == a.z)
    ||| (b.x == a.x && int_abs(b.y - a.y) == 1 && b.z == a.z)
    ||| (b.x == a.x && b.y == a.y && int_abs(b.z - a.z) == 1)
}

/// Law: consecutive cells of a traversal differ by exactly one of the
/// six unit axis steps.
#[verifier::rlimit(60)]
pub proof fn lemma_trace_unit_steps(
    pos: Vec3D<i64>,
    cx: Option<RayCastDimension>,
    cy: Option<RayCastDimension>,
    cz: Option<RayCastDimension>,
)
    ensures
        forall|i: int|
            0 <= i && i + 1 < ray_trace(pos, cx, cy, cz).len() ==> unit_step(
                #[trigger] ray_trace(pos, cx, cy, cz)[i],
                ray_trace(pos, cx, cy, cz)[i + 1],
            ),
    decreases trace_measure(pos, cx, cy, cz),
{
    if !in_grid(pos) || !casters_wf(pos, cx, cy, cz) {
    } else {
        let a = min_axis(cx, cy, cz);
        if a == 0 {
            match cx {
                Some(c) => {
                    let p2 = Vec3D { x: c.next_pos, y: pos.y, z: pos.z };
                    lemma_trace_unit_steps(p2, Some(step_dim(c)), cy, cz);
                    assert(ray_trace(p2, Some(step_dim(c)), cy, cz).len() > 0 ==> ray_trace(
                        p2,
                        Some(step_dim(c)),
                        cy,
                        cz,
                    )[0] == p2);
                },
                None => {},
            }
        } else if a == 1 {
            match cy {
                Some(c) => {
                    let p2 = Vec3D { x: pos.x, y: c.next_pos, z: pos.z };
                    lemma_trace_unit_steps(p2, cx, Some(step_dim(c)), cz);
                    assert(ray_trace(p2, cx, Some(step_dim(c)), cz).len() > 0 ==> ray_trace(
                        p2,
                        cx,
                        Some(step_dim(c)),
                        cz,
                    )[0] == p2);
                },
                None => {},
            }
        } else if a == 2 {
            match cz {
                Some(c) => {
                    let p2 = Vec3D { x: pos.x, y: pos.y, z: c.next_pos };
                    lemma_trace_unit_steps(p2, cx, cy, Some(step_dim(c)));
                    assert(ray_trace(p2, cx, cy, Some(step_dim(c))).len() > 0 ==> ray_trace(
                        p2,
                        cx,
                        cy,
                        Some(step_dim(c)),
                    )[0] == p2);
                },
                None => {},
            }
        }
    }
}

/// The index of the first non-empty cell of `t`, or `t.len()` when every
/// cell is empty.
pub open spec fn first_hit_index(w: &World, t: Seq<Vec3D<i64>>) -> int
    decreases t.len(),
{
    if t.len() == 0 {
        0
    } else if !w.cell_empty(t[0]) {
        0
    } else {
        1 + first_hit_index(w, t.skip(1))
    }
}

/// What `first_hit_index` returns: a position within (or one past) the
/// sequence, with only empty cells before it and, when inside, a
/// non-empty cell at it.
pub proof fn lemma_first_hit_index(w: &World, t: Seq<Vec3D<i64>>)
    ensures
        0 <= first_hit_index(w, t) <= t.len(),
        forall|j: int| 0 <= j < first_hit_index(w, t) ==> w.cell_empty(#[trigger] t[j]),
        first_hit_index(w, t) < t.len() ==> !w.cell_empty(t[first_hit_index(w, t)]),
    decreases t.len(),
{
    if t.len() == 0 {
    } else if !w.cell_empty(t[0]) {
    } else {
        lemma_first_hit_index(w, t.skip(1));
        assert forall|j: int| 0 <= j < first_hit_index(w, t) implies w.cell_empty(
            #[trigger] t[j],
        ) by {
            if j > 0 {
                assert(t[j] == t.skip(1)[j - 1]);
            }
        }
        assert(first_hit_index(w, t) < t.len() ==> t[first_hit_index(w, t)] == t.skip(1)[
            first_hit_index(w, t.skip(1))
        ]);
    }
}

impl World {
    /// Scan a visited-cell sequence for the first non-empty cell.
    fn scan_first_hit(&self, t: &Vec<Vec3D<i64>>) -> (r: (
        Option<Vec3D<i64>>,
        Option<Vec3D<i64>>,
    ))
        requires
            self.wf(),
            forall|j: int| 0 <= j < t@.len() ==> in_grid(#[trigger] t@[j]),
        ensures
            ({
                let k = first_hit_index(self, t@);
                &&& r.1 == (if k < t@.len() {
                    Some(t@[k])
                } else {
                    None::<Vec3D<i64>>
                })
                &&& r.0 == (if k > 0 {
                    Some(t@[k - 1])
                } else {
                    None::<Vec3D<i64>>
                })
            }),
    {
        let ghost k = first_hit_index(self, t@);
        proof {
            lemma_first_hit_index(self, t@);
        }
        let mut i: usize = 0;
        let mut prev_pos: Option<Vec3D<i64>> = None;
        while i < t.len()
            invariant
                self.wf(),
                k == first_hit_index(self, t@),
                0 <= k <= t@.len(),
                i <= t@.len(),
                i <= k,
                forall|j: int| 0 <= j < k ==> self.cell_empty(#[trigger] t@[j]),
                forall|j: int| 0 <= j < t@.len() ==> in_grid(#[trigger] t@[j]),
                k < t@.len() ==> !self.cell_empty(t@[k as int]),
                prev_pos == (if i > 0 {
                    Some(t@[i - 1])
                } else {
                    None::<Vec3D<i64>>
                }),
            decreases t@.len() - i,
        {
            let pos = t[i];
            let block = self.get(pos).unwrap();
            if !block.is_empty() {
                proof {
                    if i < k {
                        assert(self.cell_empty(t@[i as int]));
                    }
                    assert(k == i);
                }
                return (prev_pos, Some(pos));
            }
            proof {
                if k == i {
                    assert(!self.cell_empty(t@[k as int]));
                }
                assert(i < k);
            }
            prev_pos = Some(pos);
            i = i + 1;
        }
        proof {
            assert(k == t@.len());
        }
        (prev_pos, None)
    }

    /// Walk the ray and report the last empty cell visited before the
    /// first non-empty cell (for placing) and that non-empty cell itself
    /// (for removal); either is `None` when the walk never produced it.
    pub fn get_hit_pos(&self, start: Vec3D<Fix64>, forward: Vec3D<Fix64>) -> (r: (
        Option<Vec3D<i64>>,
        Option<Vec3D<i64>>,
    ))
        requires
            self.wf(),
        ensures
            ({
                let t = cast_trace(self, start, forward);
                let k = first_hit_index(self, t);
                &&& r.1 == (if k < t.len() {
                    Some(t[k])
                } else {
                    None::<Vec3D<i64>>
                })
                &&& r.0 == (if k > 0 {
                    Some(t[k - 1])
                } else {
                    None::<Vec3D<i64>>
                })
            }),
    {
        let t = self.cast_ray(start, forward);
        proof {
            lemma_trace_in_grid(
                start_cell(start),
                ray_dim_spec(start.x@, forward.x@),
                ray_dim_spec(start.y@, forward.y@),
                ray_dim_spec(start.z@, forward.z@),
            );
        }
        self.scan_first_hit(&t)
    }
}

/// A dense block grid of fixed dimensions, stamped into the world at
/// initialization: the build-time shape asset in library form.
pub struct Schematic {
    /// Extent along `x`.
    pub size_x: usize,
    /// Extent along `y`.
    pub size_y: usize,
    /// Extent along `z`.
    pub size_z: usize,
    /// Blocks in `z`-major, `x`-minor order, like the world itself.
    pub blocks: Vec<Block>,
}

impl Schematic {
    /// The storage holds one block per cell and the extents stay small
    /// enough for all index arithmetic.
    pub open spec fn wf(&self) -> bool {
        &&& self.blocks@.len() == self.size_x * self.size_y * self.size_z
        &&& self.size_x <= 1000
        &&& self.size_y <= 1000
        &&& self.size_z <= 1000
    }
}

/// The block a schematic centered at `center_at` contributes at world
/// position `pos`, if `pos` falls inside its extent.
pub open spec fn schematic_block_spec(sch: &Schematic, pos: Vec3D<i64>, center_at: Vec3D<i64>) -> Option<Block>
    recommends
        sch.wf(),
        in_grid(pos),
        in_grid(center_at),
{
    let x = pos.x - center_at.x + (sch.size_x as int) / 2;
    let y = pos.y - center_at.y + (sch.size_y as int) / 2;
    let z = pos.z - center_at.z + (sch.size_z as int) / 2;
    if 0 <= x < sch.size_x && 0 <= y < sch.size_y && 0 <= z < sch.size_z {
        Some(sch.blocks@[(z * sch.size_y + y) * sch.size_x + x])
    } else {
        None
    }
}

/// Look up the block a schematic centered at `center_at` holds for
/// world position `pos`, if any.
pub fn init_block_schematic(pos: Vec3D<i64>, center_at: Vec3D<i64>, schematic: &Schematic) -> (r:
    Option<Block>)
    requires
        schematic.wf(),
        in_grid(pos),
        in_grid(center_at),
    ensures
        r == schematic_block_spec(schematic, pos, center_at),
{
    let x = pos.x - center_at.x + (schematic.size_x / 2) as i64;
    let y = pos.y - center_at.y + (schematic.size_y / 2) as i64;
    let z = pos.z - center_at.z + (schematic.size_z / 2) as i64;
    if x >= 0 && x < schematic.size_x as i64 && y >= 0 && y < schematic.size_y as i64 && z >= 0
        && z < schematic.size_z as i64 {
        proof {
            let xi = x as int;
            let yi = y as int;
            let zi = z as int;
            let sx = schematic.size_x as int;
            let sy = schematic.size_y as int;
            let sz = schematic.size_z as int;
            assert(0 <= zi * sy + yi < 1000000 && 0 <= (zi * sy + yi) * sx + xi < 1000000000 && (zi
                * sy + yi) * sx + xi < sx * sy * sz) by (nonlinear_arith)
                requires
                    0 <= xi < sx && 0 <= yi < sy && 0 <= zi < sz && sx <= 1000 && sy <= 1000 && sz
                        <= 1000;
        }
        let idx = (z as usize * schematic.size_y + y as usize) * schematic.size_x + x as usize;
        Some(schematic.blocks[idx])
    } else {
        None
    }
}

/// The deterministic pseudo-color of a shell cell: each channel scales
/// its world coordinate into the byte range.
pub open spec fn pseudo_color_spec(pos: Vec3D<i64>) -> RgbColor
    recommends
        in_grid(pos),
{
    RgbColor {
        r: (crate::fixed::div_trunc(pos.x * 255, 40) + 128) as u8,
        g: (crate::fixed::div_trunc(pos.y * 255, 40) + 128) as u8,
        b: (crate::fixed::div_trunc(pos.z * 255, 40) + 128) as u8,
    }
}

/// The checkerboard shade at a floor cell: a three-bit mix of the
/// coordinates, spread over eight grey levels.
pub open spec fn checker_color_spec(pos: Vec3D<i64>) -> RgbColor {
    let c = ((((pos.x ^ pos.y ^ pos.z) as u64) % 8) * 16 + 0x40) as u8;
    RgbColor { r: c, g: c, b: c }
}

/// Squared distance between a world position and a sphere center.
pub open spec fn dist_sq(pos: Vec3D<i64>, cx: int, cy: int, cz: int) -> int {
    (pos.x - cx) * (pos.x - cx) + (pos.y - cy) * (pos.y - cy) + (pos.z - cz) * (pos.z - cz)
}

/// A block holding the packed form of the color with the given channels.
pub open spec fn colored_block(r: int, g: int, b: int) -> Block {
    Block { color: Some(packed_of_byte(pack_bits(r, g, b) as u8)) }
}

/// The generated content of the cell at world position `pos` (array
/// position `ap`): pseudo-colored shell, empty interior, a checkerboard
/// floor plane, and five solid spheres stamped last (later spheres win
/// on overlap).
pub open spec fn init_block_spec(pos: Vec3D<i64>, ap: Vec3D<usize>) -> Block
    recommends
        in_grid(pos),
        in_array(ap),
{
    let base = if 0 < ap.x < 39 && 0 < ap.y < 39 && 0 < ap.z < 39 {
        Block { color: None }
    } else {
        Block {
            color: Some(
                packed_of_byte(
                    pack_bits(
                        crate::fixed::div_trunc(pos.x * 255, 40) + 128,
                        crate::fixed::div_trunc(pos.y * 255, 40) + 128,
                        crate::fixed::div_trunc(pos.z * 255, 40) + 128,
                    ) as u8,
                ),
            ),
        }
    };
    let b1 = if pos.y == -10 {
        let c = checker_color_spec(pos);
        colored_block(c.r as int, c.g as int, c.b as int)
    } else {
        base
    };
    let b2 = if dist_sq(pos, 0, -5, 15) < 9 {
        colored_block(0x80, 0x80, 0x80)
    } else {
        b1
    };
    let b3 = if dist_sq(pos, -5, -5, -5) < 9 {
        colored_block(0xFF, 0, 0)
    } else {
        b2
    };
    let b4 = if dist_sq(pos, -5, 5, -15) < 9 {
        colored_block(0, 0xFF, 0)
    } else {
        b3
    };
    let b5 = if dist_sq(pos, 5, 5, -5) < 9 {
        colored_block(0, 0, 0xFF)
    } else {
        b4
    };
    if dist_sq(pos, 5, -5, -15) < 9 {
        colored_block(0xFF, 0xFF, 0xFF)
    } else {
        b5
    }
}

/// One channel of the shell pseudo-color.
fn pseudo_channel(c: i64) -> (r: u8)
    requires
        -20 <= c < 20,
    ensures
        r == crate::fixed::div_trunc(c * 255, 40) + 128,
{
    proof {
        vstd::arithmetic::div_mod::lemma_div_nonincreasing(if c >= 0 {
            c * 255
        } else {
            -(c * 255)
        }, 40);
        vstd::arithmetic::div_mod::lemma_div_pos_is_pos(if c >= 0 {
            c * 255
        } else {
            -(c * 255)
        }, 40);
    }
    let q = (c * 255).checked_div(40).unwrap();
    (q + 128) as u8
}

/// Whether `pos` is strictly inside the sphere at `(cx, cy, cz)` of
/// squared radius 9.
fn in_sphere(pos: Vec3D<i64>, cx: i64, cy: i64, cz: i64) -> (r: bool)
    requires
        in_grid(pos),
        -15 <= cx <= 15,
        -15 <= cy <= 15,
        -15 <= cz <= 15,
    ensures
        r == (dist_sq(pos, cx as int, cy as int, cz as int) < 9),
{
    let dx = pos.x - cx;
    let dy = pos.y - cy;
    let dz = pos.z - cz;
    proof {
        assert(dx * dx <= 1600 && dy * dy <= 1600 && dz * dz <= 1600 && dx * dx >= 0 && dy * dy
            >= 0 && dz * dz >= 0) by (nonlinear_arith)
            requires
                -40 <= dx <= 40 && -40 <= dy <= 40 && -40 <= dz <= 40;
    }
    dx * dx + dy * dy + dz * dz < 9
}

/// Generate the content of one cell.
fn init_block(pos: Vec3D<i64>, array_pos: Vec3D<usize>) -> (b: Block)
    requires
        in_grid(pos),
        in_array(array_pos),
    ensures
        b == init_block_spec(pos, array_pos),
{
    let mut block: Block;
    if array_pos.x > 0 && array_pos.x < 39 && array_pos.y > 0 && array_pos.y < 39 && array_pos.z
        > 0 && array_pos.z < 39 {
        block = Block::default();
    } else {
        let color = RgbColor {
            r: pseudo_channel(pos.x),
            g: pseudo_channel(pos.y),
            b: pseudo_channel(pos.z),
        };
        block = Block { color: Some(color.to_packed()) };
    }
    if pos.y == -10 {
        #[verifier::truncate]
        let mixed = (pos.x ^ pos.y ^ pos.z) as u64;
        let shade = (mixed % 8 * 16 + 0x40) as u8;
        let color = RgbColor { r: shade, g: shade, b: shade };
        block = Block { color: Some(color.to_packed()) };
    }
    if in_sphere(pos, 0, -5, 15) {
        block = Block { color: Some(RgbColor { r: 0x80, g: 0x80, b: 0x80 }.to_packed()) };
    }
    if in_sphere(pos, -5, -5, -5) {
        block = Block { color: Some(RgbColor { r: 0xFF, g: 0, b: 0 }.to_packed()) };
    }
    if in_sphere(pos, -5, 5, -15) {
        block = Block { color: Some(RgbColor { r: 0, g: 0xFF, b: 0 }.to_packed()) };
    }
    if in_sphere(pos, 5, 5, -5) {
        block = Block { color: Some(RgbColor { r: 0, g: 0, b: 0xFF }.to_packed()) };
    }
    if in_sphere(pos, 5, -5, -15) {
        block = Block { color: Some(RgbColor::white().to_packed()) };
    }
    block
}

/// The generated content of the cell with array coordinates `(x, y, z)`.
pub open spec fn cell_spec(x: int, y: int, z: int) -> Block
    recommends
        0 <= x < 40,
        0 <= y < 40,
        0 <= z < 40,
{
    init_block_spec(
        Vec3D { x: (x - 20) as i64, y: (y - 20) as i64, z: (z - 20) as i64 },
        Vec3D { x: x as usize, y: y as usize, z: z as usize },
    )
}

/// The generated content of cell `(x, y, z)` when `sch`, centered at
/// `center_at`, is embedded: the schematic's block wins wherever the
/// schematic covers the cell, even when that block is empty.
pub open spec fn cell_with_schematic_spec(
    sch: &Schematic,
    center_at: Vec3D<i64>,
    x: int,
    y: int,
    z: int,
) -> Block
    recommends
        sch.wf(),
        in_grid(center_at),
        0 <= x < 40,
        0 <= y < 40,
        0 <= z < 40,
{
    let pos = Vec3D { x: (x - 20) as i64, y: (y - 20) as i64, z: (z - 20) as i64 };
    match schematic_block_spec(sch, pos, center_at) {
        Some(b) => b,
        None => cell_spec(x, y, z),
    }
}

impl World {
    /// All array positions of the cube, `x` outermost and `z` innermost.
    pub fn array_positions() -> (r: Vec<Vec3D<usize>>)
        ensures
            r@.len() == 64000,
            forall|i: int|
                0 <= i < 64000 ==> #[trigger] r@[i] == (Vec3D {
                    x: (i / 1600) as usize,
                    y: (i / 40 % 40) as usize,
                    z: (i % 40) as usize,
                }),
    {
        let mut r: Vec<Vec3D<usize>> = Vec::new();
        let mut i: usize = 0;
        while i < 64000
            invariant
                r@.len() == i,
                i <= 64000,
                forall|j: int|
                    0 <= j < i ==> #[trigger] r@[j] == (Vec3D {
                        x: (j / 1600) as usize,
                        y: (j / 40 % 40) as usize,
                        z: (j % 40) as usize,
                    }),
            decreases 64000 - i,
        {
            r.push(Vec3D { x: i / 1600, y: i / 40 % 40, z: i % 40 });
            i = i + 1;
        }
        r
    }

    /// All world positions of the cube, in `array_positions` order.
    pub fn positions() -> (r: Vec<Vec3D<i64>>)
        ensures
            r@.len() == 64000,
            forall|i: int|
                0 <= i < 64000 ==> #[trigger] r@[i] == (Vec3D {
                    x: (i / 1600 - 20) as i64,
                    y: (i / 40 % 40 - 20) as i64,
                    z: (i % 40 - 20) as i64,
                }),
    {
        let aps = World::array_positions();
        let mut r: Vec<Vec3D<i64>> = Vec::new();
        let mut i: usize = 0;
        while i < 64000
            invariant
                aps@.len() == 64000,
                forall|j: int|
                    0 <= j < 64000 ==> #[trigger] aps@[j] == (Vec3D {
                        x: (j / 1600) as usize,
                        y: (j / 40 % 40) as usize,
                        z: (j % 40) as usize,
                    }),
                r@.len() == i,
                i <= 64000,
                forall|j: int|
                    0 <= j < i ==> #[trigger] r@[j] == (Vec3D {
                        x: (j / 1600 - 20) as i64,
                        y: (j / 40 % 40 - 20) as i64,
                        z: (j % 40 - 20) as i64,
                    }),
            decreases 64000 - i,
        {
            let ap = aps[i];
            r.push(World::from_array_pos(ap));
            i = i + 1;
        }
        r
    }

    /// Build a world with `schematic` embedded around `center_at`: the
    /// schematic takes priority over every other generated feature.
    pub fn new_with_schematic(schematic: &Schematic, center_at: Vec3D<i64>) -> (w: World)
        requires
            schematic.wf(),
            in_grid(center_at),
        ensures
            w.wf(),
            forall|x: int, y: int, z: int|
                0 <= x < 40 && 0 <= y < 40 && 0 <= z < 40 ==> w.blocks@[#[trigger] grid_index(
                    x,
                    y,
                    z,
                )] == cell_with_schematic_spec(schematic, center_at, x, y, z),
    {
        let mut blocks: Vec<Block> = Vec::new();
        let mut i: usize = 0;
        while i < 64000
            invariant
                schematic.wf(),
                in_grid(center_at),
                blocks@.len() == i,
                i <= 64000,
                forall|j: int|
                    0 <= j < i ==> blocks@[j] == cell_with_schematic_spec(
                        schematic,
                        center_at,
                        j % 40,
                        j / 40 % 40,
                        j / 1600,
                    ),
            decreases 64000 - i,
        {
            let x = i % 40;
            let y = i / 40 % 40;
            let z = i / 1600;
            let pos = Vec3D { x: x as i64 - 20, y: y as i64 - 20, z: z as i64 - 20 };
            let ap = Vec3D { x, y, z };
            let b = match init_block_schematic(pos, center_at, schematic) {
                Some(b) => b,
                None => init_block(pos, ap),
            };
            blocks.push(b);
            i = i + 1;
        }
        let w = World { blocks };
        proof {
            assert forall|x: int, y: int, z: int|
                0 <= x < 40 && 0 <= y < 40 && 0 <= z < 40 implies w.blocks@[#[trigger] grid_index(
                x,
                y,
                z,
            )] == cell_with_schematic_spec(schematic, center_at, x, y, z) by {
                let i = grid_index(x, y, z);
                vstd::arithmetic::div_mod::lemma_fundamental_div_mod_converse(
                    i,
                    40,
                    z * 40 + y,
                    x,
                );
                vstd::arithmetic::div_mod::lemma_fundamental_div_mod_converse(
                    z * 40 + y,
                    40,
                    z,
                    y,
                );
                vstd::arithmetic::div_mod::lemma_div_denominator(i, 40, 40);
            }
        }
        w
    }

    /// Build the default world: every cell is generated by the pure
    /// per-cell function `cell_spec`; no shape asset is embedded.
    pub fn new() -> (w: World)
        ensures
            w.wf(),
            forall|x: int, y: int, z: int|
                0 <= x < 40 && 0 <= y < 40 && 0 <= z < 40 ==> w.blocks@[#[trigger] grid_index(
                    x,
                    y,
                    z,
                )] == cell_spec(x, y, z),
    {
        let mut blocks: Vec<Block> = Vec::new();
        let mut i: usize = 0;
        while i < 64000
            invariant
                blocks@.len() == i,
                i <= 64000,
                forall|j: int|
                    0 <= j < i ==> blocks@[j] == cell_spec(j % 40, j / 40 % 40, j / 1600),
            decreases 64000 - i,
        {
            let x = i % 40;
            let y = i / 40 % 40;
            let z = i / 1600;
            let pos = Vec3D { x: x as i64 - 20, y: y as i64 - 20, z: z as i64 - 20 };
            let ap = Vec3D { x, y, z };
            let b = init_block(pos, ap);
            blocks.push(b);
            i = i + 1;
        }
        let w = World { blocks };
        proof {
            assert forall|x: int, y: int, z: int|
                0 <= x < 40 && 0 <= y < 40 && 0 <= z < 40 implies w.blocks@[#[trigger] grid_index(
                x,
                y,
                z,
            )] == cell_spec(x, y, z) by {
                let i = grid_index(x, y, z);
                vstd::arithmetic::div_mod::lemma_fundamental_div_mod_converse(
                    i,
                    40,
                    z * 40 + y,
                    x,
                );
                vstd::arithmetic::div_mod::lemma_fundamental_div_mod_converse(
                    z * 40 + y,
                    40,
                    z,
                    y,
                );
                vstd::arithmetic::div_mod::lemma_div_denominator(i, 40, 40);
            }
        }
        w
    }
}

/// The bit representations of a fixed-point vector.
pub open spec fn fx_bits(v: Vec3D<Fix64>) -> Vec3D<i64> {
    Vec3D { x: v.x@, y: v.y@, z: v.z@ }
}

/// Fixed-point bits of the screen-space center column (50.0).
pub const X_CENTER_BITS: i64 = 838_860_800;

/// Fixed-point bits of the screen-space center row (37.5).
pub const Y_CENTER_BITS: i64 = 629_145_600;

/// Fixed-point bits of the per-column direction increment: with a
/// 100 x 75 screen of square pixels, `2 * (100/75) / 100` rounded down
/// to the representation grid.
pub const RIGHT_FACTOR_INC: i64 = 447_392;

/// Fixed-point bits of the per-row direction increment: `2 * 1 / 75`
/// rounded down to the representation grid.
pub const DOWN_FACTOR_INC: i64 = 447_392;

/// Fixed-point bits of the shading factor for a horizontal final step (3/4).
pub const SHADE_X_BITS: i64 = 12_582_912;

/// Fixed-point bits of the shading factor for a depth final step (2/3).
pub const SHADE_Y_BITS: i64 = 11_184_810;

/// The ray direction of the pixel at column `x`, row `y`: the forward
/// vector offset along the right and down basis vectors in proportion to
/// the pixel's centered screen offset.
pub open spec fn pixel_dir_bits(f: Vec3D<i64>, r: Vec3D<i64>, d: Vec3D<i64>, x: int, y: int)
    -> Vec3D<i64>
    recommends
        0 <= x < 100,
        0 <= y < 75,
{
    let rf = fix_mul((x * (FRAC_ONE as int) - X_CENTER_BITS) as i64, RIGHT_FACTOR_INC);
    let df = fix_mul((y * (FRAC_ONE as int) - Y_CENTER_BITS) as i64, DOWN_FACTOR_INC);
    Vec3D {
        x: wrap_i64(wrap_i64(f.x + fix_mul(r.x, rf)) + fix_mul(d.x, df)),
        y: wrap_i64(wrap_i64(f.y + fix_mul(r.y, rf)) + fix_mul(d.y, df)),
        z: wrap_i64(wrap_i64(f.z + fix_mul(r.z, rf)) + fix_mul(d.z, df)),
    }
}

/// The trace of a cast given the bit representations of start and
/// direction.
pub open spec fn trace_bits(start: Vec3D<i64>, dir: Vec3D<i64>) -> Seq<Vec3D<i64>> {
    ray_trace(
        Vec3D {
            x: ((start.x as int) / (FRAC_ONE as int)) as i64,
            y: ((start.y as int) / (FRAC_ONE as int)) as i64,
            z: ((start.z as int) / (FRAC_ONE as int)) as i64,
        },
        ray_dim_spec(start.x, dir.x),
        ray_dim_spec(start.y, dir.y),
        ray_dim_spec(start.z, dir.z),
    )
}

/// One channel of the shading step: scale the channel by the fixed-point
/// factor `f` and round to the nearest integer.
pub open spec fn shade_bits(v: int, f: i64) -> int
    recommends
        0 <= v <= 255,
        0 <= f <= FRAC_ONE,
{
    (wrap_i64(fix_mul((v * (FRAC_ONE as int)) as i64, f) + FRAC_HALF) as int) / (FRAC_ONE as int)
}

/// The color the renderer assigns to a pixel whose ray has the given
/// start and direction bits: the first hit's color, unpacked and darkened
/// according to the axis of the final traversal step (3/4 for a
/// horizontal step, 2/3 for a vertical one), or black when the ray exits
/// the grid without a hit.
pub open spec fn pixel_color_spec(w: &World, start: Vec3D<i64>, dir: Vec3D<i64>) -> RgbColor {
    let t = trace_bits(start, dir);
    let k = first_hit_index(w, t);
    let base = if k < t.len() {
        match w.block_at(t[k]).color {
            Some(p) => {
                let (ur, ug, ub) = unpack_bits(p@ as int);
                RgbColor { r: ur as u8, g: ug as u8, b: ub as u8 }
            },
            None => RgbColor { r: 0, g: 0, b: 0 },
        }
    } else {
        RgbColor { r: 0, g: 0, b: 0 }
    };
    let dx = if 0 < k < t.len() {
        t[k].x - t[k - 1].x
    } else {
        0
    };
    let dy = if 0 < k < t.len() {
        t[k].y - t[k - 1].y
    } else {
        0
    };
    let f = if dx != 0 {
        SHADE_X_BITS
    } else if dy != 0 {
        SHADE_Y_BITS
    } else {
        FRAC_ONE
    };
    RgbColor {
        r: shade_bits(base.r as int, f) as u8,
        g: shade_bits(base.g as int, f) as u8,
        b: shade_bits(base.b as int, f) as u8,
    }
}

/// Scale channel `v` by the factor `f` and round to the nearest integer.
fn shade_channel(v: u8, f: Fix64) -> (o: u8)
    requires
        0 <= f@ <= FRAC_ONE,
    ensures
        o as int == shade_bits(v as int, f@),
{
    let fx = Fix64::from_int(v as i64);
    proof {
        let vb = (v as int) * (FRAC_ONE as int);
        assert(0 <= vb * f@ <= 255int * 0x100_0000 * 0x100_0000) by (nonlinear_arith)
            requires
                0 <= vb <= 255 * 0x100_0000 && 0 <= f@ <= 0x100_0000;
        vstd::arithmetic::div_mod::lemma_div_pos_is_pos(vb * f@, FRAC_ONE as int);
        vstd::arithmetic::div_mod::lemma_div_is_ordered(
            vb * f@,
            255int * 0x100_0000 * 0x100_0000,
            FRAC_ONE as int,
        );
        vstd::arithmetic::div_mod::lemma_fundamental_div_mod_converse(
            255int * 0x100_0000 * 0x100_0000,
            FRAC_ONE as int,
            255int * 0x100_0000,
            0,
        );
    }
    let m = fx.mul(f);
    proof {
        vstd::arithmetic::div_mod::lemma_fundamental_div_mod_converse(
            255int * 0x100_0000 + 0x80_0000,
            FRAC_ONE as int,
            255,
            0x80_0000,
        );
        vstd::arithmetic::div_mod::lemma_div_is_ordered(
            m@ + FRAC_HALF,
            255int * 0x100_0000 + 0x80_0000,
            FRAC_ONE as int,
        );
        vstd::arithmetic::div_mod::lemma_div_pos_is_pos(m@ + FRAC_HALF, FRAC_ONE as int);
    }
    let r = m.round();
    r as u8
}

impl World {
    /// The color of one pixel: cast the ray and shade the first hit.
    #[verifier::rlimit(100)]
    fn render_pixel(&self, start: Vec3D<Fix64>, dir: Vec3D<Fix64>) -> (c: RgbColor)
        requires
            self.wf(),
        ensures
            c == pixel_color_spec(self, fx_bits(start), fx_bits(dir)),
    {
        let ghost t = trace_bits(fx_bits(start), fx_bits(dir));
        let ghost k = first_hit_index(self, t);
        let (prev, hit) = self.get_hit_pos(start, dir);
        proof {
            lemma_trace_in_grid(
                start_cell(start),
                ray_dim_spec(start.x@, dir.x@),
                ray_dim_spec(start.y@, dir.y@),
                ray_dim_spec(start.z@, dir.z@),
            );
            lemma_first_hit_index(self, t);
        }
        let mut base = RgbColor::black();
        let mut delta = Vec3D { x: 0i64, y: 0i64, z: 0i64 };
        match hit {
            Some(h) => {
                let blk = self.get(h).unwrap();
                match blk.color {
                    Some(p) => {
                        base = RgbColor::from_packed(p);
                    },
                    None => {
                        base = RgbColor::black();
                    },
                }
                match prev {
                    Some(pv) => {
                        delta = h.sub_const(pv);
                    },
                    None => {},
                }
            },
            None => {},
        }
        let factor = if delta.x != 0 {
            Fix64::from_rat(3, 4)
        } else if delta.y != 0 {
            Fix64::from_rat(2, 3)
        } else {
            Fix64::from_int(1)
        };
        proof {
            crate::fixed::lemma_fix_div_value(3, 4, SHADE_X_BITS, 0);
            crate::fixed::lemma_fix_div_value(2, 3, SHADE_Y_BITS, 2);
        }
        RgbColor {
            r: shade_channel(base.r, factor),
            g: shade_channel(base.g, factor),
            b: shade_channel(base.b, factor),
        }
    }

    /// Render a frame: for every pixel, derive the per-pixel ray
    /// direction from the camera basis and the pixel's centered,
    /// aspect-corrected screen offset, cast it, and store the shaded hit
    /// color (or black) in the screen buffer.
    pub fn render(
        &self,
        screen: &mut Screen,
        start: Vec3D<Fix64>,
        forward: Vec3D<Fix64>,
        right: Vec3D<Fix64>,
        down: Vec3D<Fix64>,
    )
        requires
            self.wf(),
            old(screen).wf(),
        ensures
            final(screen).wf(),
            forall|x: int, y: int|
                0 <= x < 100 && 0 <= y < 75 ==> final(screen).pixels@[y * 100 + x]
                    == pixel_color_spec(
                    self,
                    fx_bits(start),
                    pixel_dir_bits(fx_bits(forward), fx_bits(right), fx_bits(down), x, y),
                ),
    {
        let (pixel_x_dim, pixel_y_dim) = screen.pixel_dimensions();
        let screen_x_size = Fix64::from_int(100);
        let screen_y_size = Fix64::from_int(75);
        let screen_x_center = screen_x_size.div(Fix64::from_int(2));
        let screen_y_center = screen_y_size.div(Fix64::from_int(2));
        let screen_x_dim = pixel_x_dim.mul(screen_x_size);
        let screen_y_dim = pixel_y_dim.mul(screen_y_size);
        let screen_min_dim = if screen_x_dim.as_bits() < screen_y_dim.as_bits() {
            screen_x_dim
        } else {
            screen_y_dim
        };
        let screen_x_factor = screen_x_dim.div(screen_min_dim);
        let screen_y_factor = screen_y_dim.div(screen_min_dim);
        proof {
            crate::fixed::lemma_fix_mul_value(0x100_0000, 1677721600, 1677721600, 0);
            crate::fixed::lemma_fix_mul_value(0x100_0000, 1258291200, 1258291200, 0);
            crate::fixed::lemma_fix_div_value(1677721600, 33554432, 838860800, 0);
            crate::fixed::lemma_fix_div_value(1258291200, 33554432, 629145600, 0);
            crate::fixed::lemma_fix_div_value(1677721600, 1258291200, 22369621, 419430400);
            crate::fixed::lemma_fix_div_value(1258291200, 1258291200, 0x100_0000, 0);
            crate::fixed::lemma_fix_mul_value(33554432, 22369621, 44739242, 0);
            crate::fixed::lemma_fix_mul_value(33554432, 0x100_0000, 33554432, 0);
        }
        let right_factor_inc = Fix64::from_int(2).mul(screen_x_factor).div(screen_x_size);
        let down_factor_inc = Fix64::from_int(2).mul(screen_y_factor).div(screen_y_size);
        proof {
            crate::fixed::lemma_fix_div_value(44739242, 1677721600, 447392, 704643072);
            crate::fixed::lemma_fix_div_value(33554432, 1258291200, 447392, 536870912);
        }
        assert(screen_x_center@ == X_CENTER_BITS);
        assert(screen_y_center@ == Y_CENTER_BITS);
        assert(right_factor_inc@ == RIGHT_FACTOR_INC);
        assert(down_factor_inc@ == DOWN_FACTOR_INC);
        let mut y: usize = 0;
        while y < 75
            invariant
                self.wf(),
                screen.wf(),
                y <= 75,
                screen_x_center@ == X_CENTER_BITS,
                screen_y_center@ == Y_CENTER_BITS,
                right_factor_inc@ == RIGHT_FACTOR_INC,
                down_factor_inc@ == DOWN_FACTOR_INC,
                forall|xx: int, yy: int|
                    0 <= xx < 100 && 0 <= yy < y ==> screen.pixels@[yy * 100 + xx]
                        == pixel_color_spec(
                        self,
                        fx_bits(start),
                        pixel_dir_bits(fx_bits(forward), fx_bits(right), fx_bits(down), xx, yy),
                    ),
            decreases 75 - y,
        {
            let mut x: usize = 0;
            while x < 100
                invariant
                    self.wf(),
                    screen.wf(),
                    y < 75,
                    x <= 100,
                    screen_x_center@ == X_CENTER_BITS,
                    screen_y_center@ == Y_CENTER_BITS,
                    right_factor_inc@ == RIGHT_FACTOR_INC,
                    down_factor_inc@ == DOWN_FACTOR_INC,
                    forall|xx: int, yy: int|
                        0 <= xx < 100 && 0 <= yy < y ==> screen.pixels@[yy * 100 + xx]
                            == pixel_color_spec(
                            self,
                            fx_bits(start),
                            pixel_dir_bits(
                                fx_bits(forward),
                                fx_bits(right),
                                fx_bits(down),
                                xx,
                                yy,
                            ),
                        ),
                    forall|xx: int|
                        0 <= xx < x ==> screen.pixels@[y * 100 + xx] == pixel_color_spec(
                            self,
                            fx_bits(start),
                            pixel_dir_bits(
                                fx_bits(forward),
                                fx_bits(right),
                                fx_bits(down),
                                xx,
                                y as int,
                            ),
                        ),
                decreases 100 - x,
            {
                let right_factor = Fix64::from_int(x as i64).sub(screen_x_center).mul(
                    right_factor_inc,
                );
                let down_factor = Fix64::from_int(y as i64).sub(screen_y_center).mul(
                    down_factor_inc,
                );
                let dir = forward.add(right.scale(right_factor)).add(down.scale(down_factor));
                proof {
                    assert(fx_bits(dir) == pixel_dir_bits(
                        fx_bits(forward),
                        fx_bits(right),
                        fx_bits(down),
                        x as int,
                        y as int,
                    ));
                }
                let c = self.render_pixel(start, dir);
                screen.set_pixel(x, y, c);
                x = x + 1;
            }
            y = y + 1;
        }
    }
}

} // verus!
