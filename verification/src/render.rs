//! Perspective projection and depth-buffered rasterization of the cube's
//! six faces into a character grid.

use vstd::prelude::*;
use crate::vector::{
    Angle, Rotation, Vector, ROT_ALL_LIMIT, SCALE, spec_rotate_all, tdiv,
};

verus! {

/// Frame width in terminal cells.
pub const WIDTH: usize = 160;

/// Frame height in terminal cells.
pub const HEIGHT: usize = 44;

/// Half the cube's edge length, in world units.
pub const CUBE_LEN: i64 = 15;

/// Camera-to-cube baseline offset, in world units.
pub const CUBE_DISTANCE: i64 = 60;

/// Focal distance of the projection.
pub const SCREEN_DISTANCE: i64 = 40;

/// The character every output cell is reset to.
pub const BG_CHAR: char = ' ';

/// The minimal inverse depth every depth cell is reset to.
pub const DEPTH_CLEAR: i64 = 0;

/// A well-formed buffer has `HEIGHT` rows of `WIDTH` cells each.
pub open spec fn grid_wf<T>(g: Seq<Seq<T>>) -> bool {
    &&& g.len() == HEIGHT
    &&& forall|r: int| 0 <= r < g.len() ==> (#[trigger] g[r]).len() == WIDTH
}

/// The mathematical contents of a row-major buffer.
pub open spec fn grid_view<T>(b: Vec<Vec<T>>) -> Seq<Seq<T>> {
    Seq::new(b@.len(), |r: int| b@[r]@)
}

/// The buffer with one cell replaced.
pub open spec fn grid_set<T>(g: Seq<Seq<T>>, r: int, c: int, v: T) -> Seq<Seq<T>> {
    g.update(r, g[r].update(c, v))
}

/// The perspective divisor of a rotated point: the camera distance plus the
/// point's depth, in raw units.
pub open spec fn denom_of(z: int) -> int {
    CUBE_DISTANCE * SCALE + z
}

/// Inverse depth in raw units: `SCALE / (CUBE_DISTANCE + z/SCALE)`, so
/// `SCALE * SCALE / denom`. Larger means closer to the viewer. Meaningful
/// only when the divisor is positive.
pub open spec fn ooz_of(z: int) -> int {
    (SCALE * SCALE) / denom_of(z)
}

/// Projected column: the frame centre plus the focal term, doubled on this
/// axis because a terminal cell is taller than it is wide. The whole
/// coordinate is truncated towards zero, as casting the floating sum to an
/// integer cell index would.
pub open spec fn col_of(x: int, z: int) -> int {
    tdiv((WIDTH as int / 2) * denom_of(z) + 2 * SCREEN_DISTANCE * x, denom_of(z))
}

/// Projected row: the frame centre plus the focal term, truncated towards
/// zero as a whole.
pub open spec fn row_of(y: int, z: int) -> int {
    tdiv((HEIGHT as int / 2) * denom_of(z) + SCREEN_DISTANCE * y, denom_of(z))
}

/// A rotated point produces a write candidate exactly when its perspective
/// divisor is positive and its projected cell lies inside the frame.
pub open spec fn hits(q: (int, int, int)) -> bool {
    &&& denom_of(q.2) > 0
    &&& 0 <= col_of(q.0, q.2) < WIDTH
    &&& 0 <= row_of(q.1, q.2) < HEIGHT
}

/// The depth test at one cell, holding an inverse depth and a character: a
/// strictly closer sample replaces the cell, any other sample is discarded.
pub open spec fn depth_test(cell: (i64, char), ooz: int, ch: char) -> (i64, char) {
    if ooz > cell.0 {
        (ooz as i64, ch)
    } else {
        cell
    }
}

/// What sampling one face point does to the two buffers: rotate the point,
/// project it, discard it when it misses the frame, and otherwise apply the
/// depth test at the projected cell.
pub open spec fn surface_step(
    depth: Seq<Seq<i64>>,
    out: Seq<Seq<char>>,
    p: (int, int, int),
    ax: (int, int),
    ay: (int, int),
    az: (int, int),
    ch: char,
) -> (Seq<Seq<i64>>, Seq<Seq<char>>) {
    let q = spec_rotate_all(p, ax.0, ax.1, ay.0, ay.1, az.0, az.1);
    if hits(q) {
        let r = row_of(q.1, q.2);
        let c = col_of(q.0, q.2);
        let cell = depth_test((depth[r][c], out[r][c]), ooz_of(q.2), ch);
        if ooz_of(q.2) > depth[r][c] {
            (grid_set(depth, r, c, cell.0), grid_set(out, r, c, cell.1))
        } else {
            (depth, out)
        }
    } else {
        (depth, out)
    }
}

/// Rotate one face point by the current angles, project it, and—when it
/// lands inside the frame strictly closer than what its cell holds—write
/// its inverse depth and display character into the two buffers.
pub fn parse_surface(
    origin_vector: Vector,
    ax: Angle,
    ay: Angle,
    az: Angle,
    ch: char,
    z_buffer: &mut Vec<Vec<i64>>,
    output_buffer: &mut Vec<Vec<char>>,
)
    requires
        origin_vector.in_lim(ROT_ALL_LIMIT as int),
        ax.wf(),
        ay.wf(),
        az.wf(),
        grid_wf(grid_view(*old(z_buffer))),
        grid_wf(grid_view(*old(output_buffer))),
    ensures
        grid_wf(grid_view(*final(z_buffer))),
        grid_wf(grid_view(*final(output_buffer))),
        ({
            let st = surface_step(
                grid_view(*old(z_buffer)),
                grid_view(*old(output_buffer)),
                origin_vector@,
                ax@,
                ay@,
                az@,
                ch,
            );
            grid_view(*final(z_buffer)) == st.0 && grid_view(*final(output_buffer)) == st.1
        }),
{
    let mut v = origin_vector;
    v.rotate_all(ax, ay, az);

    let denom: i64 = CUBE_DISTANCE * SCALE + v.z;
    if denom <= 0 {
        return ;
    }
    let ooz: i64 = (SCALE * SCALE) / denom;

    let w_half: i64 = (WIDTH as i64) / 2;
    let h_half: i64 = (HEIGHT as i64) / 2;
    proof {
        assert(w_half == WIDTH as int / 2);
        assert(h_half == HEIGHT as int / 2);
    }
    let col: i64 = (w_half * denom + 2 * SCREEN_DISTANCE * v.x) / denom;
    let row: i64 = (h_half * denom + SCREEN_DISTANCE * v.y) / denom;
    if col < 0 || col >= WIDTH as i64 || row < 0 || row >= HEIGHT as i64 {
        return ;
    }
    let c: usize = col as usize;
    let r: usize = row as usize;
    proof {
        assert(grid_view(*z_buffer).len() == z_buffer@.len());
        assert(grid_view(*z_buffer)[r as int] == z_buffer@[r as int]@);
        assert(grid_view(*output_buffer).len() == output_buffer@.len());
        assert(grid_view(*output_buffer)[r as int] == output_buffer@[r as int]@);
    }

    if ooz > z_buffer[r][c] {
        let ghost d0 = grid_view(*z_buffer);
        let ghost o0 = grid_view(*output_buffer);
        z_buffer[r][c] = ooz;
        output_buffer[r][c] = ch;
        proof {
            assert(grid_view(*z_buffer) =~= grid_set(d0, r as int, c as int, ooz));
            assert(grid_view(*output_buffer) =~= grid_set(o0, r as int, c as int, ch));
        }
    }
}

/// One of the six planar faces of the cube. Each maps the same local grid
/// coordinate pair into 3D space along a different fixed axis.
#[derive(Clone, Copy, Debug, PartialEq, Eq, Structural)]
pub enum Face {
    Front,
    Right,
    Left,
    Back,
    Bottom,
    Top,
}

/// The display character of a face.
pub open spec fn face_char(f: Face) -> char {
    match f {
        Face::Front => '$',
        Face::Right => '!',
        Face::Left => '~',
        Face::Back => '+',
        Face::Bottom => '@',
        Face::Top => '.',
    }
}

/// The 3D point of face `f` at local grid coordinates `(cx, cy)`, in raw
/// units: the face's fixed axis sits at `CUBE_LEN` from the origin and the
/// other two axes sweep the local square.
pub open spec fn face_point(f: Face, cx: int, cy: int) -> (int, int, int) {
    match f {
        Face::Front => (cx * SCALE, cy * SCALE, -CUBE_LEN * SCALE),
        Face::Right => (CUBE_LEN * SCALE, cy * SCALE, cx * SCALE),
        Face::Left => (-CUBE_LEN * SCALE, cy * SCALE, -cx * SCALE),
        Face::Back => (-cx * SCALE, cy * SCALE, CUBE_LEN * SCALE),
        Face::Bottom => (cx * SCALE, -CUBE_LEN * SCALE, -cy * SCALE),
        Face::Top => (cx * SCALE, CUBE_LEN * SCALE, cy * SCALE),
    }
}

/// Build the 3D point of face `f` at local grid coordinates `(cx, cy)`.
pub fn face_vector(f: Face, cx: i64, cy: i64) -> (v: Vector)
    requires
        -CUBE_LEN <= cx <= CUBE_LEN,
        -CUBE_LEN <= cy <= CUBE_LEN,
    ensures
        v@ == face_point(f, cx as int, cy as int),
        v.in_lim(ROT_ALL_LIMIT as int),
{
    match f {
        Face::Front => Vector { x: cx * SCALE, y: cy * SCALE, z: -CUBE_LEN * SCALE },
        Face::Right => Vector { x: CUBE_LEN * SCALE, y: cy * SCALE, z: cx * SCALE },
        Face::Left => Vector { x: -CUBE_LEN * SCALE, y: cy * SCALE, z: -cx * SCALE },
        Face::Back => Vector { x: -cx * SCALE, y: cy * SCALE, z: CUBE_LEN * SCALE },
        Face::Bottom => Vector { x: cx * SCALE, y: -CUBE_LEN * SCALE, z: -cy * SCALE },
        Face::Top => Vector { x: cx * SCALE, y: CUBE_LEN * SCALE, z: cy * SCALE },
    }
}

/// Sampling all six faces at one local grid coordinate pair, in the fixed
/// face order front, right, left, back, bottom, top.
pub open spec fn cell_step(
    depth: Seq<Seq<i64>>,
    out: Seq<Seq<char>>,
    ax: (int, int),
    ay: (int, int),
    az: (int, int),
    cx: int,
    cy: int,
) -> (Seq<Seq<i64>>, Seq<Seq<char>>) {
    let s1 = surface_step(depth, out, face_point(Face::Front, cx, cy), ax, ay, az, face_char(Face::Front));
    let s2 = surface_step(s1.0, s1.1, face_point(Face::Right, cx, cy), ax, ay, az, face_char(Face::Right));
    let s3 = surface_step(s2.0, s2.1, face_point(Face::Left, cx, cy), ax, ay, az, face_char(Face::Left));
    let s4 = surface_step(s3.0, s3.1, face_point(Face::Back, cx, cy), ax, ay, az, face_char(Face::Back));
    let s5 = surface_step(s4.0, s4.1, face_point(Face::Bottom, cx, cy), ax, ay, az, face_char(Face::Bottom));
    surface_step(s5.0, s5.1, face_point(Face::Top, cx, cy), ax, ay, az, face_char(Face::Top))
}

/// The local x coordinate of the `k`-th cell of the face sweep, which runs
/// x-major over the square `[-CUBE_LEN, CUBE_LEN)` in both coordinates.
pub open spec fn cell_x(k: int) -> int {
    k / (2 * CUBE_LEN as int) - CUBE_LEN
}

/// The local y coordinate of the `k`-th cell of the face sweep.
pub open spec fn cell_y(k: int) -> int {
    k % (2 * CUBE_LEN as int) - CUBE_LEN
}

/// The two buffers after sampling all six faces at the first `k` cells of
/// the face sweep.
pub open spec fn cells_upto(
    depth: Seq<Seq<i64>>,
    out: Seq<Seq<char>>,
    ax: (int, int),
    ay: (int, int),
    az: (int, int),
    k: nat,
) -> (Seq<Seq<i64>>, Seq<Seq<char>>)
    decreases k,
{
    if k == 0 {
        (depth, out)
    } else {
        let prev = cells_upto(depth, out, ax, ay, az, (k - 1) as nat);
        cell_step(prev.0, prev.1, ax, ay, az, cell_x(k - 1), cell_y(k - 1))
    }
}

/// Build one frame: sweep the local square once and sample all six faces
/// at every coordinate pair, accumulating into the two buffers.
pub fn build_frame(
    ax: Angle,
    ay: Angle,
    az: Angle,
    z_buffer: &mut Vec<Vec<i64>>,
    output_buffer: &mut Vec<Vec<char>>,
)
    requires
        ax.wf(),
        ay.wf(),
        az.wf(),
        grid_wf(grid_view(*old(z_buffer))),
        grid_wf(grid_view(*old(output_buffer))),
    ensures
        grid_wf(grid_view(*final(z_buffer))),
        grid_wf(grid_view(*final(output_buffer))),
        ({
            let st = cells_upto(
                grid_view(*old(z_buffer)),
                grid_view(*old(output_buffer)),
                ax@,
                ay@,
                az@,
                ((2 * CUBE_LEN) * (2 * CUBE_LEN)) as nat,
            );
            grid_view(*final(z_buffer)) == st.0 && grid_view(*final(output_buffer)) == st.1
        }),
{
    let ghost d0 = grid_view(*z_buffer);
    let ghost o0 = grid_view(*output_buffer);
    let mut cube_x: i64 = -CUBE_LEN;
    while cube_x < CUBE_LEN
        invariant
            -CUBE_LEN <= cube_x <= CUBE_LEN,
            ax.wf(),
            ay.wf(),
            az.wf(),
            grid_wf(grid_view(*z_buffer)),
            grid_wf(grid_view(*output_buffer)),
            ({
                let st = cells_upto(d0, o0, ax@, ay@, az@, ((cube_x + CUBE_LEN) * (2 * CUBE_LEN)) as nat);
                grid_view(*z_buffer) == st.0 && grid_view(*output_buffer) == st.1
            }),
        decreases CUBE_LEN - cube_x,
    {
        let mut cube_y: i64 = -CUBE_LEN;
        while cube_y < CUBE_LEN
            invariant
                -CUBE_LEN <= cube_x < CUBE_LEN,
                -CUBE_LEN <= cube_y <= CUBE_LEN,
                ax.wf(),
                ay.wf(),
                az.wf(),
                grid_wf(grid_view(*z_buffer)),
                grid_wf(grid_view(*output_buffer)),
                ({
                    let st = cells_upto(
                        d0,
                        o0,
                        ax@,
                        ay@,
                        az@,
                        ((cube_x + CUBE_LEN) * (2 * CUBE_LEN) + (cube_y + CUBE_LEN)) as nat,
                    );
                    grid_view(*z_buffer) == st.0 && grid_view(*output_buffer) == st.1
                }),
            decreases CUBE_LEN - cube_y,
        {
            let ghost k: int = (cube_x + CUBE_LEN) * (2 * CUBE_LEN) + (cube_y + CUBE_LEN);
            proof {
                vstd::arithmetic::div_mod::lemma_fundamental_div_mod_converse(
                    k,
                    2 * CUBE_LEN as int,
                    (cube_x + CUBE_LEN) as int,
                    (cube_y + CUBE_LEN) as int,
                );
                assert(cell_x(k) == cube_x);
                assert(cell_y(k) == cube_y);
            }
            let v1 = face_vector(Face::Front, cube_x, cube_y);
            parse_surface(v1, ax, ay, az, '$', z_buffer, output_buffer);
            let v2 = face_vector(Face::Right, cube_x, cube_y);
            parse_surface(v2, ax, ay, az, '!', z_buffer, output_buffer);
            let v3 = face_vector(Face::Left, cube_x, cube_y);
            parse_surface(v3, ax, ay, az, '~', z_buffer, output_buffer);
            let v4 = face_vector(Face::Back, cube_x, cube_y);
            parse_surface(v4, ax, ay, az, '+', z_buffer, output_buffer);
            let v5 = face_vector(Face::Bottom, cube_x, cube_y);
            parse_surface(v5, ax, ay, az, '@', z_buffer, output_buffer);
            let v6 = face_vector(Face::Top, cube_x, cube_y);
            parse_surface(v6, ax, ay, az, '.', z_buffer, output_buffer);
            cube_y += 1;
        }
        proof {
            assert((cube_x + CUBE_LEN) * (2 * CUBE_LEN) + (CUBE_LEN + CUBE_LEN) == (cube_x + 1
                + CUBE_LEN) * (2 * CUBE_LEN)) by (nonlinear_arith);
        }
        cube_x += 1;
    }
}

/// A HEIGHT-by-WIDTH buffer with every cell set to `v`.
fn filled_grid<T: Copy>(v: T) -> (b: Vec<Vec<T>>)
    ensures
        grid_wf(grid_view(b)),
        forall|r: int, c: int|
            0 <= r < HEIGHT && 0 <= c < WIDTH ==> grid_view(b)[r][c] == v,
{
    let mut b: Vec<Vec<T>> = Vec::new();
    let mut r: usize = 0;
    while r < HEIGHT
        invariant
            r <= HEIGHT,
            b@.len() == r,
            forall|i: int| 0 <= i < r ==> (#[trigger] b@[i])@.len() == WIDTH,
            forall|i: int, j: int| 0 <= i < r && 0 <= j < WIDTH ==> b@[i]@[j] == v,
        decreases HEIGHT - r,
    {
        let mut row: Vec<T> = Vec::new();
        let mut c: usize = 0;
        while c < WIDTH
            invariant
                c <= WIDTH,
                row@.len() == c,
                forall|j: int| 0 <= j < c ==> row@[j] == v,
            decreases WIDTH - c,
        {
            row.push(v);
            c += 1;
        }
        b.push(row);
        r += 1;
    }
    b
}

/// A fresh output buffer: every cell holds the background character.
pub fn new_output_buffer() -> (b: Vec<Vec<char>>)
    ensures
        grid_wf(grid_view(b)),
        forall|r: int, c: int|
            0 <= r < HEIGHT && 0 <= c < WIDTH ==> grid_view(b)[r][c] == BG_CHAR,
{
    filled_grid(BG_CHAR)
}

/// A fresh depth buffer: every cell holds the minimal inverse depth, so the
/// first in-frame sample at any cell always wins its depth test.
pub fn new_depth_buffer() -> (b: Vec<Vec<i64>>)
    ensures
        grid_wf(grid_view(b)),
        forall|r: int, c: int|
            0 <= r < HEIGHT && 0 <= c < WIDTH ==> grid_view(b)[r][c] == DEPTH_CLEAR,
{
    filled_grid(DEPTH_CLEAR)
}

/// Bounds rejection: a sample whose rotated point misses the frame — its
/// perspective divisor is not positive, or its projected column or row
/// falls outside the frame — leaves both buffers exactly as they were.
pub proof fn lemma_out_of_frame_no_write(
    depth: Seq<Seq<i64>>,
    out: Seq<Seq<char>>,
    p: (int, int, int),
    ax: (int, int),
    ay: (int, int),
    az: (int, int),
    ch: char,
)
    requires
        !hits(spec_rotate_all(p, ax.0, ax.1, ay.0, ay.1, az.0, az.1)),
    ensures
        surface_step(depth, out, p, ax, ay, az, ch) == (depth, out),
{
}

/// A sample strictly closer than what a cell holds always replaces both the
/// cell's inverse depth and its character; any other sample leaves the cell
/// exactly as it was.
pub proof fn lemma_depth_test_closer_wins(cell: (i64, char), ooz: int, ch: char)
    requires
        0 <= ooz <= i64::MAX,
    ensures
        cell.0 < ooz ==> depth_test(cell, ooz, ch) == (ooz as i64, ch),
        ooz <= cell.0 ==> depth_test(cell, ooz, ch) == cell,
{
}

/// Two samples of different inverse depths leave a cell in the same state
/// in whichever order they arrive: the strictly closer in-frame sample
/// wins, independent of submission order.
pub proof fn lemma_depth_test_order_independent(
    cell: (i64, char),
    ooz1: int,
    ch1: char,
    ooz2: int,
    ch2: char,
)
    requires
        0 <= ooz1 <= i64::MAX,
        0 <= ooz2 <= i64::MAX,
        ooz1 != ooz2,
    ensures
        depth_test(depth_test(cell, ooz1, ch1), ooz2, ch2) == depth_test(
            depth_test(cell, ooz2, ch2),
            ooz1,
            ch1,
        ),
{
}

/// The depth buffer is monotone: a sampling step never lowers the inverse
/// depth any cell holds, so a cell always records the closest sample that
/// has reached it so far.
pub proof fn lemma_surface_step_depth_monotone(
    depth: Seq<Seq<i64>>,
    out: Seq<Seq<char>>,
    p: (int, int, int),
    ax: (int, int),
    ay: (int, int),
    az: (int, int),
    ch: char,
)
    requires
        grid_wf(depth),
    ensures
        ({
            let st = surface_step(depth, out, p, ax, ay, az, ch);
            &&& grid_wf(st.0)
            &&& forall|r: int, c: int|
                0 <= r < HEIGHT && 0 <= c < WIDTH ==> #[trigger] st.0[r][c] >= depth[r][c]
        }),
{
    let q = spec_rotate_all(p, ax.0, ax.1, ay.0, ay.1, az.0, az.1);
    if hits(q) {
        lemma_ooz_bound(q.2);
    }
}

/// Depth monotonicity for one local coordinate pair: sampling all six
/// faces never lowers the inverse depth any cell holds.
pub proof fn lemma_cell_step_depth_monotone(
    depth: Seq<Seq<i64>>,
    out: Seq<Seq<char>>,
    ax: (int, int),
    ay: (int, int),
    az: (int, int),
    cx: int,
    cy: int,
)
    requires
        grid_wf(depth),
    ensures
        ({
            let st = cell_step(depth, out, ax, ay, az, cx, cy);
            &&& grid_wf(st.0)
            &&& forall|r: int, c: int|
                0 <= r < HEIGHT && 0 <= c < WIDTH ==> #[trigger] st.0[r][c] >= depth[r][c]
        }),
{
    let s1 = surface_step(depth, out, face_point(Face::Front, cx, cy), ax, ay, az, face_char(Face::Front));
    let s2 = surface_step(s1.0, s1.1, face_point(Face::Right, cx, cy), ax, ay, az, face_char(Face::Right));
    let s3 = surface_step(s2.0, s2.1, face_point(Face::Left, cx, cy), ax, ay, az, face_char(Face::Left));
    let s4 = surface_step(s3.0, s3.1, face_point(Face::Back, cx, cy), ax, ay, az, face_char(Face::Back));
    let s5 = surface_step(s4.0, s4.1, face_point(Face::Bottom, cx, cy), ax, ay, az, face_char(Face::Bottom));
    lemma_surface_step_depth_monotone(depth, out, face_point(Face::Front, cx, cy), ax, ay, az, face_char(Face::Front));
    lemma_surface_step_depth_monotone(s1.0, s1.1, face_point(Face::Right, cx, cy), ax, ay, az, face_char(Face::Right));
    lemma_surface_step_depth_monotone(s2.0, s2.1, face_point(Face::Left, cx, cy), ax, ay, az, face_char(Face::Left));
    lemma_surface_step_depth_monotone(s3.0, s3.1, face_point(Face::Back, cx, cy), ax, ay, az, face_char(Face::Back));
    lemma_surface_step_depth_monotone(s4.0, s4.1, face_point(Face::Bottom, cx, cy), ax, ay, az, face_char(Face::Bottom));
    lemma_surface_step_depth_monotone(s5.0, s5.1, face_point(Face::Top, cx, cy), ax, ay, az, face_char(Face::Top));
}

/// Depth monotonicity over a whole frame build: however many cells of the
/// face sweep have been sampled, no cell of the depth buffer has moved
/// farther away than it started.
pub proof fn lemma_frame_depth_monotone(
    depth: Seq<Seq<i64>>,
    out: Seq<Seq<char>>,
    ax: (int, int),
    ay: (int, int),
    az: (int, int),
    k: nat,
)
    requires
        grid_wf(depth),
    ensures
        ({
            let st = cells_upto(depth, out, ax, ay, az, k);
            &&& grid_wf(st.0)
            &&& forall|r: int, c: int|
                0 <= r < HEIGHT && 0 <= c < WIDTH ==> #[trigger] st.0[r][c] >= depth[r][c]
        }),
    decreases k,
{
    if k > 0 {
        lemma_frame_depth_monotone(depth, out, ax, ay, az, (k - 1) as nat);
        let prev = cells_upto(depth, out, ax, ay, az, (k - 1) as nat);
        lemma_cell_step_depth_monotone(prev.0, prev.1, ax, ay, az, cell_x(k - 1), cell_y(k - 1));
    }
}

/// Replacing the same cell twice keeps only the second value.
proof fn lemma_grid_set_overwrite<T>(g: Seq<Seq<T>>, r: int, c: int, a: T, b: T)
    requires
        0 <= r < g.len(),
        0 <= c < g[r].len(),
    ensures
        grid_set(grid_set(g, r, c, a), r, c, b) == grid_set(g, r, c, b),
{
    assert(g[r].update(c, a).update(c, b) =~= g[r].update(c, b));
    assert(grid_set(grid_set(g, r, c, a), r, c, b) =~= grid_set(g, r, c, b));
}

/// The inverse depth of an in-frame sample is at most `SCALE * SCALE`.
pub proof fn lemma_ooz_bound(z: int)
    requires
        denom_of(z) >= 1,
    ensures
        0 <= ooz_of(z) <= SCALE * SCALE,
{
    vstd::arithmetic::div_mod::lemma_div_pos_is_pos(SCALE * SCALE, denom_of(z));
    vstd::arithmetic::div_mod::lemma_div_is_ordered_by_denominator(SCALE * SCALE, 1, denom_of(z));
    vstd::arithmetic::div_mod::lemma_div_basics_2(SCALE * SCALE);
}

/// Depth test order independence, lifted to whole sampling steps: two face
/// points whose rotations strike the same cell with different inverse
/// depths leave both buffers in the same state in either sampling order.
pub proof fn lemma_sample_order_independent(
    depth: Seq<Seq<i64>>,
    out: Seq<Seq<char>>,
    p1: (int, int, int),
    ch1: char,
    p2: (int, int, int),
    ch2: char,
    ax: (int, int),
    ay: (int, int),
    az: (int, int),
)
    requires
        grid_wf(depth),
        grid_wf(out),
        ({
            let q1 = spec_rotate_all(p1, ax.0, ax.1, ay.0, ay.1, az.0, az.1);
            let q2 = spec_rotate_all(p2, ax.0, ax.1, ay.0, ay.1, az.0, az.1);
            &&& hits(q1)
            &&& hits(q2)
            &&& row_of(q1.1, q1.2) == row_of(q2.1, q2.2)
            &&& col_of(q1.0, q1.2) == col_of(q2.0, q2.2)
            &&& ooz_of(q1.2) != ooz_of(q2.2)
        }),
    ensures
        ({
            let s12 = surface_step(depth, out, p1, ax, ay, az, ch1);
            let s21 = surface_step(depth, out, p2, ax, ay, az, ch2);
            surface_step(s12.0, s12.1, p2, ax, ay, az, ch2) == surface_step(
                s21.0,
                s21.1,
                p1,
                ax,
                ay,
                az,
                ch1,
            )
        }),
{
    let q1 = spec_rotate_all(p1, ax.0, ax.1, ay.0, ay.1, az.0, az.1);
    let q2 = spec_rotate_all(p2, ax.0, ax.1, ay.0, ay.1, az.0, az.1);
    let r = row_of(q1.1, q1.2);
    let c = col_of(q1.0, q1.2);
    let z1 = ooz_of(q1.2);
    let z2 = ooz_of(q2.2);
    lemma_ooz_bound(q1.2);
    lemma_ooz_bound(q2.2);
    if z1 > depth[r][c] && z2 > z1 {
        lemma_grid_set_overwrite(depth, r, c, z1 as i64, z2 as i64);
        lemma_grid_set_overwrite(out, r, c, ch1, ch2);
    }
    if z2 > depth[r][c] && z1 > z2 {
        lemma_grid_set_overwrite(depth, r, c, z2 as i64, z1 as i64);
        lemma_grid_set_overwrite(out, r, c, ch2, ch1);
    }
}

} // verus!
