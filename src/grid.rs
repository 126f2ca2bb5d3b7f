use vstd::prelude::*;
use vstd::arithmetic::div_mod::*;
use vstd::arithmetic::mul::*;

use crate::config::Config;

verus! {

/// Number of thumbnails side by side in one grid.
pub open spec fn columns_of(c: Config) -> nat {
    (c.max_grid_width / c.thumbnail_width) as nat
}

/// Number of thumbnail rows in one grid.
pub open spec fn rows_of(c: Config) -> nat {
    (c.max_grid_height / c.thumbnail_height) as nat
}

/// Number of thumbnails one grid holds.
pub open spec fn capacity_of(c: Config) -> nat {
    columns_of(c) * rows_of(c)
}

/// Grid file, row and column of thumbnail `i`.
pub open spec fn placement(c: Config, i: nat) -> (nat, nat, nat) {
    let per = capacity_of(c);
    let local = i % per;
    ((i / per) as nat, (local / columns_of(c)) as nat, (local % columns_of(c)) as nat)
}

/// Grid file and pixel offset of thumbnail `i`.
pub open spec fn position_of(c: Config, i: nat) -> (nat, nat, nat) {
    let (file, row, col) = placement(c, i);
    (file, (col * c.thumbnail_width) as nat, (row * c.thumbnail_height) as nat)
}

proof fn lemma_layout_bounds(c: Config)
    requires
        c.wf(),
    ensures
        1 <= columns_of(c),
        1 <= rows_of(c),
        columns_of(c) * c.thumbnail_width <= c.max_grid_width,
        rows_of(c) * c.thumbnail_height <= c.max_grid_height,
        1 <= capacity_of(c) <= c.max_grid_width * c.max_grid_height,
        capacity_of(c) <= usize::MAX,
{
    let tw = c.thumbnail_width as int;
    let th = c.thumbnail_height as int;
    let gw = c.max_grid_width as int;
    let gh = c.max_grid_height as int;
    lemma_div_is_ordered(tw, gw, tw);
    lemma_div_is_ordered(th, gh, th);
    lemma_div_by_self(tw);
    lemma_div_by_self(th);
    lemma_fundamental_div_mod(gw, tw);
    lemma_fundamental_div_mod(gh, th);
    lemma_mod_pos_bound(gw, tw);
    lemma_mod_pos_bound(gh, th);
    lemma_mul_is_commutative(tw, gw / tw);
    lemma_mul_is_commutative(th, gh / th);
    let cols = gw / tw;
    let rows = gh / th;
    lemma_div_is_ordered_by_denominator(gw, 1, tw);
    lemma_div_is_ordered_by_denominator(gh, 1, th);
    lemma_mul_le(cols, gw, rows, gh);
    lemma_mul_inequality(1, cols, rows);
    assert(gw * gh <= gw * gh * 4) by (nonlinear_arith)
        requires gw >= 0, gh >= 0;
}

proof fn lemma_mul_le(a: int, b: int, x: int, y: int)
    requires
        0 <= a <= b,
        0 <= x <= y,
    ensures
        a * x <= b * y,
{
    assert(a * x <= b * y) by (nonlinear_arith)
        requires 0 <= a <= b, 0 <= x <= y;
}

/// Number of grid images that `c.width` thumbnails fill: the ceiling of
/// the thumbnail count over one grid's capacity.
pub open spec fn grids_needed(c: Config) -> nat {
    let w = c.width as nat;
    let per = capacity_of(c);
    if w % per == 0 {
        w / per
    } else {
        w / per + 1
    }
}

/// Number of grid images needed for all thumbnails.
pub fn grid_count(config: &Config) -> (r: usize)
    requires
        config.wf(),
    ensures
        r == grids_needed(*config),
{
    proof {
        lemma_layout_bounds(*config);
    }
    let per = (config.max_grid_width / config.thumbnail_width) * (config.max_grid_height
        / config.thumbnail_height);
    let full = config.width / per;
    proof {
        lemma_div_is_ordered_by_denominator(config.width as int, 1, per as int);
        lemma_div_basics(config.width as int);
        if per == 1 {
            lemma_fundamental_div_mod(config.width as int, 1);
        } else {
            lemma_div_is_ordered_by_denominator(config.width as int, 2, per as int);
        }
    }
    if config.width % per == 0 {
        full
    } else {
        full + 1
    }
}

/// Width and height in pixels of one grid image: whole thumbnails only.
pub fn grid_size(config: &Config) -> (r: (usize, usize))
    requires
        config.wf(),
    ensures
        r.0 == columns_of(*config) * config.thumbnail_width,
        r.1 == rows_of(*config) * config.thumbnail_height,
        r.0 <= config.max_grid_width,
        r.1 <= config.max_grid_height,
        r.0 * r.1 * 4 <= usize::MAX,
{
    proof {
        lemma_layout_bounds(*config);
    }
    let grid_columns = config.max_grid_width / config.thumbnail_width;
    let grid_rows = config.max_grid_height / config.thumbnail_height;
    let w = grid_columns * config.thumbnail_width;
    let h = grid_rows * config.thumbnail_height;
    proof {
        lemma_mul_le(w as int, config.max_grid_width as int, h as int, config.max_grid_height as int);
        assert(w * h * 4 <= config.max_grid_width * config.max_grid_height * 4) by (nonlinear_arith)
            requires w * h <= config.max_grid_width * config.max_grid_height;
    }
    (w, h)
}

/// The thumbnail of every timeline column lands in one of the grids that
/// `grid_count` allocates.
pub proof fn lemma_file_in_range(c: Config, i: nat)
    requires
        c.wf(),
        i < c.width,
    ensures
        placement(c, i).0 < grids_needed(c),
{
    lemma_layout_bounds(c);
    let per = capacity_of(c) as int;
    let w = c.width as int;
    lemma_fundamental_div_mod(w, per);
    lemma_mod_pos_bound(w, per);
    lemma_mul_is_commutative(per, w / per);
    if w % per == 0 {
        lemma_div_strict_upper(i as int, per, w / per);
    } else {
        lemma_div_is_ordered(i as int, w, per);
    }
}

/// Placement is a bijection from thumbnail indices onto the cells of the
/// grids: distinct thumbnails get distinct cells and distinct pixel
/// offsets, and every cell of every grid belongs to one thumbnail.
pub proof fn lemma_placement_bijective(c: Config, i: nat, j: nat)
    requires
        c.wf(),
    ensures
        placement(c, i).1 < rows_of(c),
        placement(c, i).2 < columns_of(c),
        placement(c, i) == placement(c, j) ==> i == j,
        position_of(c, i) == position_of(c, j) ==> i == j,
{
    lemma_layout_bounds(c);
    let cols = columns_of(c) as int;
    let rows = rows_of(c) as int;
    let per = capacity_of(c) as int;
    lemma_placement_parts(c, i);
    lemma_placement_parts(c, j);
    let (fi, ri, ci) = placement(c, i);
    let (fj, rj, cj) = placement(c, j);
    if position_of(c, i) == position_of(c, j) {
        let tw = c.thumbnail_width as int;
        let th = c.thumbnail_height as int;
        assert(ci == cj) by (nonlinear_arith)
            requires ci * tw == cj * tw, tw >= 1;
        assert(ri == rj) by (nonlinear_arith)
            requires ri * th == rj * th, th >= 1;
    }
}

/// Thumbnail `i` is rebuilt from its placement.
proof fn lemma_placement_parts(c: Config, i: nat)
    requires
        c.wf(),
    ensures
        placement(c, i).1 < rows_of(c),
        placement(c, i).2 < columns_of(c),
        i == placement(c, i).0 * capacity_of(c) + placement(c, i).1 * columns_of(c)
            + placement(c, i).2,
{
    lemma_layout_bounds(c);
    let cols = columns_of(c) as int;
    let rows = rows_of(c) as int;
    let per = capacity_of(c) as int;
    let local = (i as int) % per;
    lemma_fundamental_div_mod(i as int, per);
    lemma_mod_pos_bound(i as int, per);
    lemma_fundamental_div_mod(local, cols);
    lemma_mod_pos_bound(local, cols);
    lemma_div_strict_upper(local, cols, rows);
    lemma_div_pos_is_pos(local, cols);
    lemma_mul_is_commutative(per, (i as int) / per);
    lemma_mul_is_commutative(cols, local / cols);
}

/// Every cell `(file, row, col)` of every grid holds thumbnail
/// `file * capacity + row * columns + col`.
pub proof fn lemma_placement_onto(c: Config, file: nat, row: nat, col: nat)
    requires
        c.wf(),
        row < rows_of(c),
        col < columns_of(c),
    ensures
        placement(c, file * capacity_of(c) + row * columns_of(c) + col) == (file, row, col),
{
    lemma_layout_bounds(c);
    let cols = columns_of(c) as int;
    let rows = rows_of(c) as int;
    let per = capacity_of(c) as int;
    let local = row * cols + col;
    assert(0 <= local < per) by (nonlinear_arith)
        requires local == row * cols + col, row < rows, col < cols, per == cols * rows, 0 <= row,
            0 <= col;
    let i = file * per + local;
    lemma_fundamental_div_mod_converse(i, per, file as int, local);
    lemma_fundamental_div_mod_converse(local, cols, row as int, col as int);
}

/// Grid file and pixel offset `(file, x, y)` of thumbnail `i`.
///
/// Thumbnails fill a grid row by row; a full grid continues in the next file.
pub fn grid_position(i: usize, config: &Config) -> (r: (usize, usize, usize))
    requires
        config.wf(),
    ensures
        (r.0 as nat, r.1 as nat, r.2 as nat) == position_of(*config, i as nat),
        r.1 + config.thumbnail_width <= columns_of(*config) * config.thumbnail_width,
        r.2 + config.thumbnail_height <= rows_of(*config) * config.thumbnail_height,
{
    proof {
        lemma_layout_bounds(*config);
    }
    let grid_columns = config.max_grid_width / config.thumbnail_width;
    let grid_rows = config.max_grid_height / config.thumbnail_height;
    assert(grid_columns * grid_rows == capacity_of(*config));
    let per = grid_columns * grid_rows;
    let file = i / per;
    let pos = i % per;
    let row = pos / grid_columns;
    let column = pos % grid_columns;
    proof {
        lemma_mod_pos_bound(i as int, per as int);
        lemma_div_is_ordered(pos as int, per as int, grid_columns as int);
        lemma_div_multiples_vanish(grid_rows as int, grid_columns as int);
        lemma_mul_is_commutative(grid_columns as int, grid_rows as int);
        lemma_mod_pos_bound(pos as int, grid_columns as int);
        lemma_fundamental_div_mod(pos as int, grid_columns as int);
        // row < grid_rows: pos < cols * rows
        lemma_div_strict_upper(pos as int, grid_columns as int, grid_rows as int);
        lemma_mul_le(column as int + 1, grid_columns as int, config.thumbnail_width as int,
            config.thumbnail_width as int);
        lemma_mul_le(row as int + 1, grid_rows as int, config.thumbnail_height as int,
            config.thumbnail_height as int);
        lemma_mul_is_distributive_add_other_way(config.thumbnail_width as int, column as int, 1);
        lemma_mul_is_distributive_add_other_way(config.thumbnail_height as int, row as int, 1);
    }
    (file, column * config.thumbnail_width, row * config.thumbnail_height)
}

proof fn lemma_div_strict_upper(x: int, d: int, k: int)
    requires
        0 <= x < d * k,
        0 < d,
    ensures
        x / d < k,
{
    lemma_fundamental_div_mod(x, d);
    lemma_mod_pos_bound(x, d);
    assert(x / d < k) by (nonlinear_arith)
        requires x == d * (x / d) + x % d, 0 <= x % d, x < d * k, 0 < d;
}

} // verus!
