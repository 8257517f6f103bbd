//! The starting layout: the turret near the bottom edge and the invader grid
//! near the top.
use vstd::prelude::*;
use crate::config::{Config, FIELD_LIMIT, ROW_LIMIT, GRID_LIMIT};
use crate::geometry::{Point, Size};
use crate::world::{actor_ok, Actor, InvaderKind, Role, World};

verus! {

/// The kind of the invaders of grid row `row`, counted from the top.
pub open spec fn row_kind(row: int) -> InvaderKind {
    if row < 2 {
        InvaderKind::A
    } else if row < 4 {
        InvaderKind::B
    } else {
        InvaderKind::C
    }
}

/// Where the invader of row `row` and column `col` starts.
pub open spec fn grid_pos(cfg: Config, row: int, col: int) -> Point {
    Point {
        x: (-(cfg.field_width / 2) + cfg.turret_padding + (2 * col + 1) * (cfg.invader_c_size.w
            + cfg.invader_gap) / 2) as i64,
        y: (cfg.field_height / 2 - (cfg.invader_a_size.h + cfg.invader_gap) * (row + 1)) as i64,
    }
}

/// The `i`-th invader of the starting grid, filled row by row.
pub open spec fn grid_actor(cfg: Config, i: int) -> Actor {
    let cols = cfg.grid_columns();
    let kind = row_kind(i / cols);
    Actor {
        id: (i + 1) as u64,
        pos: grid_pos(cfg, i / cols, i % cols),
        size: cfg.kind_size(kind),
        role: Role::Invader { kind, frame: 1 },
    }
}

/// Where the turret starts: centered, resting on the padding above the
/// bottom edge.
pub open spec fn turret_start(cfg: Config) -> Point {
    Point { x: 0, y: (-(cfg.field_height / 2) + cfg.turret_size.h / 2 + cfg.turret_padding) as i64 }
}

pub fn row_kind_exec(row: usize) -> (r: InvaderKind)
    ensures
        r == row_kind(row as int),
{
    if row < 2 {
        InvaderKind::A
    } else if row < 4 {
        InvaderKind::B
    } else {
        InvaderKind::C
    }
}

proof fn lemma_grid_bounds(cfg: Config, i: int)
    requires
        cfg.wf(),
        0 <= i < cfg.grid_total(),
    ensures
        cfg.grid_columns() > 0,
        cfg.grid_columns() <= cfg.field_width,
        0 <= i / cfg.grid_columns() < cfg.invader_rows,
        0 <= i % cfg.grid_columns() < cfg.grid_columns(),
        0 <= (2 * (i % cfg.grid_columns()) + 1) * (cfg.invader_c_size.w + cfg.invader_gap) <= 2
            * cfg.field_width,
        0 <= (cfg.invader_a_size.h + cfg.invader_gap) * (i / cfg.grid_columns() + 1) <= 2
            * FIELD_LIMIT * ROW_LIMIT,
{
    let cols = cfg.grid_columns();
    let rows = cfg.invader_rows as int;
    let pitch = cfg.invader_c_size.w + cfg.invader_gap;
    let inner = (cfg.field_width - 2 * cfg.turret_padding) * cfg.formation_share;
    assert(cols >= 0) by (nonlinear_arith)
        requires
            cols == inner / (100 * pitch),
            inner >= 0,
            pitch > 0,
    ;
    assert(cols > 0) by (nonlinear_arith)
        requires
            0 <= i < cols * rows,
            cols >= 0,
            rows >= 0,
    ;
    let r = i / cols;
    let c = i % cols;
    assert(0 <= r < rows) by (nonlinear_arith)
        requires
            0 <= i < cols * rows,
            cols > 0,
            r == i / cols,
    ;
    assert(cols * pitch <= cfg.field_width) by (nonlinear_arith)
        requires
            cols == inner / (100 * pitch),
            inner == (cfg.field_width - 2 * cfg.turret_padding) * cfg.formation_share,
            0 <= cfg.formation_share <= 100,
            0 <= cfg.field_width - 2 * cfg.turret_padding <= cfg.field_width,
            pitch > 0,
    ;
    assert(cols <= cfg.field_width) by (nonlinear_arith)
        requires
            cols * pitch <= cfg.field_width,
            pitch > 0,
            cols > 0,
    ;
    assert(0 <= (2 * c + 1) * pitch <= 2 * cfg.field_width) by (nonlinear_arith)
        requires
            0 <= c < cols,
            cols * pitch <= cfg.field_width,
            pitch > 0,
    ;
    assert(0 <= (cfg.invader_a_size.h + cfg.invader_gap) * (r + 1) <= 2 * FIELD_LIMIT
        * ROW_LIMIT) by (nonlinear_arith)
        requires
            0 <= cfg.invader_a_size.h + cfg.invader_gap <= 2 * FIELD_LIMIT,
            0 <= r < rows,
            rows <= ROW_LIMIT,
    ;
}

impl World {
    /// The world at the start: the turret and the full invader grid, each
    /// invader on its first animation frame.
    pub fn setup(cfg: &Config) -> (w: World)
        requires
            cfg.wf(),
        ensures
            w.wf(),
            w.turret == (Actor {
                id: 0,
                pos: turret_start(*cfg),
                size: cfg.turret_size,
                role: Role::Turret,
            }),
            w.actors@.len() == cfg.grid_total(),
            forall|i: int| 0 <= i < w.actors@.len() ==> w.actors@[i] == grid_actor(*cfg, i),
            w.next_id == cfg.grid_total() + 1,
    {
        let turret = Actor {
            id: 0,
            pos: Point {
                x: 0,
                y: -(cfg.field_height / 2) + cfg.turret_size.h / 2 + cfg.turret_padding,
            },
            size: cfg.turret_size,
            role: Role::Turret,
        };
        let pitch: i64 = cfg.invader_c_size.w + cfg.invader_gap;
        assert(0 <= (cfg.field_width - 2 * cfg.turret_padding) * cfg.formation_share <= 100
            * FIELD_LIMIT) by (nonlinear_arith)
            requires
                0 <= cfg.field_width - 2 * cfg.turret_padding <= FIELD_LIMIT,
                0 <= cfg.formation_share <= 100,
        ;
        let cols: i64 = (cfg.field_width - 2 * cfg.turret_padding) * cfg.formation_share / (100
            * pitch);
        proof {
            assert(cols >= 0) by (nonlinear_arith)
                requires
                    cols == (cfg.field_width - 2 * cfg.turret_padding) * cfg.formation_share / (
                    100 * pitch),
                    (cfg.field_width - 2 * cfg.turret_padding) * cfg.formation_share >= 0,
                    pitch > 0,
            ;
            assert(cols * cfg.invader_rows <= GRID_LIMIT);
        }
        let total: u64 = (cols * cfg.invader_rows as i64) as u64;
        let cols_u: u64 = cols as u64;
        let mut actors: Vec<Actor> = Vec::new();
        let mut i: u64 = 0;
        while i < total
            invariant
                cfg.wf(),
                cols == cfg.grid_columns(),
                cols_u == cols,
                pitch == cfg.invader_c_size.w + cfg.invader_gap,
                total == cfg.grid_total(),
                0 <= i <= total,
                actors@.len() == i,
                forall|k: int| 0 <= k < i ==> actors@[k] == grid_actor(*cfg, k),
                forall|k: int| 0 <= k < i ==> actor_ok(#[trigger] actors@[k]),
            decreases total - i,
        {
            proof {
                lemma_grid_bounds(*cfg, i as int);
            }
            let row = (i / cols_u) as i64;
            let col = (i % cols_u) as i64;
            assert(col == (i as int) % cfg.grid_columns());
            let odd: i64 = 2 * col + 1;
            assert(0 <= odd * pitch <= 2 * cfg.field_width);
            let span: i64 = odd * pitch;
            let kind = row_kind_exec(row as usize);
            let pos = Point {
                x: -(cfg.field_width / 2) + cfg.turret_padding + span / 2,
                y: cfg.field_height / 2 - (cfg.invader_a_size.h + cfg.invader_gap) * (row + 1),
            };
            actors.push(
                Actor {
                    id: (i + 1) as u64,
                    pos,
                    size: cfg.invader_size(kind),
                    role: Role::Invader { kind, frame: 1 },
                },
            );
            i = i + 1;
        }
        proof {
            assert forall|a: int, b: int| 0 <= a < b < actors@.len() implies actors@[a].id
                < actors@[b].id by {
                assert(actors@[a] == grid_actor(*cfg, a));
                assert(actors@[b] == grid_actor(*cfg, b));
            }
            assert forall|a: int| 0 <= a < actors@.len() implies 0 < #[trigger] actors@[a].id
                < total + 1 by {
                assert(actors@[a] == grid_actor(*cfg, a));
            }
        }
        World { turret, actors, next_id: (total + 1) as u64 }
    }
}

} // verus!
