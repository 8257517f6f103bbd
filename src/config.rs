//! The playfield geometry, speeds and timings that the rules are run with.
use vstd::prelude::*;
use crate::geometry::Size;
use crate::world::InvaderKind;

verus! {

/// Largest playfield dimension, size, step or padding, in micro-pixels.
pub const FIELD_LIMIT: i64 = 1_000_000_000_000;

/// Largest speed, in micro-pixels per microsecond (pixels per second).
pub const SPEED_LIMIT: i64 = 1_000_000;

/// Largest number of invader rows.
pub const ROW_LIMIT: u32 = 100;

/// Largest number of invaders in the starting grid.
pub const GRID_LIMIT: i64 = 100_000;

/// The injected configuration. Lengths are in micro-pixels, speeds in
/// micro-pixels per microsecond (that is, pixels per second) and times in
/// microseconds.
#[derive(Clone, Copy, Debug, PartialEq, Eq, Structural)]
pub struct Config {
    pub field_width: i64,
    pub field_height: i64,
    pub turret_size: Size,
    pub turret_padding: i64,
    pub turret_speed: i64,
    pub bullet_size: Size,
    pub invader_bullet_size: Size,
    pub bullet_speed: i64,
    pub invader_a_size: Size,
    pub invader_b_size: Size,
    pub invader_c_size: Size,
    pub invader_gap: i64,
    pub invader_step: i64,
    pub invader_vertical_step: i64,
    /// The share of the playfield width, in percent, that the grid spans.
    pub formation_share: i64,
    pub invader_rows: u32,
    pub shoot_cooldown: u32,
    pub invader_shoot_interval: u32,
    pub march_interval: u32,
    pub minimum_march_interval: u32,
}

pub open spec fn length_ok(v: i64) -> bool {
    0 <= v <= FIELD_LIMIT
}

pub open spec fn size_ok(s: Size) -> bool {
    length_ok(s.w) && length_ok(s.h)
}

impl Config {
    pub open spec fn wf(self) -> bool {
        &&& 0 < self.field_width <= FIELD_LIMIT
        &&& 0 < self.field_height <= FIELD_LIMIT
        &&& size_ok(self.turret_size)
        &&& size_ok(self.bullet_size)
        &&& size_ok(self.invader_bullet_size)
        &&& size_ok(self.invader_a_size)
        &&& size_ok(self.invader_b_size)
        &&& size_ok(self.invader_c_size)
        &&& length_ok(self.turret_padding)
        &&& length_ok(self.invader_gap)
        &&& length_ok(self.invader_step)
        &&& length_ok(self.invader_vertical_step)
        &&& 0 <= self.turret_speed <= SPEED_LIMIT
        &&& 0 <= self.bullet_speed <= SPEED_LIMIT
        &&& 0 <= self.formation_share <= 100
        &&& self.invader_rows <= ROW_LIMIT
        &&& self.invader_c_size.w + self.invader_gap > 0
        &&& self.turret_size.w / 2 + self.turret_padding <= self.field_width / 2
        &&& 2 * self.turret_padding <= self.field_width
        &&& 1 <= self.grid_columns() * self.invader_rows <= GRID_LIMIT
    }

    /// The number of invader columns: as many as fit, side by side at the
    /// pitch of the widest kind, in the configured share of the field width
    /// inside the padding.
    pub open spec fn grid_columns(self) -> int {
        (self.field_width - 2 * self.turret_padding) * self.formation_share / (100 * (
        self.invader_c_size.w + self.invader_gap))
    }

    /// The number of invaders in the starting grid.
    pub open spec fn grid_total(self) -> int {
        self.grid_columns() * self.invader_rows
    }

    /// The smallest X the turret may take.
    pub open spec fn left_bound(self) -> int {
        -(self.field_width / 2) + self.turret_size.w / 2 + self.turret_padding
    }

    /// The largest X the turret may take.
    pub open spec fn right_bound(self) -> int {
        self.field_width / 2 - self.turret_size.w / 2 - self.turret_padding
    }

    pub open spec fn kind_size(self, kind: InvaderKind) -> Size {
        match kind {
            InvaderKind::A => self.invader_a_size,
            InvaderKind::B => self.invader_b_size,
            InvaderKind::C => self.invader_c_size,
        }
    }

    /// The width of the widest kind of invader.
    pub open spec fn widest_invader(self) -> int {
        let a = self.invader_a_size.w as int;
        let b = self.invader_b_size.w as int;
        let c = self.invader_c_size.w as int;
        if a >= b && a >= c {
            a
        } else if b >= c {
            b
        } else {
            c
        }
    }

    /// How far right of the center the formation may reach before it turns.
    pub open spec fn march_limit(self) -> int {
        self.field_width / 2 - self.invader_gap - self.widest_invader()
    }

    /// The classic game: a 720 by 720 pixel field.
    pub open spec fn classic_spec() -> Config {
        Config {
            field_width: 720_000_000,
            field_height: 720_000_000,
            turret_size: Size { w: 52_000_000, h: 32_000_000 },
            turret_padding: 10_000_000,
            turret_speed: 500,
            bullet_size: Size { w: 4_000_000, h: 16_000_000 },
            invader_bullet_size: Size { w: 4_000_000, h: 10_000_000 },
            bullet_speed: 400,
            invader_a_size: Size { w: 32_000_000, h: 32_000_000 },
            invader_b_size: Size { w: 44_000_000, h: 32_000_000 },
            invader_c_size: Size { w: 48_000_000, h: 32_000_000 },
            invader_gap: 10_000_000,
            invader_step: 26_000_000,
            invader_vertical_step: 26_000_000,
            formation_share: 70,
            invader_rows: 5,
            shoot_cooldown: 500_000,
            invader_shoot_interval: 2_000_000,
            march_interval: 1_000_000,
            minimum_march_interval: 100_000,
        }
    }

    /// The classic game: a 720 by 720 pixel field.
    pub fn classic() -> (r: Config)
        ensures
            r == Config::classic_spec(),
            r.wf(),
    {
        let r = Config {
            field_width: 720_000_000,
            field_height: 720_000_000,
            turret_size: Size { w: 52_000_000, h: 32_000_000 },
            turret_padding: 10_000_000,
            turret_speed: 500,
            bullet_size: Size { w: 4_000_000, h: 16_000_000 },
            invader_bullet_size: Size { w: 4_000_000, h: 10_000_000 },
            bullet_speed: 400,
            invader_a_size: Size { w: 32_000_000, h: 32_000_000 },
            invader_b_size: Size { w: 44_000_000, h: 32_000_000 },
            invader_c_size: Size { w: 48_000_000, h: 32_000_000 },
            invader_gap: 10_000_000,
            invader_step: 26_000_000,
            invader_vertical_step: 26_000_000,
            formation_share: 70,
            invader_rows: 5,
            shoot_cooldown: 500_000,
            invader_shoot_interval: 2_000_000,
            march_interval: 1_000_000,
            minimum_march_interval: 100_000,
        };
        assert(r.grid_columns() == 8) by {
            assert((700_000_000int * 70) / 5_800_000_000int == 8) by (nonlinear_arith);
        }
        r
    }

    /// The size of an invader of `kind`.
    pub fn invader_size(&self, kind: InvaderKind) -> (r: Size)
        ensures
            r == self.kind_size(kind),
    {
        match kind {
            InvaderKind::A => self.invader_a_size,
            InvaderKind::B => self.invader_b_size,
            InvaderKind::C => self.invader_c_size,
        }
    }

    /// The width of the widest kind of invader.
    pub fn widest_invader_width(&self) -> (r: i64)
        ensures
            r == self.widest_invader(),
    {
        let a = self.invader_a_size.w;
        let b = self.invader_b_size.w;
        let c = self.invader_c_size.w;
        if a >= b && a >= c {
            a
        } else if b >= c {
            b
        } else {
            c
        }
    }
}

} // verus!
