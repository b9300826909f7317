//! The spin lattice: storage, boundary-aware queries, neighbor
//! aggregation, and the stochastic single-site update.

use vstd::prelude::*;
use crate::prob;
use crate::rng;

verus! {

/// The state of one lattice site, plus the sentinel that boundary queries
/// return for coordinates outside the grid. `OOB` is never stored.
#[derive(Clone, Copy, PartialEq, Eq, Debug, Structural)]
pub enum Spin {
    Down,
    Up,
    OOB,
}

/// A fixed-size grid of spins, a temperature in micro-units, and an owned
/// random source.
///
/// The public fields may be read freely; writes must preserve [`Self::wf`]
/// (the dedicated mutators do so, and state it).
pub struct MagnetizedMaterial {
    /// Row-major storage: `cells[row][col]`, every entry `Up` or `Down`.
    pub cells: Vec<Vec<Spin>>,
    /// Number of columns; positive and fixed for the lattice's lifetime.
    pub width: usize,
    /// Number of rows; positive and fixed for the lattice's lifetime.
    pub height: usize,
    /// Temperature in micro-units (`1_000_000` stands for `1.0`); positive.
    pub temperature_micro: u64,
    /// The owned random source; nothing is specified about it.
    pub rng: rand::rngs::ThreadRng,
}

impl MagnetizedMaterial {
    /// Whether `(row, col)` lies inside the grid.
    pub open spec fn in_bounds(self, row: int, col: int) -> bool {
        0 <= row < self.height && 0 <= col < self.width
    }

    /// The stored spin at an in-bounds coordinate.
    pub open spec fn spin_at(self, row: int, col: int) -> Spin {
        self.cells@[row]@[col]
    }

    /// Well-formedness: positive dimensions small enough for signed
    /// coordinates, positive temperature, rectangular storage, and no
    /// stored `OOB`.
    pub open spec fn wf(self) -> bool {
        &&& 1 <= self.width <= isize::MAX
        &&& 1 <= self.height <= isize::MAX
        &&& self.temperature_micro >= 1
        &&& self.cells@.len() == self.height
        &&& forall|r: int| 0 <= r < self.height ==> (#[trigger] self.cells@[r])@.len() == self.width
        &&& forall|r: int, c: int| self.in_bounds(r, c) ==> #[trigger] self.spin_at(r, c) != Spin::OOB
    }

    /// What a boundary-aware query returns: the stored spin inside the
    /// grid, the `OOB` sentinel outside it.
    pub open spec fn query_spec(self, row: int, col: int) -> Spin {
        if self.in_bounds(row, col) {
            self.spin_at(row, col)
        } else {
            Spin::OOB
        }
    }

    /// One if the query at `(row, col)` yields `Up`, else zero.
    pub open spec fn up_ind(self, row: int, col: int) -> nat {
        if self.query_spec(row, col) == Spin::Up {
            1
        } else {
            0
        }
    }

    /// One if the query at `(row, col)` yields `Down`, else zero.
    pub open spec fn down_ind(self, row: int, col: int) -> nat {
        if self.query_spec(row, col) == Spin::Down {
            1
        } else {
            0
        }
    }

    /// How many of the eight Moore neighbors of `(row, col)` are `Up`;
    /// out-of-bounds neighbors count for nothing.
    pub open spec fn up_neighbors(self, row: int, col: int) -> nat {
        self.up_ind(row - 1, col - 1) + self.up_ind(row - 1, col) + self.up_ind(row - 1, col + 1)
            + self.up_ind(row, col - 1) + self.up_ind(row, col + 1)
            + self.up_ind(row + 1, col - 1) + self.up_ind(row + 1, col) + self.up_ind(
            row + 1,
            col + 1,
        )
    }

    /// How many of the eight Moore neighbors of `(row, col)` are `Down`.
    pub open spec fn down_neighbors(self, row: int, col: int) -> nat {
        self.down_ind(row - 1, col - 1) + self.down_ind(row - 1, col) + self.down_ind(
            row - 1,
            col + 1,
        ) + self.down_ind(row, col - 1) + self.down_ind(row, col + 1) + self.down_ind(
            row + 1,
            col - 1,
        ) + self.down_ind(row + 1, col) + self.down_ind(row + 1, col + 1)
    }

    /// The Q32 flip probability of the site at `(row, col)`.
    pub open spec fn p_up_at(self, row: int, col: int) -> nat {
        prob::p_up_q32_spec(
            self.up_neighbors(row, col),
            self.down_neighbors(row, col),
            self.temperature_micro as nat,
        )
    }

    /// The spin a site is set to when a 32-bit roll is sampled against a
    /// Q32 flip probability: `Up` exactly when the roll falls below it.
    pub open spec fn sampled_spin(roll: u32, p_up: nat) -> Spin {
        if (roll as nat) < p_up {
            Spin::Up
        } else {
            Spin::Down
        }
    }

    /// Dimensions and temperature agree.
    pub open spec fn same_shape(pre: Self, post: Self) -> bool {
        &&& post.width == pre.width
        &&& post.height == pre.height
        &&& post.temperature_micro == pre.temperature_micro
    }

    /// Every stored spin agrees, except possibly at `(row, col)`.
    pub open spec fn agrees_except(pre: Self, post: Self, row: int, col: int) -> bool {
        forall|r: int, c: int|
            pre.in_bounds(r, c) && !(r == row && c == col) ==> #[trigger] post.spin_at(r, c)
                == pre.spin_at(r, c)
    }

    /// The flip probability only looks at the grid, the dimensions and the
    /// temperature, so it carries over to any state that shares them.
    proof fn lemma_p_up_carries_over(pre: Self, post: Self, row: int, col: int)
        requires
            post.cells == pre.cells,
            post.width == pre.width,
            post.height == pre.height,
            post.temperature_micro == pre.temperature_micro,
        ensures
            post.p_up_at(row, col) == pre.p_up_at(row, col),
    {
        assert(post.up_neighbors(row, col) == pre.up_neighbors(row, col));
        assert(post.down_neighbors(row, col) == pre.down_neighbors(row, col));
    }

    /// Well-formedness only looks at the grid, the dimensions and the
    /// temperature, so it carries over to any state that shares them.
    proof fn lemma_wf_carries_over(pre: Self, post: Self)
        requires
            pre.wf(),
            post.cells == pre.cells,
            post.width == pre.width,
            post.height == pre.height,
            post.temperature_micro >= 1,
        ensures
            post.wf(),
    {
        assert forall|r: int| 0 <= r < post.height implies (#[trigger] post.cells@[r])@.len()
            == post.width by {
            assert(pre.cells@[r]@.len() == pre.width);
        };
        assert forall|r: int, c: int| post.in_bounds(r, c) implies #[trigger] post.spin_at(r, c)
            != Spin::OOB by {
            assert(pre.spin_at(r, c) != Spin::OOB);
        };
    }

    /// Build a lattice split vertically in half: columns left of the
    /// midpoint `Up`, the rest `Down`, on every row. Rejects empty
    /// dimensions, dimensions too large for signed coordinates, and a zero
    /// temperature.
    pub fn new_halfhalf(width: usize, height: usize, temperature_micro: u64) -> (m: Option<
        MagnetizedMaterial,
    >)
        ensures
            m is Some <==> (1 <= width <= isize::MAX && 1 <= height <= isize::MAX && 1
                <= temperature_micro),
            m matches Some(mat) ==> ({
                &&& mat.wf()
                &&& mat.width == width
                &&& mat.height == height
                &&& mat.temperature_micro == temperature_micro
                &&& forall|r: int, c: int|
                    mat.in_bounds(r, c) ==> #[trigger] mat.spin_at(r, c) == (if c < width / 2 {
                        Spin::Up
                    } else {
                        Spin::Down
                    })
            }),
    {
        if width < 1 || height < 1 || temperature_micro < 1 {
            return None;
        }
        if width > (isize::MAX as usize) || height > (isize::MAX as usize) {
            return None;
        }
        let half: usize = width / 2;
        let mut cells: Vec<Vec<Spin>> = Vec::new();
        let mut r: usize = 0;
        while r < height
            invariant
                r <= height,
                cells@.len() == r,
                half == width / 2,
                forall|i: int| 0 <= i < r ==> (#[trigger] cells@[i])@.len() == width,
                forall|i: int, j: int|
                    0 <= i < r && 0 <= j < width ==> (#[trigger] cells@[i]@[j]) == (if j < width
                        / 2 {
                        Spin::Up
                    } else {
                        Spin::Down
                    }),
            decreases height - r,
        {
            let mut row: Vec<Spin> = Vec::new();
            let mut c: usize = 0;
            while c < width
                invariant
                    c <= width,
                    row@.len() == c,
                    half == width / 2,
                    forall|j: int|
                        0 <= j < c ==> (#[trigger] row@[j]) == (if j < width / 2 {
                            Spin::Up
                        } else {
                            Spin::Down
                        }),
                decreases width - c,
            {
                if c < half {
                    row.push(Spin::Up);
                } else {
                    row.push(Spin::Down);
                }
                c = c + 1;
            }
            cells.push(row);
            r = r + 1;
        }
        Some(
            MagnetizedMaterial {
                cells,
                width,
                height,
                temperature_micro,
                rng: rng::new_rng(),
            },
        )
    }

    /// Boundary-aware query: the stored spin inside the grid, `OOB`
    /// outside it. Pure; repeated calls with no intervening update return
    /// the same value, since the result is a function of the state alone.
    pub fn get_cell(&self, row: isize, col: isize) -> (s: Spin)
        requires
            self.wf(),
        ensures
            s == self.query_spec(row as int, col as int),
    {
        if row < 0 || col < 0 {
            return Spin::OOB;
        }
        let r: usize = row as usize;
        let c: usize = col as usize;
        if r >= self.height || c >= self.width {
            return Spin::OOB;
        }
        self.cells[r][c]
    }

    /// Add the site's contribution to the running neighbor tallies.
    fn tally_site(&self, row: isize, col: isize, up: &mut u32, down: &mut u32)
        requires
            self.wf(),
            *old(up) <= 7,
            *old(down) <= 7,
        ensures
            *final(up) == *old(up) + self.up_ind(row as int, col as int),
            *final(down) == *old(down) + self.down_ind(row as int, col as int),
    {
        match self.get_cell(row, col) {
            Spin::Up => {
                *up = *up + 1;
            },
            Spin::Down => {
                *down = *down + 1;
            },
            Spin::OOB => {},
        }
    }

    /// The Q32 probability that the site at `(row, col)` becomes `Up` on
    /// its next update: the eight Moore neighbors are tallied, ignoring
    /// out-of-bounds ones, and the net influence is pushed through the
    /// logistic rule of [`prob::p_up_q32`].
    pub fn up_likelihood(&self, row: isize, col: isize) -> (p: u64)
        requires
            self.wf(),
            0 <= row < self.height,
            0 <= col < self.width,
        ensures
            p == self.p_up_at(row as int, col as int),
            p <= prob::ONE_Q32,
    {
        let mut up: u32 = 0;
        let mut down: u32 = 0;
        self.tally_site(row - 1, col - 1, &mut up, &mut down);
        self.tally_site(row - 1, col, &mut up, &mut down);
        self.tally_site(row - 1, col + 1, &mut up, &mut down);
        self.tally_site(row, col - 1, &mut up, &mut down);
        self.tally_site(row, col + 1, &mut up, &mut down);
        self.tally_site(row + 1, col - 1, &mut up, &mut down);
        self.tally_site(row + 1, col, &mut up, &mut down);
        self.tally_site(row + 1, col + 1, &mut up, &mut down);
        prob::p_up_q32(up, down, self.temperature_micro)
    }

    /// Set the temperature, in micro-units. A zero argument is clamped to
    /// the smallest positive value, so the logistic curve stays defined
    /// (and maximally steep). Takes effect on the next update.
    pub fn set_temperature_micro(&mut self, temperature_micro: u64)
        ensures
            final(self).temperature_micro == (if temperature_micro == 0 {
                1u64
            } else {
                temperature_micro
            }),
            final(self).cells == old(self).cells,
            final(self).width == old(self).width,
            final(self).height == old(self).height,
            old(self).wf() ==> final(self).wf(),
    {
        if temperature_micro == 0 {
            self.temperature_micro = 1;
        } else {
            self.temperature_micro = temperature_micro;
        }
        proof {
            if old(self).wf() {
                Self::lemma_wf_carries_over(*old(self), *self);
            }
        }
    }

    /// Overwrite the one site at `(row, col)` with the sampled spin and
    /// report whether the stored value actually changed. No other cell is
    /// touched.
    pub fn apply_spin(&mut self, row: usize, col: usize, becomes_up: bool) -> (flipped: bool)
        requires
            old(self).wf(),
            row < old(self).height,
            col < old(self).width,
        ensures
            final(self).wf(),
            Self::same_shape(*old(self), *final(self)),
            Self::agrees_except(*old(self), *final(self), row as int, col as int),
            final(self).spin_at(row as int, col as int) == (if becomes_up {
                Spin::Up
            } else {
                Spin::Down
            }),
            flipped == (final(self).spin_at(row as int, col as int) != old(self).spin_at(
                row as int,
                col as int,
            )),
    {
        let new_spin: Spin = if becomes_up {
            Spin::Up
        } else {
            Spin::Down
        };
        let current: Spin = self.cells[row][col];
        self.cells[row][col] = new_spin;
        proof {
            let pre = *old(self);
            assert(self.cells@[row as int]@[col as int] == new_spin);
            assert forall|r: int| 0 <= r < self.height implies (#[trigger] self.cells@[r])@.len()
                == self.width by {
                assert(pre.cells@[r]@.len() == pre.width);
                if r != row as int {
                    assert(self.cells@[r] == pre.cells@[r]);
                }
            };
            assert forall|r: int, c: int|
                pre.in_bounds(r, c) && !(r == row && c == col) implies #[trigger] self.spin_at(
                r,
                c,
            ) == pre.spin_at(r, c) by {
                if r != row as int {
                    assert(self.cells@[r] == pre.cells@[r]);
                }
            };
            assert forall|r: int, c: int| self.in_bounds(r, c) implies #[trigger] self.spin_at(
                r,
                c,
            ) != Spin::OOB by {
                assert(pre.spin_at(r, c) != Spin::OOB);
            };
        }
        current != new_spin
    }

    /// One stochastic update: draw a site uniformly at random, compute its
    /// flip probability, sample its new spin, store it, and report whether
    /// the site's value changed. Whatever the draws were, some in-bounds
    /// site and some 32-bit roll exist such that only that site may have
    /// changed, its new spin is exactly the sample of the roll against the
    /// prior state's flip probability there, and the report is true exactly
    /// when its stored value differs from before.
    pub fn step(&mut self) -> (flipped: bool)
        requires
            old(self).wf(),
        ensures
            final(self).wf(),
            Self::same_shape(*old(self), *final(self)),
            exists|row: int, col: int, roll: u32|
                {
                    &&& old(self).in_bounds(row, col)
                    &&& Self::agrees_except(*old(self), *final(self), row, col)
                    &&& final(self).spin_at(row, col) == #[trigger] Self::sampled_spin(
                        roll,
                        old(self).p_up_at(row, col),
                    )
                    &&& flipped == (final(self).spin_at(row, col) != old(self).spin_at(row, col))
                },
    {
        let row: usize = rng::random_index(&mut self.rng, self.height);
        let col: usize = rng::random_index(&mut self.rng, self.width);
        proof {
            Self::lemma_wf_carries_over(*old(self), *self);
        }
        let p: u64 = self.up_likelihood(row as isize, col as isize);
        proof {
            Self::lemma_p_up_carries_over(*old(self), *self, row as int, col as int);
        }
        let roll: u32 = rng::random_u32(&mut self.rng);
        proof {
            Self::lemma_wf_carries_over(*old(self), *self);
        }
        let becomes_up: bool = (roll as u64) < p;
        let flipped = self.apply_spin(row, col, becomes_up);
        proof {
            assert(old(self).in_bounds(row as int, col as int));
            assert(Self::agrees_except(*old(self), *self, row as int, col as int));
            assert(self.spin_at(row as int, col as int) == Self::sampled_spin(
                roll,
                old(self).p_up_at(row as int, col as int),
            ));
            assert(flipped == (self.spin_at(row as int, col as int) != old(self).spin_at(
                row as int,
                col as int,
            )));
        }
        flipped
    }
}

} // verus!
