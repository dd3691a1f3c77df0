//! The simulation state and its transitions.

use vstd::prelude::*;
use crate::rng::{stream, rng_seed, rng_drawn, rng_from_seed, rng_next};

verus! {

/// Grid width: the agent's x coordinate ranges over [0, W).
pub const W: i64 = 4;

/// Grid height: the agent's y coordinate ranges over [0, H).
pub const H: i64 = 3;

/// The simulation ends exactly when the turn counter reaches this value.
pub const END_TURN: u64 = 4;

/// The agent's position on the grid.
pub struct Coord {
    pub x: i64,
    pub y: i64,
}

/// The mathematical model of a simulation state: the grid contents in
/// row-major order (cell (x, y) at index x * H + y), the agent's position,
/// the turn counter, the cumulative score, and the generator's seed together
/// with how many values it has yielded.
#[verifier::ext_equal]
pub ghost struct Model {
    pub grid: Seq<u64>,
    pub x: int,
    pub y: int,
    pub tern: int,
    pub score: int,
    pub seed: u64,
    pub drawn: int,
}

/// Flat row-major index of cell (i, j).
pub open spec fn flat(i: int, j: int) -> int {
    i * (H as int) + j
}

impl Model {
    /// Well-formedness: grid dimensions, cell values below 10, the agent in
    /// range, the turn counter bounded by END_TURN, and the score bounded by
    /// what at most 9 points per completed turn can have accumulated.
    pub open spec fn wf(self) -> bool {
        &&& self.grid.len() == W as int * H as int
        &&& (forall|k: int| 0 <= k < self.grid.len() ==> self.grid[k] < 10)
        &&& 0 <= self.x < W as int
        &&& 0 <= self.y < H as int
        &&& 0 <= self.tern <= END_TURN as int
        &&& 0 <= self.score <= 9 * self.tern
        &&& self.drawn >= 0
    }

    /// The same state after one more value has been drawn from the generator.
    pub open spec fn after_draw(self) -> Model {
        Model { drawn: self.drawn + 1, ..self }
    }
}

/// The x component of a direction's unit displacement. The fixed
/// enumeration order of the directions is {+x, -x, +y, -y}.
pub open spec fn dx(a: int) -> int {
    if a == 0 { 1 } else if a == 1 { -1 } else { 0 }
}

/// The y component of a direction's unit displacement.
pub open spec fn dy(a: int) -> int {
    if a == 2 { 1 } else if a == 3 { -1 } else { 0 }
}

/// A direction is legal exactly when the displaced coordinate stays on the
/// grid.
pub open spec fn legal(m: Model, a: int) -> bool {
    &&& 0 <= a < 4
    &&& 0 <= m.x + dx(a) < W as int
    &&& 0 <= m.y + dy(a) < H as int
}

/// The legal directions, in the fixed enumeration order {+x, -x, +y, -y}
/// filtered by legality.
pub open spec fn legal_seq(m: Model) -> Seq<usize> {
    let s0 = if legal(m, 0) { seq![0usize] } else { Seq::empty() };
    let s1 = if legal(m, 1) { s0.push(1usize) } else { s0 };
    let s2 = if legal(m, 2) { s1.push(2usize) } else { s1 };
    if legal(m, 3) { s2.push(3usize) } else { s2 }
}

/// The direction a state's next draw selects: the draw reduced modulo the
/// number of legal directions picks an entry of the legal sequence.
pub open spec fn chosen(m: Model) -> usize {
    legal_seq(m)[stream(m.seed, m.drawn) as int % legal_seq(m).len() as int]
}

/// Law: a well-formed state always has a legal direction; on this grid there
/// are between 1 and 4 of them.
pub proof fn lemma_legal_nonempty(m: Model)
    requires
        m.wf(),
    ensures
        1 <= legal_seq(m).len() <= 4,
{
    if m.x + 1 < W as int {
        assert(legal(m, 0));
    } else {
        assert(legal(m, 1));
    }
}

/// Law: every entry of the legal sequence is a legal direction.
pub proof fn lemma_legal_sound(m: Model)
    ensures
        forall|k: int| 0 <= k < legal_seq(m).len() ==> legal(m, #[trigger] legal_seq(m)[k] as int),
{
    let s0 = if legal(m, 0) { seq![0usize] } else { Seq::empty() };
    let s1 = if legal(m, 1) { s0.push(1usize) } else { s0 };
    let s2 = if legal(m, 2) { s1.push(2usize) } else { s1 };
    assert(forall|k: int| 0 <= k < s0.len() ==> legal(m, #[trigger] s0[k] as int));
    assert(forall|k: int| 0 <= k < s1.len() ==> legal(m, #[trigger] s1[k] as int));
    assert(forall|k: int| 0 <= k < s2.len() ==> legal(m, #[trigger] s2[k] as int));
}

/// Law: every legal direction appears in the legal sequence.
pub proof fn lemma_legal_complete(m: Model, a: usize)
    requires
        legal(m, a as int),
    ensures
        legal_seq(m).contains(a),
{
    let s = legal_seq(m);
    if a == 0 {
        assert(s[0] == a);
    } else if a == 1 {
        let s0 = if legal(m, 0) { seq![0usize] } else { Seq::empty() };
        assert(s[s0.len() as int] == a);
    } else if a == 2 {
        let s0 = if legal(m, 0) { seq![0usize] } else { Seq::empty() };
        let s1 = if legal(m, 1) { s0.push(1usize) } else { s0 };
        assert(s[s1.len() as int] == a);
    } else {
        assert(s[s.len() - 1] == a);
    }
}

/// Law: the legal sequence keeps the fixed enumeration order — its entries
/// are strictly increasing.
pub proof fn lemma_legal_ordered(m: Model)
    ensures
        forall|k1: int, k2: int|
            0 <= k1 < k2 < legal_seq(m).len() ==> legal_seq(m)[k1] < legal_seq(m)[k2],
{
}

/// Law: with the agent in the corner (0, 0), the legal directions are
/// exactly {+x, +y}, in that order — never none and never more than two.
pub proof fn lemma_corner_legal(m: Model)
    requires
        m.wf(),
        m.x == 0,
        m.y == 0,
    ensures
        legal_seq(m) == seq![0usize, 2usize],
{
    assert(legal_seq(m) =~= seq![0usize, 2usize]);
}

/// The state after taking a legal direction: the agent moves by the unit
/// displacement, the entered cell's value is added to the score and the cell
/// is zeroed, and the turn counter advances by one.
pub open spec fn advanced(m: Model, a: int) -> Model {
    let nx = m.x + dx(a);
    let ny = m.y + dy(a);
    let p = m.grid[flat(nx, ny)];
    Model {
        grid: if p > 0 { m.grid.update(flat(nx, ny), 0u64) } else { m.grid },
        x: nx,
        y: ny,
        tern: m.tern + 1,
        score: m.score + p,
        seed: m.seed,
        drawn: m.drawn,
    }
}

/// Law: across an `advance` step the cumulative score never decreases; it
/// grows by exactly the entered cell's value; the entered cell reads 0
/// afterwards, so collecting it again can never add to the score; and no
/// cell's value ever grows, so a collected cell stays 0 in every later state.
pub proof fn lemma_advance_score(m: Model, a: int)
    requires
        m.wf(),
        m.tern < END_TURN as int,
        legal(m, a),
    ensures
        advanced(m, a).score == m.score + m.grid[flat(m.x + dx(a), m.y + dy(a))],
        advanced(m, a).score >= m.score,
        advanced(m, a).grid[flat(m.x + dx(a), m.y + dy(a))] == 0,
        forall|k: int| 0 <= k < m.grid.len() ==> advanced(m, a).grid[k] <= m.grid[k],
        advanced(m, a).wf(),
{
}

/// The one failure kind: `advance` was handed a direction that is not legal
/// in the current state.
#[derive(Clone, Copy, PartialEq, Eq, Structural, Debug)]
pub enum SimError {
    InvalidAction,
}

/// The agent's starting x coordinate for a given seed: the first draw,
/// masked to 16 bits, reduced modulo the grid width.
pub open spec fn start_x(seed: u64) -> int {
    (stream(seed, 0) & 0xffff) as int % (W as int)
}

/// The agent's starting y coordinate for a given seed: the second draw,
/// masked to 16 bits, reduced modulo the grid height.
pub open spec fn start_y(seed: u64) -> int {
    (stream(seed, 1) & 0xffff) as int % (H as int)
}

/// Position in the draw sequence of the value that fills cell (i, j) at
/// initialization: the first two draws pick the start, then the cells are
/// filled in row-major order, the starting cell being skipped.
pub open spec fn init_draw_index(seed: u64, i: int, j: int) -> int {
    let s = flat(start_x(seed), start_y(seed));
    let c = flat(i, j);
    if c < s {
        2 + c
    } else {
        1 + c
    }
}

/// The initial value of cell (i, j) for a given seed: 0 at the starting
/// cell, and a draw reduced modulo 10 everywhere else.
pub open spec fn init_cell(seed: u64, i: int, j: int) -> u64 {
    if i == start_x(seed) && j == start_y(seed) {
        0u64
    } else {
        stream(seed, init_draw_index(seed, i, j)) % 10
    }
}

/// The state that initialization with a given seed produces. Two draws pick
/// the starting cell, then one draw fills each of the other W * H - 1 cells.
pub open spec fn init_model(seed: u64) -> Model {
    Model {
        grid: Seq::new((W as int * H as int) as nat, |k: int| init_cell(seed, k / (H as int), k % (H as int))),
        x: start_x(seed),
        y: start_y(seed),
        tern: 0,
        score: 0,
        seed: seed,
        drawn: 1 + W as int * H as int,
    }
}

/// Row-major indexing is a bijection: the row and column can be read back
/// from the flat index by division and remainder.
pub proof fn lemma_flat_inverse(i: int, j: int)
    requires
        0 <= j < H as int,
    ensures
        flat(i, j) / (H as int) == i,
        flat(i, j) % (H as int) == j,
{
    assert((i * 3 + j) / 3 == i && (i * 3 + j) % 3 == j) by (nonlinear_arith)
        requires 0 <= j < 3;
}

/// Law: for every seed, initialization leaves the starting cell at exactly 0
/// and every cell of the grid with a value in [0, 10).
pub proof fn lemma_init_grid(seed: u64)
    ensures
        init_model(seed).wf(),
        init_model(seed).grid[flat(start_x(seed), start_y(seed))] == 0,
        forall|i: int, j: int|
            0 <= i < W as int && 0 <= j < H as int ==> init_model(seed).grid[flat(i, j)] < 10,
{
    assert forall|i: int, j: int|
        0 <= i < W as int && 0 <= j < H as int implies init_model(seed).grid[flat(i, j)] < 10 by {
        lemma_flat_inverse(i, j);
    }
    lemma_flat_inverse(start_x(seed), start_y(seed));
}

/// The full simulation state.
pub struct MazeState {
    pub points: Vec<u64>,
    pub tern: u64,
    pub rng: rand::rngs::StdRng,
    pub coord: Coord,
    pub game_score: u64,
}

impl MazeState {
    /// The mathematical model of this state.
    pub open spec fn model(self) -> Model {
        Model {
            grid: self.points@,
            x: self.coord.x as int,
            y: self.coord.y as int,
            tern: self.tern as int,
            score: self.game_score as int,
            seed: rng_seed(self.rng),
            drawn: rng_drawn(self.rng),
        }
    }

    /// Builds the initial state for a seed: derives the generator, draws the
    /// agent's starting cell from two draws, then fills every other cell in
    /// row-major order with one draw each, reduced modulo 10.
    pub fn new(seed: u64) -> (s: MazeState)
        ensures
            s.model() == init_model(seed),
            s.model().wf(),
    {
        let mut rng = rng_from_seed(seed);
        let vx = rng_next(&mut rng);
        let vy = rng_next(&mut rng);
        proof {
            assert((vx & 0xffffu64) <= 0xffff) by (bit_vector);
            assert((vy & 0xffffu64) <= 0xffff) by (bit_vector);
        }
        let x: i64 = ((vx & 0xffff) as i64) % W;
        let y: i64 = ((vy & 0xffff) as i64) % H;
        let sflat: i64 = x * H + y;
        let mut points: Vec<u64> = Vec::new();
        let mut k: i64 = 0;
        while k < W * H
            invariant
                rng_seed(rng) == seed,
                x as int == start_x(seed),
                y as int == start_y(seed),
                0 <= x < W as int,
                0 <= y < H as int,
                sflat as int == flat(x as int, y as int),
                0 <= k <= W as int * H as int,
                points@.len() == k as int,
                forall|m: int| 0 <= m < k as int ==>
                    points@[m] == init_cell(seed, m / (H as int), m % (H as int)),
                rng_drawn(rng) == if k as int <= sflat as int { 2 + k as int } else { 1 + k as int },
            decreases W as int * H as int - k as int,
        {
            let i = k / H;
            let j = k % H;
            proof {
                assert(k as int == (H as int) * (k as int / (H as int)) + k as int % (H as int));
            }
            if i == x && j == y {
                points.push(0);
            } else {
                let v = rng_next(&mut rng);
                points.push(v % 10);
            }
            k = k + 1;
        }
        let s = MazeState {
            points,
            tern: 0,
            rng,
            coord: Coord { x, y },
            game_score: 0,
        };
        proof {
            assert(s.model().grid =~= init_model(seed).grid);
            assert(s.model() =~= init_model(seed));
            lemma_init_grid(seed);
        }
        s
    }

    /// True exactly when the simulation has reached its final turn.
    pub fn is_done(&self) -> (r: bool)
        ensures
            r == (self.model().tern == END_TURN as int),
    {
        self.tern == END_TURN
    }

    /// The four directions in their fixed enumeration order {+x, -x, +y, -y},
    /// as unit displacement vectors.
    pub fn delta(action: usize) -> (d: (i64, i64))
        requires
            action < 4,
        ensures
            d.0 as int == dx(action as int),
            d.1 as int == dy(action as int),
    {
        if action == 0 {
            (1, 0)
        } else if action == 1 {
            (-1, 0)
        } else if action == 2 {
            (0, 1)
        } else {
            (0, -1)
        }
    }

    /// The legal directions in the current state, in the fixed enumeration
    /// order filtered by legality.
    pub fn legal_actions(&self) -> (r: Vec<usize>)
        requires
            self.model().wf(),
        ensures
            r@ == legal_seq(self.model()),
    {
        let mut ret: Vec<usize> = Vec::new();
        if self.coord.x + 1 < W {
            ret.push(0);
        }
        if self.coord.x - 1 >= 0 {
            ret.push(1);
        }
        if self.coord.y + 1 < H {
            ret.push(2);
        }
        if self.coord.y - 1 >= 0 {
            ret.push(3);
        }
        proof {
            assert(ret@ =~= legal_seq(self.model()));
        }
        ret
    }

    /// Draws one value from the generator and selects a legal direction with
    /// it: the draw reduced modulo the number of legal directions indexes the
    /// legal sequence.
    pub fn random_action(&mut self) -> (a: usize)
        requires
            old(self).model().wf(),
        ensures
            final(self).model() == old(self).model().after_draw(),
            a == chosen(old(self).model()),
            legal(old(self).model(), a as int),
    {
        let actions = self.legal_actions();
        proof {
            lemma_legal_nonempty(old(self).model());
            lemma_legal_sound(old(self).model());
        }
        let v = rng_next(&mut self.rng);
        let idx: usize = (v % (actions.len() as u64)) as usize;
        let a = actions[idx];
        proof {
            assert(self.model() =~= old(self).model().after_draw());
        }
        a
    }

    /// Applies a direction: rejects it if it is not legal in the current
    /// state, and otherwise moves the agent, collects the entered cell's
    /// value into the score, zeroes that cell, and advances the turn counter.
    pub fn advance(&mut self, action: usize) -> (r: Result<(), SimError>)
        requires
            old(self).model().wf(),
            old(self).model().tern < END_TURN as int,
        ensures
            r is Ok <==> legal(old(self).model(), action as int),
            r is Ok ==> final(self).model() == advanced(old(self).model(), action as int),
            r is Err ==> final(self).model() == old(self).model(),
            final(self).model().wf(),
    {
        if action >= 4 {
            return Err(SimError::InvalidAction);
        }
        let d = Self::delta(action);
        let nx = self.coord.x + d.0;
        let ny = self.coord.y + d.1;
        if !(nx >= 0 && nx < W && ny >= 0 && ny < H) {
            return Err(SimError::InvalidAction);
        }
        self.coord.x = nx;
        self.coord.y = ny;
        let idx: usize = (nx * H + ny) as usize;
        let p = self.points[idx];
        if p > 0 {
            self.game_score = self.game_score + p;
            self.points[idx] = 0;
        }
        self.tern = self.tern + 1;
        proof {
            assert(self.model() =~= advanced(old(self).model(), action as int));
        }
        Ok(())
    }
}

} // verus!
