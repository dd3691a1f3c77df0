//! The full simulation: construct, then render and take a random turn until
//! the final turn is reached, and render once more.
//!
//! At the model level the whole run is a function of the seed alone, so the
//! output of the executable runner is pinned exactly by `transcript`.

use vstd::prelude::*;
use crate::state::{
    END_TURN, MazeState, Model, advanced, chosen, init_model, legal,
    lemma_advance_score, lemma_init_grid, lemma_legal_nonempty, lemma_legal_sound,
};
use crate::render::render_bytes;

verus! {

/// One full turn at the model level: a draw chooses among the legal
/// directions, then the chosen direction is applied.
pub open spec fn model_step(m: Model) -> Model {
    advanced(m.after_draw(), chosen(m) as int)
}

/// The state after t turns of the simulation seeded with `seed`.
pub open spec fn run_model(seed: u64, t: int) -> Model
    decreases t,
{
    if t <= 0 {
        init_model(seed)
    } else {
        model_step(run_model(seed, t - 1))
    }
}

/// The output the simulation emits before its t-th turn: one render of each
/// of the states reached so far.
pub open spec fn transcript_upto(seed: u64, t: int) -> Seq<u8>
    decreases t,
{
    if t <= 0 {
        Seq::empty()
    } else {
        transcript_upto(seed, t - 1) + render_bytes(run_model(seed, t - 1))
    }
}

/// The full output of the simulation: a render before each of the END_TURN
/// turns, and one final render of the finished state.
pub open spec fn transcript(seed: u64) -> Seq<u8> {
    transcript_upto(seed, END_TURN as int + 1)
}

/// Law: every reachable state of the simulation is well-formed — in
/// particular its turn counter never exceeds END_TURN — and after exactly t
/// turns the turn counter reads t.
pub proof fn lemma_run_model_wf(seed: u64, t: int)
    requires
        0 <= t <= END_TURN as int,
    ensures
        run_model(seed, t).wf(),
        run_model(seed, t).tern == t,
    decreases t,
{
    if t == 0 {
        lemma_init_grid(seed);
    } else {
        lemma_run_model_wf(seed, t - 1);
        let m = run_model(seed, t - 1);
        lemma_legal_nonempty(m);
        lemma_legal_sound(m);
        lemma_advance_score(m.after_draw(), chosen(m) as int);
    }
}

/// Law: the simulation is deterministic — its full rendered output is a
/// function of the seed alone, so two runs from equal seeds produce
/// byte-identical output.
pub proof fn lemma_deterministic(seed: u64, a: Seq<u8>, b: Seq<u8>)
    requires
        a == transcript(seed),
        b == transcript(seed),
    ensures
        a == b,
{
}

/// Runs the whole simulation for a seed and returns everything it renders:
/// the state before each turn and the finished state.
pub fn run_transcript(seed: u64) -> (out: Vec<u8>)
    ensures
        out@ == transcript(seed),
{
    let mut st = MazeState::new(seed);
    let mut out: Vec<u8> = Vec::new();
    while !st.is_done()
        invariant
            st.model().wf(),
            st.model() == run_model(seed, st.model().tern),
            out@ == transcript_upto(seed, st.model().tern),
        decreases END_TURN as int - st.model().tern,
    {
        let ghost m = st.model();
        let ghost t = m.tern;
        let mut frame = st.render();
        out.append(&mut frame);
        proof {
            assert(out@ == transcript_upto(seed, t + 1));
            lemma_legal_nonempty(m);
            lemma_legal_sound(m);
        }
        let a = st.random_action();
        let r = st.advance(a);
        proof {
            assert(legal(m.after_draw(), a as int));
            assert(r is Ok);
            assert(st.model() == run_model(seed, t + 1));
        }
    }
    let mut last = st.render();
    out.append(&mut last);
    proof {
        assert(out@ == transcript(seed));
    }
    out
}

} // verus!
