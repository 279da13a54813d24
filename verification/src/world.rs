//! The simulation state and its single-tick transition rules.

use vstd::prelude::*;
use rand::Rng;
use crate::geom::Vec2i;

verus! {

/// One discrete command consumed per tick.
#[derive(PartialEq, Eq, Structural, Clone, Copy, Debug)]
pub enum GameInput {
    /// A recognized "wait" key: a tick passes with no player motion.
    Idle,
    /// A horizontal step by the given delta.
    Move { dir: Vec2i },
    /// Revive the player; only acts while the game is over.
    Restart,
}

/// True of every input the game recognizes: moves are horizontal steps of at
/// most one cell, so a committed move can never change the player's row.
pub open spec fn input_wf(input: GameInput) -> bool {
    match input {
        GameInput::Move { dir } => -1 <= dir.x <= 1 && dir.y == 0,
        _ => true,
    }
}

/// One enemy step: a falling token moves down one row, keeping its column.
pub open spec fn advanced_one(p: Vec2i) -> Vec2i {
    Vec2i { x: p.x, y: (p.y + 1) as i8 }
}

/// Every enemy moved down one row, in order.
pub open spec fn advanced(es: Seq<Vec2i>) -> Seq<Vec2i> {
    es.map_values(|p: Vec2i| advanced_one(p))
}

/// Whether some enemy in `es` occupies cell `p`.
pub open spec fn hits(es: Seq<Vec2i>, p: Vec2i) -> bool {
    exists|i: int| 0 <= i < es.len() && es[i] == p
}

/// Collision: a live player struck by any enemy in `es` dies.
pub open spec fn collide(p: Option<Vec2i>, es: Seq<Vec2i>) -> Option<Vec2i> {
    match p {
        Some(q) => if hits(es, q) { None } else { Some(q) },
        None => None,
    }
}

/// The enemies still on the grid after an advance: those whose row stayed
/// below `h`, in their original order.
pub open spec fn pruned(es: Seq<Vec2i>, h: i8) -> Seq<Vec2i>
    decreases es.len(),
{
    if es.len() == 0 {
        Seq::empty()
    } else if es.last().y < h {
        pruned(es.drop_last(), h).push(es.last())
    } else {
        pruned(es.drop_last(), h)
    }
}

/// Freshly spawned enemies: one at the top of column `x` for every `true`
/// at index `x` of the spawn decisions, columns in increasing order.
pub open spec fn spawn_cols(s: Seq<bool>) -> Seq<Vec2i>
    decreases s.len(),
{
    if s.len() == 0 {
        Seq::empty()
    } else if s.last() {
        spawn_cols(s.drop_last()).push(Vec2i { x: (s.len() - 1) as i8, y: 0 })
    } else {
        spawn_cols(s.drop_last())
    }
}

/// Occupancy of a cell is preserved by `push`: the new sequence hits `p`
/// exactly when the old one did or the new element is `p`.
pub proof fn lemma_hits_push(es: Seq<Vec2i>, e: Vec2i, p: Vec2i)
    ensures
        hits(es.push(e), p) <==> (hits(es, p) || e == p),
{
    if hits(es, p) {
        let k = choose|k: int| 0 <= k < es.len() && es[k] == p;
        assert(es.push(e)[k] == p);
    }
    if e == p {
        assert(es.push(e)[es.len() as int] == p);
    }
    if hits(es.push(e), p) {
        let k = choose|k: int| 0 <= k < es.push(e).len() && es.push(e)[k] == p;
        if k < es.len() {
            assert(es[k] == p);
        }
    }
}

/// The whole game state: fixed grid dimensions, the player's cell while
/// alive (`None` signals game over), and one cell per falling enemy.
pub struct World {
    pub w: i8,
    pub h: i8,
    pub player: Option<Vec2i>,
    pub enemies: Vec<Vec2i>,
}

impl World {
    /// Well-formedness: positive dimensions, a live player on the bottom
    /// row inside the grid, and every enemy inside the grid.
    pub open spec fn wf(self) -> bool {
        &&& 0 < self.w
        &&& 0 < self.h
        &&& match self.player {
            Some(p) => 0 <= p.x < self.w && p.y == self.h - 1,
            None => true,
        }
        &&& forall|i: int|
            0 <= i < self.enemies@.len() ==> (#[trigger] self.enemies@[i]).in_grid(self.w, self.h)
    }

    /// The cell a restart seeds the player at: horizontal center (integer
    /// division), bottom row.
    pub open spec fn restart_target(self) -> Vec2i {
        Vec2i { x: (self.w as int / 2) as i8, y: (self.h as int - 1) as i8 }
    }

    /// A fresh world with the given dimensions, not yet started: no player,
    /// no enemies. Dimensions are validated positive here, once.
    pub fn new(w: i8, h: i8) -> (r: Option<World>)
        ensures
            r is Some <==> (0 < w && 0 < h),
            r matches Some(world) ==> {
                &&& world.w == w
                &&& world.h == h
                &&& world.player is None
                &&& world.enemies@ == Seq::<Vec2i>::empty()
                &&& world.wf()
            },
    {
        if 0 < w && 0 < h {
            Some(World { w, h, player: None, enemies: Vec::new() })
        } else {
            None
        }
    }

    /// A fixed diagnostic value; always succeeds.
    pub fn return_one(&self) -> (r: Result<i32, &str>)
        ensures
            r matches Ok(v) && v == 42,
    {
        Ok(42)
    }

    /// Seed the player at the horizontal center of the bottom row and clear
    /// every enemy. Callable in any state; always succeeds.
    pub fn restart_game(&mut self)
        requires
            0 < old(self).w,
            0 < old(self).h,
        ensures
            final(self).w == old(self).w,
            final(self).h == old(self).h,
            final(self).player == Some(old(self).restart_target()),
            final(self).enemies@ == Seq::<Vec2i>::empty(),
            final(self).wf(),
    {
        self.player = Some(Vec2i { x: self.w / 2, y: self.h - 1 });
        self.enemies.clear();
    }

    /// Step 1 of a tick, restricted to the player: a move is committed only
    /// when the resulting column stays on the grid, a restart while alive is
    /// dropped, and nothing here moves a dead player.
    pub open spec fn moved_player(self, input: GameInput) -> Option<Vec2i> {
        match self.player {
            Some(p) => match input {
                GameInput::Move { dir } => {
                    let cand = Vec2i { x: (p.x + dir.x) as i8, y: (p.y + dir.y) as i8 };
                    if 0 <= cand.x < self.w {
                        Some(cand)
                    } else {
                        Some(p)
                    }
                },
                _ => Some(p),
            },
            None => None,
        }
    }

    /// A restart command acts only while the game is over; it then replaces
    /// the whole tick (no enemy advance, no spawn).
    pub open spec fn restart_applies(self, input: GameInput) -> bool {
        input is Restart && self.player is None
    }

    /// The player after one full tick on `input`.
    pub open spec fn player_after(self, input: GameInput) -> Option<Vec2i> {
        if self.restart_applies(input) {
            Some(self.restart_target())
        } else {
            collide(self.moved_player(input), advanced(self.enemies@))
        }
    }

    /// The enemies after one full tick on `input`, given one spawn decision
    /// per column: survivors of the advance, then the fresh spawns.
    pub open spec fn enemies_after(self, input: GameInput, spawns: Seq<bool>) -> Seq<Vec2i> {
        if self.restart_applies(input) {
            Seq::empty()
        } else {
            pruned(advanced(self.enemies@), self.h) + spawn_cols(spawns)
        }
    }

    /// One full tick with the spawn decisions handed in: apply the input to
    /// the player, advance every enemy one row (detecting collisions against
    /// the current player as each one moves), drop enemies that left the
    /// grid, then spawn a top-row enemy in every column whose decision is
    /// `true`. A restart while the game is over instead resets the world and
    /// skips the rest of the tick.
    pub fn update_with_spawns(&mut self, input: GameInput, spawns: &Vec<bool>)
        requires
            old(self).wf(),
            input_wf(input),
            spawns@.len() == old(self).w as int,
        ensures
            final(self).w == old(self).w,
            final(self).h == old(self).h,
            final(self).player == old(self).player_after(input),
            final(self).enemies@ == old(self).enemies_after(input, spawns@),
            final(self).wf(),
    {
        let ghost pre = *old(self);
        match input {
            GameInput::Move { dir } => {
                if let Some(player) = self.player {
                    let new_pos = player.plus(dir);
                    if new_pos.x >= 0 && new_pos.x < self.w {
                        self.player = Some(new_pos);
                    }
                }
            },
            GameInput::Idle => {},
            GameInput::Restart => {
                if self.player.is_none() {
                    self.restart_game();
                    return;
                }
            },
        }
        proof {
            assert(self.player == pre.moved_player(input));
        }
        let ghost p1 = self.player;
        let mut kept: Vec<Vec2i> = Vec::new();
        let mut i: usize = 0;
        while i < self.enemies.len()
            invariant
                pre.wf(),
                0 <= i <= self.enemies@.len(),
                self.w == pre.w,
                self.h == pre.h,
                self.enemies@ == pre.enemies@,
                self.player == collide(p1, advanced(pre.enemies@.take(i as int))),
                p1 matches Some(q) ==> q.in_grid(pre.w, pre.h),
                kept@ == pruned(advanced(pre.enemies@.take(i as int)), pre.h),
                forall|j: int| 0 <= j < kept@.len() ==> (#[trigger] kept@[j]).in_grid(pre.w, pre.h),
            decreases self.enemies@.len() - i,
        {
            let e = self.enemies[i];
            proof {
                assert(e.in_grid(pre.w, pre.h));
            }
            let np = Vec2i { x: e.x, y: e.y + 1 };
            if let Some(p) = self.player {
                if np == p {
                    self.player = None;
                }
            }
            if np.y < self.h {
                kept.push(np);
            }
            proof {
                let a0 = advanced(pre.enemies@.take(i as int));
                let a1 = advanced(pre.enemies@.take(i as int + 1));
                assert(pre.enemies@.take(i as int + 1).drop_last() =~= pre.enemies@.take(i as int));
                assert(a1 =~= a0.push(np));
                assert(a1.drop_last() =~= a0);
                if let Some(q) = p1 {
                    lemma_hits_push(a0, np, q);
                }
            }
            i += 1;
        }
        proof {
            assert(pre.enemies@.take(self.enemies@.len() as int) =~= pre.enemies@);
        }
        self.enemies = kept;
        let ghost base = pruned(advanced(pre.enemies@), pre.h);
        let ghost p2 = self.player;
        let mut x: i8 = 0;
        while x < self.w
            invariant
                0 <= x <= self.w,
                self.w == pre.w,
                self.h == pre.h,
                0 < self.w,
                0 < self.h,
                spawns@.len() == pre.w as int,
                self.player == p2,
                self.enemies@ == base + spawn_cols(spawns@.take(x as int)),
                forall|j: int|
                    0 <= j < self.enemies@.len() ==> (#[trigger] self.enemies@[j]).in_grid(
                        pre.w,
                        pre.h,
                    ),
            decreases self.w - x,
        {
            if spawns[x as usize] {
                self.enemies.push(Vec2i { x, y: 0 });
            }
            proof {
                let t1 = spawns@.take(x as int + 1);
                assert(t1.drop_last() =~= spawns@.take(x as int));
                assert(t1.last() == spawns@[x as int]);
                if spawns@[x as int] {
                    assert(spawn_cols(t1) == spawn_cols(spawns@.take(x as int)).push(
                        Vec2i { x, y: 0 },
                    ));
                    assert(self.enemies@ =~= base + spawn_cols(t1));
                } else {
                    assert(self.enemies@ =~= base + spawn_cols(t1));
                }
            }
            x += 1;
        }
        proof {
            assert(spawns@.take(pre.w as int) =~= spawns@);
        }
    }

    /// One full tick on `input`, drawing each column's spawn decision from
    /// the process RNG. The player's transition is exact; of the enemies,
    /// everything but the spawn draws is pinned: they equal
    /// `enemies_after` for some sequence of per-column decisions.
    pub fn update(&mut self, input: GameInput)
        requires
            old(self).wf(),
            input_wf(input),
        ensures
            final(self).w == old(self).w,
            final(self).h == old(self).h,
            final(self).player == old(self).player_after(input),
            exists|s: Seq<bool>|
                s.len() == old(self).w as int && final(self).enemies@ == old(self).enemies_after(
                    input,
                    s,
                ),
            final(self).wf(),
    {
        let ghost pre = *old(self);
        let mut spawns: Vec<bool> = Vec::new();
        let mut x: i8 = 0;
        while x < self.w
            invariant
                0 <= x <= self.w,
                spawns@.len() == x as int,
                *self == pre,
            decreases self.w - x,
        {
            spawns.push(spawn_coin());
            x += 1;
        }
        self.update_with_spawns(input, &spawns);
        proof {
            let s = spawns@;
            assert(s.len() == pre.w as int && self.enemies@ == pre.enemies_after(input, s));
        }
    }

    /// Runtime check of `wf`, for unverified callers that must establish it
    /// before driving the simulation.
    pub fn is_wf(&self) -> (r: bool)
        ensures
            r == self.wf(),
    {
        if !(0 < self.w && 0 < self.h) {
            return false;
        }
        if let Some(p) = self.player {
            if !(0 <= p.x && p.x < self.w && p.y == self.h - 1) {
                return false;
            }
        }
        let mut i: usize = 0;
        while i < self.enemies.len()
            invariant
                0 <= i <= self.enemies@.len(),
                0 < self.w,
                0 < self.h,
                forall|j: int|
                    0 <= j < i ==> (#[trigger] self.enemies@[j]).in_grid(self.w, self.h),
            decreases self.enemies@.len() - i,
        {
            let e = self.enemies[i];
            if !(0 <= e.x && e.x < self.w && 0 <= e.y && e.y < self.h) {
                return false;
            }
            i += 1;
        }
        true
    }
}

/// Runtime check of `input_wf`, for unverified callers.
pub fn input_ok(input: &GameInput) -> (r: bool)
    ensures
        r == input_wf(*input),
{
    match input {
        GameInput::Move { dir } => -1 <= dir.x && dir.x <= 1 && dir.y == 0,
        _ => true,
    }
}

/// Relies on rand's `thread_rng` and `Rng::gen_ratio`: one Bernoulli draw,
/// true with probability 1/4. Nothing is promised of the outcome; callers
/// are verified for either result.
#[verifier::external_body]
fn spawn_coin() -> bool {
    rand::thread_rng().gen_ratio(1, 4)
}

/// Left-edge clamp: in any live state with the player in column 0, a step
/// to the left leaves the player where it stands.
pub proof fn lemma_move_left_clamped(w: World)
    requires
        w.wf(),
        w.player matches Some(p) && p.x == 0,
    ensures
        w.moved_player(GameInput::Move { dir: Vec2i { x: -1i8, y: 0 } }) == w.player,
{
}

/// Right-edge clamp: in any live state with the player in the last column,
/// a step to the right leaves the player where it stands.
pub proof fn lemma_move_right_clamped(w: World)
    requires
        w.wf(),
        w.player matches Some(p) && p.x == w.w - 1,
    ensures
        w.moved_player(GameInput::Move { dir: Vec2i { x: 1, y: 0 } }) == w.player,
{
}

/// The idle input never moves the player: the input-application step of a
/// tick is the identity on the player for every state. (The rest of the
/// tick still runs, so a collision during the enemy advance may still end
/// the game; that is the enemies' doing, not the input's.)
pub proof fn lemma_idle_preserves_player(w: World)
    ensures
        w.moved_player(GameInput::Idle) == w.player,
{
}

/// Collision determinism: with the player at `(px, py)` and some enemy
/// directly above it at `(px, py - 1)`, one idle tick kills the player.
pub proof fn lemma_collision_from_above(w: World, px: i8, py: i8)
    requires
        w.wf(),
        w.player == Some(Vec2i { x: px, y: py }),
        w.enemies@.contains(Vec2i { x: px, y: (py - 1) as i8 }),
    ensures
        w.player_after(GameInput::Idle) is None,
{
    let e = Vec2i { x: px, y: (py - 1) as i8 };
    let k = choose|k: int| 0 <= k < w.enemies@.len() && w.enemies@[k] == e;
    assert(advanced(w.enemies@)[k] == advanced_one(e));
    assert(advanced_one(e) == Vec2i { x: px, y: py });
    assert(hits(advanced(w.enemies@), Vec2i { x: px, y: py }));
}

/// Restart while dead: a restart in a game-over state revives the player at
/// the restart target and leaves the enemy collection exactly empty — the
/// advance and the spawn of that tick are skipped, whatever the spawn
/// decisions would have been.
pub proof fn lemma_restart_while_dead(w: World, spawns: Seq<bool>)
    requires
        w.player is None,
    ensures
        w.player_after(GameInput::Restart) == Some(w.restart_target()),
        w.enemies_after(GameInput::Restart, spawns) == Seq::<Vec2i>::empty(),
{
}

/// Restart while alive: a restart in a live state is dropped, and the tick
/// proceeds exactly as an idle tick would — the same player transition and
/// the same enemy advance and spawn.
pub proof fn lemma_restart_while_alive(w: World, spawns: Seq<bool>)
    requires
        w.player is Some,
    ensures
        w.player_after(GameInput::Restart) == w.player_after(GameInput::Idle),
        w.enemies_after(GameInput::Restart, spawns) == w.enemies_after(GameInput::Idle, spawns),
{
}

} // verus!
