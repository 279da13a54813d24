//! Rasterizing a world into a character buffer: one glyph per cell, one
//! line per row, and two trailer lines while the game is over.

use vstd::prelude::*;
use vstd::string::StringExecFns;
use crate::geom::Vec2i;
use crate::world::{World, hits};

verus! {

/// What occupies a cell in a drawn frame.
#[derive(PartialEq, Eq, Structural, Clone, Copy, Debug)]
pub enum ObjectType {
    Enemy,
    Player,
}

/// The draw-time scene overlay, as a function of the world: the player's
/// cell is laid down first and every enemy cell after it, so an enemy that
/// shares the player's cell wins the glyph. (That order is the renderer's
/// long-standing insertion order, kept as-is; it only shows in the one
/// transient state where the two coincide.)
pub open spec fn spec_occupant(w: World, p: Vec2i) -> Option<ObjectType> {
    if hits(w.enemies@, p) {
        Some(ObjectType::Enemy)
    } else if w.player == Some(p) {
        Some(ObjectType::Player)
    } else {
        None
    }
}

/// The character drawn for a cell.
pub open spec fn spec_glyph(w: World, p: Vec2i) -> char {
    match spec_occupant(w, p) {
        Some(ObjectType::Enemy) => 'o',
        Some(ObjectType::Player) => '^',
        None => ' ',
    }
}

/// The first `n` glyphs of row `y`, left to right.
pub open spec fn spec_row(w: World, y: i8, n: int) -> Seq<char>
    decreases n,
{
    if n <= 0 {
        Seq::empty()
    } else {
        spec_row(w, y, n - 1).push(spec_glyph(w, Vec2i { x: (n - 1) as i8, y }))
    }
}

/// The first `n` rows, top to bottom, each of full width and ended by a
/// newline.
pub open spec fn spec_rows(w: World, n: int) -> Seq<char>
    decreases n,
{
    if n <= 0 {
        Seq::empty()
    } else {
        spec_rows(w, n - 1) + spec_row(w, (n - 1) as i8, w.w as int).push('\n')
    }
}

/// The two trailer lines shown while the game is over: the game-over
/// message and the restart hint.
pub open spec fn spec_trailer() -> Seq<char> {
    seq![
        'G', 'A', 'M', 'E', 'O', 'V', 'E', 'R', '\n',
        'P', 'r', 'e', 's', 's', 'E', 'S', 'C', '\n',
    ]
}

/// One full frame: the grid rows, then the trailers when the game is over.
pub open spec fn spec_render(w: World) -> Seq<char> {
    spec_rows(w, w.h as int) + if w.player is None {
        spec_trailer()
    } else {
        Seq::<char>::empty()
    }
}

/// Whether some enemy occupies `p`, decided by a scan of the collection.
fn enemy_at(world: &World, p: Vec2i) -> (r: bool)
    ensures
        r == hits(world.enemies@, p),
{
    let mut i: usize = 0;
    while i < world.enemies.len()
        invariant
            0 <= i <= world.enemies@.len(),
            forall|j: int| 0 <= j < i ==> world.enemies@[j] != p,
        decreases world.enemies@.len() - i,
    {
        if world.enemies[i] == p {
            return true;
        }
        i += 1;
    }
    false
}

/// The occupant the frame shows at `p`, enemies over the player.
pub fn occupant_at(world: &World, p: Vec2i) -> (r: Option<ObjectType>)
    ensures
        r == spec_occupant(*world, p),
{
    if enemy_at(world, p) {
        Some(ObjectType::Enemy)
    } else if let Some(q) = world.player {
        if q == p {
            Some(ObjectType::Player)
        } else {
            None
        }
    } else {
        None
    }
}

/// The renderer. It keeps no state of its own: the scene overlay it lays
/// out each frame is `spec_occupant`, a pure function of the world, and is
/// discarded once the frame is written.
pub struct BoardRenderer {}

impl BoardRenderer {
    /// Append one frame of `world` to `s`: `h` rows of `w` glyphs, row by
    /// row from the top, each ended by a newline — a space for an empty
    /// cell, `o` for an enemy, `^` for the player — and, while the game is
    /// over, the game-over and restart-hint trailer lines.
    pub fn draw(&mut self, world: &World, s: &mut String)
        requires
            world.wf(),
        ensures
            final(s)@ == old(s)@ + spec_render(*world),
    {
        let ghost s0 = old(s)@;
        let mut y: i8 = 0;
        while y < world.h
            invariant
                world.wf(),
                0 <= y <= world.h,
                s@ == s0 + spec_rows(*world, y as int),
            decreases world.h - y,
        {
            let mut x: i8 = 0;
            while x < world.w
                invariant
                    world.wf(),
                    0 <= y < world.h,
                    0 <= x <= world.w,
                    s@ == s0 + spec_rows(*world, y as int) + spec_row(*world, y, x as int),
                decreases world.w - x,
            {
                let occ = occupant_at(world, Vec2i { x, y });
                match occ {
                    Some(ObjectType::Enemy) => {
                        proof {
                            reveal_strlit("o");
                        }
                        s.append("o");
                    },
                    Some(ObjectType::Player) => {
                        proof {
                            reveal_strlit("^");
                        }
                        s.append("^");
                    },
                    None => {
                        proof {
                            reveal_strlit(" ");
                        }
                        s.append(" ");
                    },
                }
                proof {
                    assert(s@ =~= s0 + spec_rows(*world, y as int) + spec_row(
                        *world,
                        y,
                        x as int + 1,
                    ));
                }
                x += 1;
            }
            proof {
                reveal_strlit("\n");
            }
            s.append("\n");
            proof {
                assert(s@ =~= s0 + spec_rows(*world, y as int + 1));
            }
            y += 1;
        }
        if world.player.is_none() {
            proof {
                reveal_strlit("GAMEOVER\n");
                reveal_strlit("PressESC\n");
            }
            s.append("GAMEOVER\n");
            s.append("PressESC\n");
        }
        proof {
            reveal_strlit("GAMEOVER\n");
            reveal_strlit("PressESC\n");
            assert(s@ =~= s0 + spec_render(*world));
        }
    }
}

} // verus!
