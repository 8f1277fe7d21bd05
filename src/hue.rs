use vstd::prelude::*;
use vstd::arithmetic::div_mod::{lemma_add_mod_noop, lemma_mod_self_0};

verus! {

/// Hue angles are held in tenths of a degree.
pub const FULL_TURN: u16 = 3600;

/// The hue advances by 0.2 degrees from one pixel to the next.
pub const HUE_STEP: u16 = 2;

/// The display is a square grid of this many cells on a side.
pub const GRID_SIDE: u8 = 32;

/// The hue after one step from `h`, wrapping at a full turn.
pub open spec fn next_hue(h: int) -> int {
    (h + HUE_STEP) % (FULL_TURN as int)
}

/// The hue after `n` steps from `h`.
pub open spec fn hue_after(h: int, n: nat) -> int
    decreases n,
{
    if n == 0 {
        h
    } else {
        next_hue(hue_after(h, (n - 1) as nat))
    }
}

proof fn lemma_hue_after_closed(h: int, n: nat)
    requires
        0 <= h < FULL_TURN,
    ensures
        hue_after(h, n) == (h + HUE_STEP * n) % (FULL_TURN as int),
    decreases n,
{
    if n == 0 {
        assert(h % 3600 == h);
    } else {
        lemma_hue_after_closed(h, (n - 1) as nat);
        let a = h + 2 * (n - 1);
        lemma_add_mod_noop(a, 2, 3600);
        assert(2int % 3600 == 2);
        assert(a + 2 == h + 2 * n);
    }
}

/// Sweeping the hue 1800 steps of 0.2 degrees is one full turn: the hue is back
/// where it started.
pub proof fn lemma_full_turn(h: int)
    requires
        0 <= h < FULL_TURN,
    ensures
        hue_after(h, 1800) == h,
{
    lemma_hue_after_closed(h, 1800);
    lemma_add_mod_noop(h, 3600, 3600);
    lemma_mod_self_0(3600);
    assert(h % 3600 == h);
}

/// One cell of a frame of the sweep and the hue to paint it, in tenths of a degree.
#[derive(Clone, Copy, Debug, PartialEq, Eq, Structural)]
pub struct HuePixel {
    pub x: u8,
    pub y: u8,
    pub hue: u16,
}

/// The running state of the color-cycle demo: the hue of the next pixel.
#[derive(Clone, Copy, Debug, PartialEq, Eq, Structural)]
pub struct HueSweep {
    pub hue: u16,
}

impl HueSweep {
    pub open spec fn wf(&self) -> bool {
        self.hue < FULL_TURN
    }

    /// A sweep that starts at 180 degrees.
    pub fn new() -> (r: HueSweep)
        ensures
            r.wf(),
            r.hue == 1800,
    {
        HueSweep { hue: 1800 }
    }

    /// The hue for the next pixel; the sweep then moves on by one step.
    pub fn step(&mut self) -> (h: u16)
        requires
            old(self).wf(),
        ensures
            h == old(self).hue,
            final(self).wf(),
            final(self).hue == next_hue(old(self).hue as int),
    {
        let h = self.hue;
        self.hue = (h + HUE_STEP) % FULL_TURN;
        h
    }

    /// The next frame: every cell of the grid row by row, each with the hue one
    /// step on from the cell before.
    pub fn frame(&mut self) -> (r: Vec<HuePixel>)
        requires
            old(self).wf(),
        ensures
            final(self).wf(),
            final(self).hue == hue_after(old(self).hue as int, 1024),
            r@.len() == 1024,
            forall|k: int|
                0 <= k < 1024 ==> #[trigger] r@[k] == (HuePixel {
                    x: (k % 32) as u8,
                    y: (k / 32) as u8,
                    hue: hue_after(old(self).hue as int, k as nat) as u16,
                }),
    {
        let ghost h0 = self.hue as int;
        let mut r: Vec<HuePixel> = Vec::new();
        let mut y: u8 = 0;
        while y < GRID_SIDE
            invariant
                y <= 32,
                self.wf(),
                r@.len() == 32 * y,
                self.hue == hue_after(h0, (32 * y) as nat),
                forall|k: int|
                    0 <= k < r@.len() ==> #[trigger] r@[k] == (HuePixel {
                        x: (k % 32) as u8,
                        y: (k / 32) as u8,
                        hue: hue_after(h0, k as nat) as u16,
                    }),
            decreases 32 - y,
        {
            let mut x: u8 = 0;
            while x < GRID_SIDE
                invariant
                    x <= 32,
                    y < 32,
                    self.wf(),
                    r@.len() == 32 * y + x,
                    self.hue == hue_after(h0, (32 * y + x) as nat),
                    forall|k: int|
                        0 <= k < r@.len() ==> #[trigger] r@[k] == (HuePixel {
                            x: (k % 32) as u8,
                            y: (k / 32) as u8,
                            hue: hue_after(h0, k as nat) as u16,
                        }),
                decreases 32 - x,
            {
                let ghost k = 32 * y + x;
                let hue = self.step();
                assert(k % 32 == x && k / 32 == y) by (nonlinear_arith)
                    requires
                        k == 32 * y + x,
                        0 <= x < 32,
                ;
                r.push(HuePixel { x, y, hue });
                x += 1;
            }
            y += 1;
        }
        r
    }
}

} // verus!
