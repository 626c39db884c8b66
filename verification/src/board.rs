//! The board itself: its dimensions, its bins and its generator.

use crate::canvas::PixelBuffer;
use crate::chance::flip;
use crate::render::{is_rendering, render};
use crate::tally::{
    lemma_entry_within_total, lemma_total_all_zero, lemma_total_update, total, zeros,
};
use crate::walk::{deflect, lemma_rights_bounded, lemma_rights_push, rights};
use rand::rngs::StdRng;
use vstd::prelude::*;

verus! {

/// A Galton board with one row of pegs per pixel row of its picture.
pub struct GaltonBoard {
    board_width: u32,
    board_height: u32,
    num_balls: u32,
    num_levels: u32,
    column_counts: Vec<u32>,
    rng: StdRng,
}

impl GaltonBoard {
    /// Width of the picture in pixels.
    pub closed spec fn spec_board_width(&self) -> u32 {
        self.board_width
    }

    /// Height of the picture in pixels.
    pub closed spec fn spec_board_height(&self) -> u32 {
        self.board_height
    }

    /// Number of balls that one simulation drops.
    pub closed spec fn spec_num_balls(&self) -> u32 {
        self.num_balls
    }

    /// Number of rows of pegs that a ball passes.
    pub closed spec fn spec_num_levels(&self) -> u32 {
        self.num_levels
    }

    /// The frequency table: how many balls have landed in each bin.
    pub closed spec fn counts(&self) -> Seq<u32> {
        self.column_counts@
    }

    /// A board is well formed when it has as many rows of pegs as its picture
    /// has pixel rows, and one bin more than it has rows of pegs.
    pub open spec fn wf(&self) -> bool {
        &&& self.num_levels() == self.board_height()
        &&& self.counts().len() == self.num_levels() + 1
    }

    /// Whether two boards have the same dimensions and ball count.
    pub open spec fn same_setup(&self, other: GaltonBoard) -> bool {
        &&& self.board_width() == other.board_width()
        &&& self.board_height() == other.board_height()
        &&& self.num_balls() == other.num_balls()
        &&& self.num_levels() == other.num_levels()
    }

    /// A board with empty bins, `board_height` rows of pegs and one bin more
    /// than that. The generator is handed in, so that a caller decides how it
    /// is seeded. A board may be degenerate: without width it has a picture
    /// without columns, without height it has a single bin.
    pub fn new(board_width: u32, board_height: u32, num_balls: u32, rng: StdRng) -> (board:
        GaltonBoard)
        requires
            board_height < u32::MAX,
        ensures
            board.wf(),
            board.board_width() == board_width,
            board.board_height() == board_height,
            board.num_balls() == num_balls,
            board.num_levels() == board_height,
            board.counts() == zeros((board_height + 1) as nat),
    {
        let num_levels: u32 = board_height;
        let column_counts: Vec<u32> = vec![0u32; (num_levels + 1) as usize];
        assert(column_counts@ =~= zeros((board_height + 1) as nat));
        GaltonBoard { board_width, board_height, num_balls, num_levels, column_counts, rng }
    }

    /// Width of the picture in pixels.
    #[verifier::when_used_as_spec(spec_board_width)]
    pub fn board_width(&self) -> (width: u32)
        ensures
            width == self.board_width(),
    {
        self.board_width
    }

    /// Height of the picture in pixels.
    #[verifier::when_used_as_spec(spec_board_height)]
    pub fn board_height(&self) -> (height: u32)
        ensures
            height == self.board_height(),
    {
        self.board_height
    }

    /// Number of balls that one simulation drops.
    #[verifier::when_used_as_spec(spec_num_balls)]
    pub fn num_balls(&self) -> (balls: u32)
        ensures
            balls == self.num_balls(),
    {
        self.num_balls
    }

    /// Number of rows of pegs that a ball passes.
    #[verifier::when_used_as_spec(spec_num_levels)]
    pub fn num_levels(&self) -> (levels: u32)
        ensures
            levels == self.num_levels(),
    {
        self.num_levels
    }

    /// The frequency table, one counter per bin.
    pub fn column_counts(&self) -> (table: &Vec<u32>)
        ensures
            table@ == self.counts(),
    {
        &self.column_counts
    }

    /// Adds one ball to `bin` and leaves every other bin as it was.
    pub fn record_ball(&mut self, bin: usize)
        requires
            old(self).wf(),
            bin <= old(self).num_levels(),
            old(self).counts()[bin as int] < u32::MAX,
        ensures
            final(self).wf(),
            final(self).same_setup(*old(self)),
            final(self).counts() == old(self).counts().update(
                bin as int,
                (old(self).counts()[bin as int] + 1) as u32,
            ),
    {
        let count: u32 = self.column_counts[bin];
        self.column_counts.set(bin, count + 1);
    }

    /// Walks one ball down the board, one coin flip per row of pegs, and
    /// returns the bin it lands in: the number of pegs that deflected it to
    /// the right. Whatever the flips, the bin is one of the board's bins. The
    /// table is left as it was.
    pub fn calculate_final_bin(&mut self) -> (bin: usize)
        requires
            old(self).wf(),
        ensures
            final(self).wf(),
            final(self).same_setup(*old(self)),
            final(self).counts() == old(self).counts(),
            bin <= old(self).num_levels(),
            exists|flips: Seq<bool>|
                flips.len() == old(self).num_levels() && bin == #[trigger] rights(flips),
    {
        let ghost mut flips: Seq<bool> = Seq::empty();
        let mut bin: usize = 0;
        let mut level: u32 = 0;
        while level < self.num_levels
            invariant
                self.wf(),
                self.same_setup(*old(self)),
                self.counts() == old(self).counts(),
                level <= self.num_levels,
                flips.len() == level,
                bin == rights(flips),
            decreases self.num_levels - level,
        {
            let right: bool = flip(&mut self.rng);
            proof {
                lemma_rights_bounded(flips);
                lemma_rights_push(flips, right);
                flips = flips.push(right);
            }
            bin = deflect(bin, right);
            level += 1;
        }
        proof {
            lemma_rights_bounded(flips);
        }
        bin
    }

    /// Drops `num_balls` balls one after another. Each ball adds one to the
    /// bin it lands in, so the table grows by `num_balls` in total and no
    /// counter goes down. No counter may be so full that `num_balls` more
    /// balls would overflow it.
    pub fn run_simulation(&mut self)
        requires
            old(self).wf(),
            forall|i: int|
                0 <= i < old(self).counts().len()
                    ==> old(self).counts()[i] + old(self).num_balls() <= u32::MAX,
        ensures
            final(self).wf(),
            final(self).same_setup(*old(self)),
            final(self).counts().len() == old(self).counts().len(),
            total(final(self).counts()) == total(old(self).counts()) + old(self).num_balls(),
            forall|i: int|
                0 <= i < old(self).counts().len()
                    ==> old(self).counts()[i] <= final(self).counts()[i],
    {
        let mut dropped: u32 = 0;
        while dropped < self.num_balls
            invariant
                self.wf(),
                self.same_setup(*old(self)),
                dropped <= self.num_balls,
                self.counts().len() == old(self).counts().len(),
                total(self.counts()) == total(old(self).counts()) + dropped,
                forall|i: int|
                    0 <= i < self.counts().len() ==> old(self).counts()[i] <= #[trigger] self.counts()[i],
                forall|i: int|
                    0 <= i < self.counts().len() ==> #[trigger] self.counts()[i] + (self.num_balls
                        - dropped) <= u32::MAX,
            decreases self.num_balls - dropped,
        {
            let final_bin: usize = self.calculate_final_bin();
            proof {
                lemma_total_update(
                    self.counts(),
                    final_bin as int,
                    (self.counts()[final_bin as int] + 1) as u32,
                );
            }
            self.record_ball(final_bin);
            dropped += 1;
        }
    }

    /// Runs one whole simulation on a board with empty bins: every ball that
    /// is dropped is counted in exactly one bin, so the table sums to
    /// `num_balls` and no bin holds more than that.
    pub fn simulate(board_width: u32, board_height: u32, num_balls: u32, rng: StdRng) -> (board:
        GaltonBoard)
        requires
            board_height < u32::MAX,
        ensures
            board.wf(),
            board.board_width() == board_width,
            board.board_height() == board_height,
            board.num_balls() == num_balls,
            board.num_levels() == board_height,
            board.counts().len() == board_height + 1,
            total(board.counts()) == num_balls,
            forall|bin: int| 0 <= bin <= board_height ==> board.counts()[bin] <= num_balls,
    {
        let mut board = GaltonBoard::new(board_width, board_height, num_balls, rng);
        proof {
            lemma_total_all_zero(board.counts());
        }
        board.run_simulation();
        assert forall|bin: int| 0 <= bin <= board_height implies board.counts()[bin]
            <= num_balls by {
            lemma_entry_within_total(board.counts(), bin);
        }
        board
    }

    /// Draws the frequency table as a bar chart of `board_width` by
    /// `board_height` pixels. The picture must be small enough for its
    /// samples to be addressable.
    pub fn generate_image(&self) -> (img: PixelBuffer)
        requires
            3 * self.board_width() <= usize::MAX,
            3 * self.board_width() * self.board_height() <= usize::MAX,
        ensures
            is_rendering(img, self.counts(), self.board_width(), self.board_height()),
    {
        render(self.column_counts.as_slice(), self.board_width, self.board_height)
    }
}

} // verus!
