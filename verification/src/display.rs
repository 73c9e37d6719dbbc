//! What the screens show that is computed rather than laid out: the requests
//! that switch screens, the round tracker and the row of lives.
use vstd::prelude::*;
use crate::grid::push_char;

verus! {

/// A request to switch screens.
#[derive(Debug, Clone, Copy, PartialEq, Eq, Structural)]
pub enum DisplayMsg {
    Start,
    MainMenu,
}

/// The number of cells the round tracker shows.
pub const TRACKER_WIDTH: usize = 30;
/// The length of the whole track.
pub const TRACK_LENGTH: usize = 200;
/// The cell of the track that holds the boss.
pub const BOSS_CELL: usize = 79;

/// Cell `k` of the track: `----S` over and over, with the boss `B` at cell 79.
pub open spec fn track_cell(k: int) -> char {
    if k == BOSS_CELL {
        'B'
    } else if k % 5 == 4 {
        'S'
    } else {
        '-'
    }
}

/// The round tracker for round `round`: the thirty cells of the track from
/// cell `round - 1`, and below them a caret that marks the first.
pub open spec fn tracker_text(round: i32) -> Seq<char> {
    Seq::new(TRACKER_WIDTH as nat, |j: int| track_cell(round - 1 + j)) + seq!['\n', '^']
}

/// `lives` copies of `(=)`.
pub open spec fn lives_text(lives: nat) -> Seq<char>
    decreases lives,
{
    if lives == 0 {
        Seq::empty()
    } else {
        lives_text((lives - 1) as nat) + seq!['(', '=', ')']
    }
}

/// The row of lives holds three characters a life.
pub proof fn law_lives_text_length(lives: nat)
    ensures
        lives_text(lives).len() == 3 * lives,
    decreases lives,
{
    if lives > 0 {
        law_lives_text_length((lives - 1) as nat);
    }
}

/// The tracker shows thirty cells of the track from cell `round - 1`, and
/// below them a caret under the first; cells five apart repeat, but for the
/// boss.
pub proof fn law_tracker_shape(round: i32, j: int)
    requires
        0 <= j < TRACKER_WIDTH,
    ensures
        tracker_text(round).len() == TRACKER_WIDTH + 2,
        tracker_text(round)[j] == track_cell(round - 1 + j),
        tracker_text(round)[TRACKER_WIDTH as int] == '\n',
        tracker_text(round)[TRACKER_WIDTH + 1] == '^',
        round - 1 + j == BOSS_CELL ==> tracker_text(round)[j] == 'B',
{
}

/// The round tracker for round `round`; the track ends after cell 199, so
/// the rounds run from 1 to 171.
pub fn round_tracker(round: i32) -> (r: String)
    requires
        1 <= round,
        round - 1 + TRACKER_WIDTH <= TRACK_LENGTH,
    ensures
        r@ == tracker_text(round),
{
    let start = (round - 1) as usize;
    let mut text = String::new();
    let mut j: usize = 0;
    while j < TRACKER_WIDTH
        invariant
            start == round - 1,
            j <= TRACKER_WIDTH,
            text@ == Seq::new(j as nat, |i: int| track_cell(round - 1 + i)),
        decreases TRACKER_WIDTH - j,
    {
        let k = start + j;
        let c = if k == BOSS_CELL {
            'B'
        } else if k % 5 == 4 {
            'S'
        } else {
            '-'
        };
        push_char(&mut text, c);
        assert(text@ =~= Seq::new((j + 1) as nat, |i: int| track_cell(round - 1 + i)));
        j = j + 1;
    }
    push_char(&mut text, '\n');
    push_char(&mut text, '^');
    assert(text@ =~= tracker_text(round));
    text
}

/// The row of lives: `(=)` for each life.
pub fn lives_banner(lives: i32) -> (r: String)
    requires
        lives >= 0,
    ensures
        r@ == lives_text(lives as nat),
{
    let mut text = String::new();
    let mut k: i32 = 0;
    while k < lives
        invariant
            0 <= k <= lives,
            text@ == lives_text(k as nat),
        decreases lives - k,
    {
        push_char(&mut text, '(');
        push_char(&mut text, '=');
        push_char(&mut text, ')');
        assert(text@ =~= lives_text((k + 1) as nat));
        k = k + 1;
    }
    text
}

} // verus!
