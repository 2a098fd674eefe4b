//! The animation patterns and the order in which the buttons walk them.

use vstd::prelude::*;

verus! {

/// The LED animation programs that can run on the BIO co-processor.
///
/// Each one draws a fixed pattern on its own once it has been started.
#[derive(Debug, Clone, Copy, PartialEq, Eq, Structural)]
pub enum PatternKind {
    Police,
    Rainbow,
    Cylon,
    Breathing,
    BrRunner,
}

/// The ordered list that [`next`] and [`prev`] cycle through.
pub const PATTERN_ORDER: [PatternKind; 5] = [
    PatternKind::Police,
    PatternKind::Rainbow,
    PatternKind::Cylon,
    PatternKind::Breathing,
    PatternKind::BrRunner,
];

/// [`PATTERN_ORDER`] as a sequence.
pub open spec fn pattern_order() -> Seq<PatternKind> {
    seq![
        PatternKind::Police,
        PatternKind::Rainbow,
        PatternKind::Cylon,
        PatternKind::Breathing,
        PatternKind::BrRunner,
    ]
}

/// The place of `p` in the order.
pub open spec fn place_of(p: PatternKind) -> int {
    pattern_order().index_of(p)
}

/// The pattern `offset` places after `p` in the order, wrapping around at
/// either end.
pub open spec fn pattern_at_offset(p: PatternKind, offset: int) -> PatternKind {
    pattern_order()[(place_of(p) + offset) % 5]
}

/// The pattern after `p`, wrapping around.
pub open spec fn next_of(p: PatternKind) -> PatternKind {
    pattern_at_offset(p, 1)
}

/// The pattern before `p`, wrapping around.
pub open spec fn prev_of(p: PatternKind) -> PatternKind {
    pattern_at_offset(p, -1)
}

/// The number that stands for a pattern in a message.
pub open spec fn pattern_number(p: PatternKind) -> u32 {
    match p {
        PatternKind::Police => 0,
        PatternKind::Rainbow => 1,
        PatternKind::Cylon => 2,
        PatternKind::Breathing => 3,
        PatternKind::BrRunner => 4,
    }
}

/// The pattern that a number stands for: the one with that number.
pub open spec fn pattern_of_number(v: u32) -> Option<PatternKind> {
    if v == pattern_number(PatternKind::Police) {
        Some(PatternKind::Police)
    } else if v == pattern_number(PatternKind::Rainbow) {
        Some(PatternKind::Rainbow)
    } else if v == pattern_number(PatternKind::Cylon) {
        Some(PatternKind::Cylon)
    } else if v == pattern_number(PatternKind::Breathing) {
        Some(PatternKind::Breathing)
    } else if v == pattern_number(PatternKind::BrRunner) {
        Some(PatternKind::BrRunner)
    } else {
        None
    }
}

/// The order has five places, and every pattern stands at exactly one of them.
pub proof fn law_order_lists_each_pattern_once(p: PatternKind)
    ensures
        pattern_order().len() == 5,
        0 <= place_of(p) < 5,
        pattern_order()[place_of(p)] == p,
        forall|i: int| 0 <= i < 5 && pattern_order()[i] == p ==> i == place_of(p),
{
    let order = pattern_order();
    assert(order[0] == PatternKind::Police && order[1] == PatternKind::Rainbow && order[2]
        == PatternKind::Cylon && order[3] == PatternKind::Breathing && order[4]
        == PatternKind::BrRunner);
    assert(order.contains(p));
}

/// The patterns are numbered in the order in which they are walked.
pub proof fn law_numbers_follow_the_order(p: PatternKind)
    ensures
        pattern_number(p) == place_of(p),
{
    law_order_lists_each_pattern_once(p);
    assert(pattern_order()[pattern_number(p) as int] == p);
}

/// The pattern `offset` places further on stands `offset` places further on.
pub proof fn law_offset_moves_the_place(p: PatternKind, offset: int)
    ensures
        place_of(pattern_at_offset(p, offset)) == (place_of(p) + offset) % 5,
{
    law_order_lists_each_pattern_once(p);
    law_order_lists_each_pattern_once(pattern_at_offset(p, offset));
}

/// Offsets add up, and no offset is no change.
pub proof fn law_offsets_add_up(p: PatternKind, a: int, b: int)
    ensures
        pattern_at_offset(pattern_at_offset(p, a), b) == pattern_at_offset(p, a + b),
        pattern_at_offset(p, 0) == p,
{
    law_order_lists_each_pattern_once(p);
    law_offset_moves_the_place(p, a);
}

/// `next` and `prev` undo each other.
pub proof fn law_next_and_prev_are_inverse(p: PatternKind)
    ensures
        prev_of(next_of(p)) == p,
        next_of(prev_of(p)) == p,
{
    law_order_lists_each_pattern_once(p);
    law_offset_moves_the_place(p, 1);
    law_offset_moves_the_place(p, -1);
}

/// The patterns next to a pattern are other patterns.
pub proof fn law_neighbours_differ(p: PatternKind)
    ensures
        next_of(p) != p,
        prev_of(p) != p,
{
    law_offset_moves_the_place(p, 1);
    law_offset_moves_the_place(p, -1);
}

/// `n` applications of `next`.
pub open spec fn next_times(p: PatternKind, n: nat) -> PatternKind
    decreases n,
{
    if n == 0 {
        p
    } else {
        next_of(next_times(p, (n - 1) as nat))
    }
}

/// `n` steps forward land `n` places further on in the order.
pub proof fn law_next_times_is_an_offset(p: PatternKind, n: nat)
    ensures
        next_times(p, n) == pattern_at_offset(p, n as int),
    decreases n,
{
    law_order_lists_each_pattern_once(p);
    if n > 0 {
        law_next_times_is_an_offset(p, (n - 1) as nat);
        law_offset_moves_the_place(p, n - 1);
    }
}

/// The pattern as far after `p` as `q` is.
proof fn lemma_offset_to(p: PatternKind, q: PatternKind, n: int)
    requires
        n == (place_of(q) - place_of(p)) % 5,
    ensures
        0 <= n < 5,
        pattern_at_offset(p, n) == q,
{
    law_order_lists_each_pattern_once(p);
    law_order_lists_each_pattern_once(q);
    assert((place_of(p) + n) % 5 == place_of(q));
}

/// From any pattern every pattern is reached by going forward less than once
/// round the order, and once round the order leads back.
pub proof fn law_next_reaches_every_pattern(p: PatternKind, q: PatternKind)
    ensures
        exists|n: nat| n < pattern_order().len() && #[trigger] next_times(p, n) == q,
        next_times(p, pattern_order().len()) == p,
{
    let n = (place_of(q) - place_of(p)) % 5;
    lemma_offset_to(p, q, n);
    law_next_times_is_an_offset(p, n as nat);
    assert(next_times(p, n as nat) == q);
    assert(next_times(p, 5) == p) by {
        law_next_times_is_an_offset(p, 5);
        law_order_lists_each_pattern_once(p);
    }
}

/// Numbers and patterns stand for each other one to one.
pub proof fn law_pattern_numbers_round_trip(p: PatternKind, v: u32)
    ensures
        pattern_of_number(pattern_number(p)) == Some(p),
        pattern_of_number(v) == Some(p) <==> v == pattern_number(p),
{
}

/// Where `p` stands in [`PATTERN_ORDER`].
fn position(p: PatternKind) -> (idx: usize)
    ensures
        idx == place_of(p) < 5,
        pattern_order()[place_of(p)] == p,
        PATTERN_ORDER@ == pattern_order(),
{
    assert(PATTERN_ORDER@ =~= pattern_order());
    proof {
        law_order_lists_each_pattern_once(p);
    }
    let mut idx: usize = 0;
    while PATTERN_ORDER[idx] != p
        invariant
            idx <= place_of(p) < 5,
            PATTERN_ORDER@ == pattern_order(),
            pattern_order()[place_of(p)] == p,
            forall|i: int| 0 <= i < 5 && pattern_order()[i] == p ==> i == place_of(p),
        decreases 5 - idx,
    {
        idx = idx + 1;
    }
    idx
}

/// The next pattern after `p` in [`PATTERN_ORDER`], wrapping around.
pub fn next(p: PatternKind) -> (r: PatternKind)
    ensures
        r == next_of(p),
{
    let idx: usize = position(p);
    PATTERN_ORDER[(idx + 1) % PATTERN_ORDER.len()]
}

/// The previous pattern before `p` in [`PATTERN_ORDER`], wrapping around.
pub fn prev(p: PatternKind) -> (r: PatternKind)
    ensures
        r == prev_of(p),
{
    let idx: usize = position(p);
    PATTERN_ORDER[(idx + PATTERN_ORDER.len() - 1) % PATTERN_ORDER.len()]
}

impl PatternKind {
    /// The pattern that the number `v` stands for, if any.
    pub fn from_u32(v: u32) -> (r: Option<Self>)
        ensures
            r == pattern_of_number(v),
    {
        match v {
            0 => Some(PatternKind::Police),
            1 => Some(PatternKind::Rainbow),
            2 => Some(PatternKind::Cylon),
            3 => Some(PatternKind::Breathing),
            4 => Some(PatternKind::BrRunner),
            _ => None,
        }
    }

    /// The number that stands for this pattern.
    pub fn as_u32(self) -> (r: u32)
        ensures
            r == pattern_number(self),
    {
        match self {
            PatternKind::Police => 0,
            PatternKind::Rainbow => 1,
            PatternKind::Cylon => 2,
            PatternKind::Breathing => 3,
            PatternKind::BrRunner => 4,
        }
    }
}

/// One program for each pattern.
pub struct Programs<T> {
    pub police: T,
    pub rainbow: T,
    pub cylon: T,
    pub breathing: T,
    pub br_runner: T,
}

/// The program of `p`.
pub open spec fn program_of<T>(programs: Programs<T>, p: PatternKind) -> T {
    match p {
        PatternKind::Police => programs.police,
        PatternKind::Rainbow => programs.rainbow,
        PatternKind::Cylon => programs.cylon,
        PatternKind::Breathing => programs.breathing,
        PatternKind::BrRunner => programs.br_runner,
    }
}

impl<T> Programs<T> {
    /// The BIO machine code of the pattern `p`.
    pub fn bio_code(&self, p: PatternKind) -> (code: &T)
        ensures
            *code == program_of(*self, p),
    {
        match p {
            PatternKind::Police => &self.police,
            PatternKind::Rainbow => &self.rainbow,
            PatternKind::Cylon => &self.cylon,
            PatternKind::Breathing => &self.breathing,
            PatternKind::BrRunner => &self.br_runner,
        }
    }
}

/// There are five patterns, numbered from 0 to 4, and no other number stands
/// for one.
pub proof fn law_numbers_below_five_stand_for_patterns(p: PatternKind, v: u32)
    ensures
        pattern_number(p) < 5,
        pattern_of_number(v) is Some <==> v < 5,
        v < 5 ==> pattern_number(pattern_of_number(v)->0) == v,
{
}

/// The next pattern has the next number and the previous one the number
/// before; after the last number comes the first.
pub proof fn law_neighbours_have_neighbouring_numbers(p: PatternKind)
    ensures
        pattern_number(next_of(p)) == (if pattern_number(p) == 4 {
            0
        } else {
            pattern_number(p) + 1
        }),
        pattern_number(prev_of(p)) == (if pattern_number(p) == 0 {
            4
        } else {
            pattern_number(p) - 1
        }),
{
    law_numbers_follow_the_order(p);
    law_numbers_follow_the_order(next_of(p));
    law_numbers_follow_the_order(prev_of(p));
    law_offset_moves_the_place(p, 1);
    law_offset_moves_the_place(p, -1);
}

/// Each pattern runs its own program, whatever the programs are.
pub proof fn law_patterns_run_their_own_programs<T>(programs: Programs<T>)
    ensures
        program_of(programs, PatternKind::Police) == programs.police,
        program_of(programs, PatternKind::Rainbow) == programs.rainbow,
        program_of(programs, PatternKind::Cylon) == programs.cylon,
        program_of(programs, PatternKind::Breathing) == programs.breathing,
        program_of(programs, PatternKind::BrRunner) == programs.br_runner,
{
}

} // verus!
