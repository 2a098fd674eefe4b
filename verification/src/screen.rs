//! What is put on the screen: how a frame is drawn, and the animation.

use vstd::prelude::*;

verus! {

/// How long a frame of the animation stays on the screen.
pub const NYAN_FRAME_MS: u64 = 100;

/// How often the animation player looks whether it is to play.
pub const NYAN_IDLE_MS: u64 = 150;

/// A request to the graphics server.
#[derive(Debug, Clone, Copy, PartialEq, Eq, Structural)]
pub enum GfxOp {
    /// Switch the mode on or off in which the server drops what it is asked.
    DryRun(bool),
    /// Blank the frame buffer.
    Clear,
    /// Copy the frame into the frame buffer.
    Bitmap,
    /// Bring the frame buffer to the screen.
    Flush,
    /// Ask for the size of the screen. The server answers only while it is up
    /// and takes requests.
    ScreenSize,
}

/// The requests that draw one frame. A dry run is ended first: during one the
/// server would take the frame but silently drop the flush.
pub open spec fn frame_sequence() -> Seq<GfxOp> {
    seq![GfxOp::DryRun(false), GfxOp::Clear, GfxOp::Bitmap, GfxOp::Flush]
}

/// The requests that draw one frame, each of which is made whatever became of
/// those before it.
pub fn draw_frame_ops() -> (ops: Vec<GfxOp>)
    ensures
        ops@ == frame_sequence(),
{
    let ops = vec![GfxOp::DryRun(false), GfxOp::Clear, GfxOp::Bitmap, GfxOp::Flush];
    assert(ops@ =~= frame_sequence());
    ops
}

/// The requests that draw the background: a probe that shows that the server
/// is there at all, and the frame.
pub open spec fn background_sequence() -> Seq<GfxOp> {
    seq![GfxOp::ScreenSize] + frame_sequence()
}

/// The requests that draw the background, each of which is made whatever
/// became of those before it.
pub fn draw_background_ops() -> (ops: Vec<GfxOp>)
    ensures
        ops@ == background_sequence(),
{
    let mut ops = vec![GfxOp::ScreenSize];
    let mut frame = draw_frame_ops();
    ops.append(&mut frame);
    assert(ops@ =~= background_sequence());
    ops
}

/// One turn of the animation player.
#[derive(Debug, Clone, Copy, PartialEq, Eq, Structural)]
pub struct NyanTurn {
    /// The frame to draw, if any.
    pub frame: Option<usize>,
    /// How long to sleep afterwards.
    pub sleep_ms: u64,
}

/// The animation player.
#[verifier::ext_equal]
pub struct NyanView {
    /// The frame that comes next.
    pub frame: nat,
    pub frame_count: nat,
}

impl NyanView {
    /// The next frame is one that there is.
    pub open spec fn wf(self) -> bool {
        self.frame < self.frame_count
    }

    /// The player after a turn: one frame on, wrapping around, or back at the
    /// first frame.
    pub open spec fn after_turn(self, active: bool) -> Self {
        NyanView {
            frame: if active {
                (self.frame + 1) % self.frame_count
            } else {
                0
            },
            ..self
        }
    }
}

/// The animation player.
pub struct NyanPlayer {
    frame: usize,
    frame_count: usize,
}

impl View for NyanPlayer {
    type V = NyanView;

    closed spec fn view(&self) -> NyanView {
        NyanView { frame: self.frame as nat, frame_count: self.frame_count as nat }
    }
}

impl NyanPlayer {
    #[verifier::type_invariant]
    spec fn inv(self) -> bool {
        self.frame < self.frame_count
    }

    /// A player of `frame_count` frames, at the first one.
    pub fn new(frame_count: usize) -> (p: Self)
        requires
            frame_count > 0,
        ensures
            p@ == (NyanView { frame: 0, frame_count: frame_count as nat }),
            p@.wf(),
    {
        NyanPlayer { frame: 0, frame_count }
    }

    /// One turn: the next frame while the animation is `active`, and back to
    /// the first frame while it is not.
    pub fn turn(&mut self, active: bool) -> (t: NyanTurn)
        ensures
            old(self)@.wf(),
            final(self)@ == old(self)@.after_turn(active),
            final(self)@.wf(),
            active ==> t.frame == Some(old(self)@.frame as usize) && t.sleep_ms == 100,
            !active ==> t.frame is None && t.sleep_ms == 150,
    {
        proof {
            use_type_invariant(&*self);
        }
        if active {
            let frame: usize = self.frame;
            let next: usize = if self.frame_count - frame > 1 {
                frame + 1
            } else {
                0
            };
            proof {
                let n = self.frame_count as int;
                if frame + 1 < n {
                    vstd::arithmetic::div_mod::lemma_small_mod((frame + 1) as nat, n as nat);
                } else {
                    vstd::arithmetic::div_mod::lemma_mod_self_0(n);
                }
            }
            self.frame = next;
            NyanTurn { frame: Some(frame), sleep_ms: NYAN_FRAME_MS }
        } else {
            self.frame = 0;
            NyanTurn { frame: None, sleep_ms: NYAN_IDLE_MS }
        }
    }
}

/// The player after `n` active turns.
pub open spec fn after_active_turns(p: NyanView, n: nat) -> NyanView
    decreases n,
{
    if n == 0 {
        p
    } else {
        after_active_turns(p, (n - 1) as nat).after_turn(true)
    }
}

/// While it is active the animation shows its frames in order, over and over,
/// and every time it starts it starts at the first frame.
pub proof fn law_animation_cycles_from_the_first_frame(p: NyanView, n: nat)
    requires
        p.wf(),
    ensures
        after_active_turns(p.after_turn(false), n) == (NyanView {
            frame: n % p.frame_count,
            frame_count: p.frame_count,
        }),
    decreases n,
{
    if n > 0 {
        law_animation_cycles_from_the_first_frame(p, (n - 1) as nat);
        vstd::arithmetic::div_mod::lemma_add_mod_noop_right(1, n - 1, p.frame_count as int);
    } else {
        vstd::arithmetic::div_mod::lemma_small_mod(0, p.frame_count);
    }
}

/// A turn moves an animation that plays to the frame after, or from the last
/// one to the first, and one that does not play to the first; the number of
/// frames stays.
pub proof fn law_turn_moves_by_one_frame(p: NyanView, active: bool)
    requires
        p.wf(),
    ensures
        p.after_turn(active).frame_count == p.frame_count,
        p.after_turn(active).wf(),
        active && p.frame + 1 < p.frame_count ==> p.after_turn(active).frame == p.frame + 1,
        active && p.frame + 1 == p.frame_count ==> p.after_turn(active).frame == 0,
        !active ==> p.after_turn(active).frame == 0,
{
    if p.frame + 1 < p.frame_count {
        vstd::arithmetic::div_mod::lemma_small_mod((p.frame + 1) as nat, p.frame_count);
    } else {
        vstd::arithmetic::div_mod::lemma_mod_self_0(p.frame_count as int);
    }
}

/// A frame is brought to the screen only after the dry run has been ended, the
/// buffer cleared and the frame copied into it, and the background is a frame
/// too.
pub proof fn law_flush_comes_last(i: int)
    requires
        0 <= i < frame_sequence().len(),
    ensures
        frame_sequence()[i] is Flush <==> i == frame_sequence().len() - 1,
        frame_sequence()[i] is DryRun ==> i == 0 && frame_sequence()[i] == GfxOp::DryRun(false),
        frame_sequence()[i] is Clear ==> exists|j: int|
            i < j < frame_sequence().len() && #[trigger] frame_sequence()[j] is Bitmap,
        background_sequence().drop_first() == frame_sequence(),
        background_sequence()[0] == GfxOp::ScreenSize,
{
    assert(frame_sequence()[2] is Bitmap);
    assert(background_sequence().drop_first() =~= frame_sequence());
}

} // verus!
