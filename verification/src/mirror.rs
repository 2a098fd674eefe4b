//! Asking the log server to mirror its output to the USB serial port.

use vstd::prelude::*;

verus! {

/// The name that the log server is known by.
pub const LOG_SERVER_NAME: &'static str = "xous-log-server ";

/// The number of the request, a blocking scalar message without arguments.
pub const MIRROR_OPCODE: usize = 4;

/// How often the request is made.
pub const MIRROR_ATTEMPTS: u32 = 5;

/// The pause after a request that was not granted.
pub const MIRROR_RETRY_MS: u64 = 500;

/// What came back from the request.
#[derive(Debug, Clone, Copy, PartialEq, Eq, Structural)]
pub enum HookReply {
    /// One scalar.
    Scalar1(usize),
    /// Something else.
    Other,
    /// The message could not be sent.
    Failed,
}

/// Something that happened.
#[derive(Debug, Clone, Copy, PartialEq, Eq, Structural)]
pub enum HookEvent {
    /// There is a connection to the log server.
    Connected,
    /// There is none.
    ConnectFailed,
    /// The request was made, with this reply.
    Replied(HookReply),
    /// The pause is over.
    Waited,
}

/// What is to be done next.
#[derive(Debug, Clone, Copy, PartialEq, Eq)]
pub enum HookAction {
    /// Connect to the server that is known by this name.
    Connect(&'static str),
    /// Make the request with this number.
    Send(usize),
    /// Wait this many milliseconds.
    Sleep(u64),
    /// Nothing: the output is mirrored, or it is not.
    Stop(bool),
}

/// Where the attempt stands. Requests are counted from zero.
#[derive(Debug, Clone, Copy, PartialEq, Eq, Structural)]
pub enum HookState {
    Connecting,
    Sending(u32),
    Waiting(u32),
    Hooked(u32),
    Unreachable,
    GaveUp,
}

/// The log server grants the request by the scalar one.
pub open spec fn granted(reply: HookReply) -> bool {
    reply == HookReply::Scalar1(1)
}

/// What an event leads to. An event that does not belong to the state changes
/// nothing.
pub open spec fn hook_after(state: HookState, event: HookEvent) -> HookState {
    match (state, event) {
        (HookState::Connecting, HookEvent::Connected) => HookState::Sending(0),
        (HookState::Connecting, HookEvent::ConnectFailed) => HookState::Unreachable,
        (HookState::Sending(attempt), HookEvent::Replied(reply)) => if granted(reply) {
            HookState::Hooked(attempt)
        } else {
            HookState::Waiting(attempt)
        },
        (HookState::Waiting(attempt), HookEvent::Waited) => if attempt + 1 < 5 {
            HookState::Sending((attempt + 1) as u32)
        } else {
            HookState::GaveUp
        },
        _ => state,
    }
}

/// What a state asks for.
pub open spec fn hook_action(state: HookState) -> HookAction {
    match state {
        HookState::Connecting => HookAction::Connect("xous-log-server "),
        HookState::Sending(_) => HookAction::Send(4),
        HookState::Waiting(_) => HookAction::Sleep(500),
        HookState::Hooked(_) => HookAction::Stop(true),
        HookState::Unreachable => HookAction::Stop(false),
        HookState::GaveUp => HookAction::Stop(false),
    }
}

/// An attempt to have the log output mirrored.
pub struct MirrorHook {
    state: HookState,
}

impl View for MirrorHook {
    type V = HookState;

    closed spec fn view(&self) -> HookState {
        self.state
    }
}

impl MirrorHook {
    /// Nothing has been done yet.
    pub fn new() -> (h: Self)
        ensures
            h@ == HookState::Connecting,
    {
        MirrorHook { state: HookState::Connecting }
    }

    /// Where the attempt stands.
    pub fn state(&self) -> (s: HookState)
        ensures
            s == self@,
    {
        self.state
    }

    /// What is to be done next.
    pub fn action(&self) -> (a: HookAction)
        ensures
            a == hook_action(self@),
    {
        match self.state {
            HookState::Connecting => HookAction::Connect(LOG_SERVER_NAME),
            HookState::Sending(_) => HookAction::Send(MIRROR_OPCODE),
            HookState::Waiting(_) => HookAction::Sleep(MIRROR_RETRY_MS),
            HookState::Hooked(_) => HookAction::Stop(true),
            HookState::Unreachable => HookAction::Stop(false),
            HookState::GaveUp => HookAction::Stop(false),
        }
    }

    /// Takes what happened.
    pub fn advance(&mut self, event: HookEvent)
        ensures
            final(self)@ == hook_after(old(self)@, event),
    {
        self.state = match (self.state, event) {
            (HookState::Connecting, HookEvent::Connected) => HookState::Sending(0),
            (HookState::Connecting, HookEvent::ConnectFailed) => HookState::Unreachable,
            (HookState::Sending(attempt), HookEvent::Replied(reply)) => match reply {
                HookReply::Scalar1(1) => HookState::Hooked(attempt),
                _ => HookState::Waiting(attempt),
            },
            (HookState::Waiting(attempt), HookEvent::Waited) => if attempt < MIRROR_ATTEMPTS - 1 {
                HookState::Sending(attempt + 1)
            } else {
                HookState::GaveUp
            },
            (state, _) => state,
        };
    }
}

/// Where the attempt stands when the requests from `state` on are answered by
/// `replies`, with a pause after each one that is not granted.
pub open spec fn hook_after_replies(state: HookState, replies: Seq<HookReply>) -> HookState
    decreases replies.len(),
{
    if replies.len() == 0 {
        state
    } else {
        hook_after_replies(
            hook_after(
                hook_after(state, HookEvent::Replied(replies[0])),
                HookEvent::Waited,
            ),
            replies.drop_first(),
        )
    }
}

proof fn lemma_hook_rests(state: HookState, replies: Seq<HookReply>)
    requires
        state is Hooked || state == HookState::GaveUp,
    ensures
        hook_after_replies(state, replies) == state,
    decreases replies.len(),
{
    if replies.len() > 0 {
        lemma_hook_rests(state, replies.drop_first());
    }
}

proof fn lemma_refused_requests(replies: Seq<HookReply>, from: u32, n: int)
    requires
        0 <= n <= replies.len(),
        from + n < 5,
        forall|i: int| 0 <= i < n ==> !granted(#[trigger] replies[i]),
    ensures
        hook_after_replies(HookState::Sending(from), replies) == hook_after_replies(
            HookState::Sending((from + n) as u32),
            replies.skip(n),
        ),
    decreases n,
{
    if n > 0 {
        let rest = replies.drop_first();
        assert forall|i: int| 0 <= i < n - 1 implies !granted(#[trigger] rest[i]) by {
            assert(!granted(replies[i + 1]));
        }
        assert(!granted(replies[0]));
        lemma_refused_requests(rest, (from + 1) as u32, n - 1);
        assert(rest.skip(n - 1) =~= replies.skip(n));
    } else {
        assert(replies.skip(0) =~= replies);
    }
}

/// The request is made until it is granted, five times at most: the output is
/// mirrored from the first of the five replies that grants it, and if none of
/// the five does the attempt is given up.
pub proof fn law_mirror_is_asked_for_five_times_at_most(replies: Seq<HookReply>, n: int)
    requires
        0 <= n <= replies.len(),
        forall|i: int| 0 <= i < n ==> !granted(#[trigger] replies[i]),
    ensures
        n >= 5 ==> hook_after_replies(HookState::Sending(0), replies) == HookState::GaveUp,
        n < 5 && n < replies.len() && granted(replies[n]) ==> hook_after_replies(
            HookState::Sending(0),
            replies,
        ) == HookState::Hooked(n as u32),
        n < 5 && n == replies.len() ==> hook_after_replies(HookState::Sending(0), replies)
            == HookState::Sending(n as u32),
{
    if n >= 5 {
        lemma_refused_requests(replies, 0, 4);
        let rest = replies.skip(4);
        assert(!granted(replies[4]));
        assert(rest[0] == replies[4]);
        lemma_hook_rests(HookState::GaveUp, rest.drop_first());
    } else {
        lemma_refused_requests(replies, 0, n);
        let rest = replies.skip(n);
        if n < replies.len() && granted(replies[n]) {
            assert(rest[0] == replies[n]);
            lemma_hook_rests(HookState::Hooked(n as u32), rest.drop_first());
        }
    }
}

/// A reply grants the request exactly if it is the one scalar 1; every other
/// reply, whatever it holds, leads to a pause.
pub proof fn law_only_the_scalar_one_grants(attempt: u32, reply: HookReply)
    ensures
        ({
            let after = hook_after(HookState::Sending(attempt), HookEvent::Replied(reply));
            match reply {
                HookReply::Scalar1(v) if v == 1 => after == HookState::Hooked(attempt),
                _ => after == HookState::Waiting(attempt),
            }
        }),
{
}

/// After the pause of one of the first four requests comes the next request,
/// and after that of the fifth the attempt is given up.
pub proof fn law_pause_leads_to_the_next_request(attempt: u32)
    ensures
        attempt < 4 ==> hook_after(HookState::Waiting(attempt), HookEvent::Waited)
            == HookState::Sending((attempt + 1) as u32),
        attempt >= 4 ==> hook_after(HookState::Waiting(attempt), HookEvent::Waited)
            == HookState::GaveUp,
        hook_after(HookState::Connecting, HookEvent::Connected) == HookState::Sending(0),
        hook_after(HookState::Connecting, HookEvent::ConnectFailed) == HookState::Unreachable,
{
}

/// What happens moves an attempt only if it answers what the attempt asked
/// for, and an attempt that has stopped is moved by nothing.
pub proof fn law_only_an_answer_moves_the_attempt(state: HookState, event: HookEvent)
    ensures
        hook_action(state) is Stop ==> hook_after(state, event) == state,
        hook_after(state, event) != state ==> match event {
            HookEvent::Connected => hook_action(state) is Connect,
            HookEvent::ConnectFailed => hook_action(state) is Connect,
            HookEvent::Replied(_) => hook_action(state) is Send,
            HookEvent::Waited => hook_action(state) is Sleep,
        },
{
}

/// Every request is the one with the number 4, every pause is half a second,
/// the connection is to the log server, and an attempt that has stopped says
/// whether it succeeded.
pub proof fn law_actions_of_an_attempt(state: HookState)
    ensures
        match hook_action(state) {
            HookAction::Connect(name) => state == HookState::Connecting && name@
                == "xous-log-server "@,
            HookAction::Send(opcode) => state is Sending && opcode == 4,
            HookAction::Sleep(ms) => state is Waiting && ms == 500,
            HookAction::Stop(hooked) => (hooked <==> state is Hooked) && !(state is Connecting
                || state is Sending || state is Waiting),
        },
{
}

} // verus!
