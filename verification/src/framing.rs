use vstd::prelude::*;

verus! {

/// What kind of packet arrives on a bracketed input stream.
#[derive(Clone, Copy, Debug, PartialEq, Eq, Structural)]
pub enum PacketKind {
    /// An open bracket: a nested sub-stream begins.
    Open,
    /// A close bracket: the current sub-stream ends.
    Close,
    /// The done signal.
    Done,
    /// A packet without data; it is skipped.
    Empty,
    /// An error packet; its error is passed on to the outputs.
    Failure,
    /// A packet with data.
    Data,
}

/// How an operation frames its output around the input's brackets.
#[derive(Clone, Copy, Debug, PartialEq, Eq, Structural)]
pub enum StreamMode {
    /// As the csv and hmac operations do: every bracket of the input is repeated on the
    /// outputs, and a close bracket or done signal at the top ends the stream.
    Nested,
    /// As the unzip operation does: the whole output is wrapped in one bracket pair, the
    /// first level of input brackets is not repeated, deeper ones are; each level has its own
    /// archive reader, started when the level begins and finished when it ends.
    Unzip,
}

/// One thing an operation does while it reads a bracketed stream.
#[derive(Clone, Copy, Debug, PartialEq, Eq, Structural)]
pub enum FrameAction {
    /// Send an open bracket on all outputs.
    BroadcastOpen,
    /// Send a close bracket on all outputs.
    BroadcastClose,
    /// Pass the error packet's error on to the outputs.
    PropagateError,
    /// Handle the data packet at the current level.
    Handle,
    /// Start a new level (a new archive reader).
    StartLevel,
    /// Finish the current level (finish its archive reader and drain what is left).
    FinishLevel,
}

/// The actions that start the stream.
pub open spec fn start_actions(mode: StreamMode) -> Seq<FrameAction> {
    match mode {
        StreamMode::Nested => Seq::empty(),
        StreamMode::Unzip => seq![FrameAction::BroadcastOpen, FrameAction::StartLevel],
    }
}

/// The actions that end the level at `depth` (top level 0) in the unzip mode.
pub open spec fn level_end_actions(depth: int) -> Seq<FrameAction> {
    if depth == 0 || depth > 1 {
        seq![FrameAction::FinishLevel, FrameAction::BroadcastClose]
    } else {
        seq![FrameAction::FinishLevel]
    }
}

/// The actions for one packet read at `depth`.
pub open spec fn step_actions(mode: StreamMode, depth: int, kind: PacketKind) -> Seq<FrameAction> {
    match kind {
        PacketKind::Open => match mode {
            StreamMode::Nested => seq![FrameAction::BroadcastOpen],
            StreamMode::Unzip => if depth > 0 {
                seq![FrameAction::BroadcastOpen, FrameAction::StartLevel]
            } else {
                seq![FrameAction::StartLevel]
            },
        },
        PacketKind::Close | PacketKind::Done => match mode {
            StreamMode::Nested => if depth == 0 {
                Seq::empty()
            } else {
                seq![FrameAction::BroadcastClose]
            },
            StreamMode::Unzip => level_end_actions(depth),
        },
        PacketKind::Empty => Seq::empty(),
        PacketKind::Failure => seq![FrameAction::PropagateError],
        PacketKind::Data => seq![FrameAction::Handle],
    }
}

/// The depth after one packet, or `None` where the stream processing stops.
pub open spec fn step_depth(depth: int, kind: PacketKind) -> Option<int> {
    match kind {
        PacketKind::Open => Some(depth + 1),
        PacketKind::Close | PacketKind::Done => if depth == 0 {
            None
        } else {
            Some(depth - 1)
        },
        _ => Some(depth),
    }
}

/// The actions when the input ends at `depth`: every open level is closed, innermost first.
pub open spec fn end_actions(mode: StreamMode, depth: int) -> Seq<FrameAction>
    decreases depth,
{
    if depth <= 0 {
        match mode {
            StreamMode::Nested => Seq::empty(),
            StreamMode::Unzip => level_end_actions(0),
        }
    } else {
        step_actions(mode, depth, PacketKind::Close) + end_actions(mode, depth - 1)
    }
}

/// The actions for the packets `kinds` read from `depth` on, until the processing stops or the
/// input ends.
pub open spec fn frame_from(mode: StreamMode, depth: int, kinds: Seq<PacketKind>) -> Seq<FrameAction>
    decreases kinds.len(),
{
    if kinds.len() == 0 {
        end_actions(mode, depth)
    } else {
        let a = step_actions(mode, depth, kinds[0]);
        match step_depth(depth, kinds[0]) {
            None => a,
            Some(d) => a + frame_from(mode, d, kinds.drop_first()),
        }
    }
}

/// All actions of an operation over a whole input stream.
pub open spec fn frame_spec(mode: StreamMode, kinds: Seq<PacketKind>) -> Seq<FrameAction> {
    start_actions(mode) + frame_from(mode, 0, kinds)
}

/// The actions and the next depth for one packet.
pub struct FrameStep {
    pub actions: Vec<FrameAction>,
    /// The depth after the packet; `None` once the processing stops.
    pub next: Option<usize>,
}

/// The actions that start the stream.
pub fn frame_start(mode: StreamMode) -> (out: Vec<FrameAction>)
    ensures
        out@ == start_actions(mode),
{
    let mut out: Vec<FrameAction> = Vec::new();
    match mode {
        StreamMode::Nested => {},
        StreamMode::Unzip => {
            out.push(FrameAction::BroadcastOpen);
            out.push(FrameAction::StartLevel);
        },
    }
    assert(out@ =~= start_actions(mode));
    out
}

/// What an operation does with one packet read at `depth`, and the depth it reads at next.
pub fn frame_step(mode: StreamMode, depth: usize, kind: PacketKind) -> (out: FrameStep)
    requires
        kind == PacketKind::Open ==> depth < usize::MAX,
    ensures
        out.actions@ == step_actions(mode, depth as int, kind),
        match out.next {
            Some(d) => step_depth(depth as int, kind) == Some(d as int),
            None => step_depth(depth as int, kind).is_none(),
        },
{
    let mut actions: Vec<FrameAction> = Vec::new();
    let next = match kind {
        PacketKind::Open => {
            match mode {
                StreamMode::Nested => actions.push(FrameAction::BroadcastOpen),
                StreamMode::Unzip => {
                    if depth > 0 {
                        actions.push(FrameAction::BroadcastOpen);
                    }
                    actions.push(FrameAction::StartLevel);
                },
            }
            Some(depth + 1)
        },
        PacketKind::Close | PacketKind::Done => {
            match mode {
                StreamMode::Nested => {
                    if depth > 0 {
                        actions.push(FrameAction::BroadcastClose);
                    }
                },
                StreamMode::Unzip => {
                    actions.push(FrameAction::FinishLevel);
                    if depth == 0 || depth > 1 {
                        actions.push(FrameAction::BroadcastClose);
                    }
                },
            }
            if depth == 0 {
                None
            } else {
                Some(depth - 1)
            }
        },
        PacketKind::Empty => Some(depth),
        PacketKind::Failure => {
            actions.push(FrameAction::PropagateError);
            Some(depth)
        },
        PacketKind::Data => {
            actions.push(FrameAction::Handle);
            Some(depth)
        },
    };
    assert(actions@ =~= step_actions(mode, depth as int, kind));
    FrameStep { actions, next }
}

/// What an operation does when its input ends at `depth`.
pub fn frame_end(mode: StreamMode, depth: usize) -> (out: Vec<FrameAction>)
    ensures
        out@ == end_actions(mode, depth as int),
{
    let mut out: Vec<FrameAction> = Vec::new();
    let mut d = depth;
    while d > 0
        invariant
            d <= depth,
            out@ + end_actions(mode, d as int) == end_actions(mode, depth as int),
        decreases d,
    {
        let s = frame_step(mode, d, PacketKind::Close);
        let ghost before = out@;
        let mut acts = s.actions;
        out.append(&mut acts);
        assert(out@ + end_actions(mode, d - 1) =~= before + end_actions(mode, d as int));
        d = d - 1;
    }
    let ghost before = out@;
    match mode {
        StreamMode::Nested => {},
        StreamMode::Unzip => {
            out.push(FrameAction::FinishLevel);
            out.push(FrameAction::BroadcastClose);
        },
    }
    assert(out@ =~= before + end_actions(mode, 0));
    out
}

/// All actions of an operation over a whole input stream.
pub fn frame(mode: StreamMode, kinds: &Vec<PacketKind>) -> (out: Vec<FrameAction>)
    ensures
        out@ == frame_spec(mode, kinds@),
{
    let mut out = frame_start(mode);
    let mut depth: usize = 0;
    let mut i: usize = 0;
    assert(kinds@.skip(0) =~= kinds@);
    while i < kinds.len()
        invariant
            i <= kinds.len(),
            depth <= i,
            out@ + frame_from(mode, depth as int, kinds@.skip(i as int)) == frame_spec(mode, kinds@),
        decreases kinds.len() - i,
    {
        let s = frame_step(mode, depth, kinds[i]);
        let ghost before = out@;
        let ghost rest = kinds@.skip(i as int);
        assert(rest[0] == kinds@[i as int]);
        assert(rest.drop_first() =~= kinds@.skip(i + 1));
        let mut acts = s.actions;
        out.append(&mut acts);
        match s.next {
            None => {
                assert(out@ =~= before + frame_from(mode, depth as int, rest));
                assert(out@ =~= frame_spec(mode, kinds@));
                return out;
            },
            Some(d) => {
                assert(out@ + frame_from(mode, d as int, kinds@.skip(i + 1)) =~= before + frame_from(mode, depth as int, rest));
                depth = d;
            },
        }
        i = i + 1;
    }
    assert(kinds@.skip(i as int) =~= Seq::<PacketKind>::empty());
    let mut tail = frame_end(mode, depth);
    out.append(&mut tail);
    out
}

} // verus!

verus! {

/// What a balance count looks at: output brackets, or archive levels.
#[derive(Clone, Copy, Debug, PartialEq, Eq, Structural)]
pub enum Pairing {
    /// `BroadcastOpen` opens, `BroadcastClose` closes.
    Brackets,
    /// `StartLevel` opens, `FinishLevel` closes.
    Levels,
}

/// How one action changes the count of open pairs.
pub open spec fn delta(p: Pairing, a: FrameAction) -> int {
    match p {
        Pairing::Brackets => match a {
            FrameAction::BroadcastOpen => 1,
            FrameAction::BroadcastClose => -1,
            _ => 0,
        },
        Pairing::Levels => match a {
            FrameAction::StartLevel => 1,
            FrameAction::FinishLevel => -1,
            _ => 0,
        },
    }
}

/// The change of the count of open pairs over the actions.
pub open spec fn net(p: Pairing, s: Seq<FrameAction>) -> int
    decreases s.len(),
{
    if s.len() == 0 {
        0
    } else {
        delta(p, s[0]) + net(p, s.drop_first())
    }
}

/// Starting with `h` open pairs, no action closes a pair that is not open.
pub open spec fn never_below(p: Pairing, s: Seq<FrameAction>, h: int) -> bool
    decreases s.len(),
{
    if s.len() == 0 {
        h >= 0
    } else {
        h >= 0 && never_below(p, s.drop_first(), h + delta(p, s[0]))
    }
}

/// The actions are well paired: nothing closes before it opened, and all that opened is closed.
pub open spec fn balanced(p: Pairing, s: Seq<FrameAction>) -> bool {
    never_below(p, s, 0) && net(p, s) == 0
}

proof fn lemma_concat(p: Pairing, a: Seq<FrameAction>, b: Seq<FrameAction>, h: int)
    ensures
        net(p, a + b) == net(p, a) + net(p, b),
        never_below(p, a, h) && never_below(p, b, h + net(p, a)) ==> never_below(p, a + b, h),
    decreases a.len(),
{
    if a.len() == 0 {
        assert(a + b =~= b);
    } else {
        assert((a + b).drop_first() =~= a.drop_first() + b);
        lemma_concat(p, a.drop_first(), b, h + delta(p, a[0]));
    }
}

/// The number of pairs that are open at `depth`.
pub open spec fn open_at(mode: StreamMode, p: Pairing, depth: int) -> int {
    match (mode, p) {
        (StreamMode::Nested, Pairing::Brackets) => depth,
        (StreamMode::Nested, Pairing::Levels) => 0,
        (StreamMode::Unzip, Pairing::Brackets) => if depth <= 1 { 1 } else { depth },
        (StreamMode::Unzip, Pairing::Levels) => depth + 1,
    }
}

proof fn lemma_end_balanced(mode: StreamMode, p: Pairing, depth: int)
    requires
        depth >= 0,
    ensures
        never_below(p, end_actions(mode, depth), open_at(mode, p, depth)),
        open_at(mode, p, depth) + net(p, end_actions(mode, depth)) == 0,
    decreases depth,
{
    reveal_with_fuel(net, 3);
    reveal_with_fuel(never_below, 3);
    if depth > 0 {
        lemma_end_balanced(mode, p, depth - 1);
        let a = step_actions(mode, depth, PacketKind::Close);
        lemma_concat(p, a, end_actions(mode, depth - 1), open_at(mode, p, depth));
    }
}

proof fn lemma_frame_from_balanced(mode: StreamMode, p: Pairing, depth: int, kinds: Seq<PacketKind>)
    requires
        depth >= 0,
    ensures
        never_below(p, frame_from(mode, depth, kinds), open_at(mode, p, depth)),
        open_at(mode, p, depth) + net(p, frame_from(mode, depth, kinds)) == 0,
    decreases kinds.len(),
{
    reveal_with_fuel(net, 3);
    reveal_with_fuel(never_below, 3);
    if kinds.len() == 0 {
        lemma_end_balanced(mode, p, depth);
    } else {
        let a = step_actions(mode, depth, kinds[0]);
        match step_depth(depth, kinds[0]) {
            None => {},
            Some(d) => {
                lemma_frame_from_balanced(mode, p, d, kinds.drop_first());
                lemma_concat(p, a, frame_from(mode, d, kinds.drop_first()), open_at(mode, p, depth));
            },
        }
    }
}

/// Whatever the input stream, an operation's output brackets are well nested: it never closes
/// a bracket it did not open, and every bracket it opens is closed by the time it stops. In the
/// unzip mode every archive level that starts is finished as well.
pub proof fn lemma_frame_balanced(mode: StreamMode, kinds: Seq<PacketKind>)
    ensures
        balanced(Pairing::Brackets, frame_spec(mode, kinds)),
        mode == StreamMode::Unzip ==> balanced(Pairing::Levels, frame_spec(mode, kinds)),
{
    reveal_with_fuel(net, 3);
    reveal_with_fuel(never_below, 3);
    lemma_frame_from_balanced(mode, Pairing::Brackets, 0, kinds);
    lemma_frame_from_balanced(mode, Pairing::Levels, 0, kinds);
    lemma_concat(Pairing::Brackets, start_actions(mode), frame_from(mode, 0, kinds), 0);
    lemma_concat(Pairing::Levels, start_actions(mode), frame_from(mode, 0, kinds), 0);
}

} // verus!
