//! The decisions of the watch loop: which file-system events call for a new
//! analysis, and when. Waiting on events and running the analysis are the
//! caller's part; [`step`] tells it what to do next.

use vstd::prelude::*;
use crate::scanner::RelevanceFilter;

verus! {

/// How long a burst of changes has to stay quiet, in milliseconds, before
/// the project is analysed again.
pub const DEBOUNCE_MS: u64 = 300;

/// Where the watch loop stands.
#[derive(Debug, Clone, Copy, PartialEq, Eq, Structural)]
pub enum WatchState {
    /// Waiting for the first change of a burst.
    Idle,
    /// Inside a burst of changes; `relevant` tells whether any of them
    /// touched a file that matters.
    Burst { relevant: bool },
}

/// What the caller observed since the last step.
#[derive(Debug, Clone, Copy, PartialEq, Eq, Structural)]
pub enum WatchInput {
    /// A file-system event arrived; `relevant` tells whether it touched a
    /// file that matters.
    Changed { relevant: bool },
    /// No event arrived within the debounce window (or the event source
    /// closed while waiting for one).
    Quiet,
    /// The event source closed while no burst was open.
    Closed,
}

/// What the caller does next.
#[derive(Debug, Clone, Copy, PartialEq, Eq, Structural)]
pub enum WatchAction {
    /// Wait, without a time limit, for the next event.
    AwaitChange,
    /// Wait for the next event at most `millis` milliseconds.
    AwaitQuiet { millis: u64 },
    /// Analyse the project again and report it, then wait for the next event.
    Reanalyze,
    /// Stop watching.
    Stop,
}

/// The transition table of the watch loop: a burst opens with its first
/// event and stays open while events keep arriving within the debounce
/// window; when it closes, the project is analysed again if any of its
/// events was relevant.
pub open spec fn step_spec(state: WatchState, input: WatchInput) -> (WatchState, WatchAction) {
    match (state, input) {
        (WatchState::Idle, WatchInput::Changed { relevant }) => (
            WatchState::Burst { relevant },
            WatchAction::AwaitQuiet { millis: DEBOUNCE_MS },
        ),
        (WatchState::Idle, WatchInput::Quiet) => (WatchState::Idle, WatchAction::AwaitChange),
        (WatchState::Idle, WatchInput::Closed) => (WatchState::Idle, WatchAction::Stop),
        (WatchState::Burst { relevant: seen }, WatchInput::Changed { relevant }) => (
            WatchState::Burst { relevant: seen || relevant },
            WatchAction::AwaitQuiet { millis: DEBOUNCE_MS },
        ),
        (WatchState::Burst { relevant }, _) => (
            WatchState::Idle,
            if relevant {
                WatchAction::Reanalyze
            } else {
                WatchAction::AwaitChange
            },
        ),
    }
}

/// The next state and action of the watch loop: [`step_spec`].
pub fn step(state: WatchState, input: WatchInput) -> (r: (WatchState, WatchAction))
    ensures
        r == step_spec(state, input),
{
    match state {
        WatchState::Idle => match input {
            WatchInput::Changed { relevant } => (
                WatchState::Burst { relevant },
                WatchAction::AwaitQuiet { millis: DEBOUNCE_MS },
            ),
            WatchInput::Quiet => (WatchState::Idle, WatchAction::AwaitChange),
            WatchInput::Closed => (WatchState::Idle, WatchAction::Stop),
        },
        WatchState::Burst { relevant: seen } => match input {
            WatchInput::Changed { relevant } => (
                WatchState::Burst { relevant: seen || relevant },
                WatchAction::AwaitQuiet { millis: DEBOUNCE_MS },
            ),
            _ => {
                let action = if seen {
                    WatchAction::Reanalyze
                } else {
                    WatchAction::AwaitChange
                };
                (WatchState::Idle, action)
            },
        },
    }
}

/// Whether the filter admits some path of `ps`.
pub open spec fn admits_any(filter: &RelevanceFilter, ps: Seq<String>) -> bool {
    exists|i: int| 0 <= i < ps.len() && filter.admits(#[trigger] ps[i]@)
}

/// Whether an event concerns a file that matters: an event that carries
/// paths (an error carries none) with at least one that the filter admits.
pub fn event_is_relevant(paths: Option<&Vec<String>>, filter: &RelevanceFilter) -> (r: bool)
    ensures
        r == match paths {
            Some(ps) => admits_any(filter, ps@),
            None => false,
        },
{
    match paths {
        None => false,
        Some(ps) => {
            let n = ps.len();
            for i in 0..n
                invariant
                    n == ps.len(),
                    paths == Some(ps),
                    forall|j: int| 0 <= j < i ==> !filter.admits(#[trigger] ps@[j]@),
            {
                if filter.is_relevant(ps[i].as_str()) {
                    assert(filter.admits(ps@[i as int]@));
                    assert(admits_any(filter, ps@));
                    return true;
                }
            }
            false
        },
    }
}

/// The state and the actions after feeding `inputs` one by one from `state`.
pub open spec fn run(state: WatchState, inputs: Seq<WatchInput>) -> (WatchState, Seq<WatchAction>)
    decreases inputs.len(),
{
    if inputs.len() == 0 {
        (state, seq![])
    } else {
        let (mid, actions) = run(state, inputs.drop_last());
        let (next, action) = step_spec(mid, inputs.last());
        (next, actions.push(action))
    }
}

/// The inputs of one burst: a change for each relevance in `rs`, then quiet.
pub open spec fn burst(rs: Seq<bool>) -> Seq<WatchInput> {
    Seq::new(rs.len(), |k: int| WatchInput::Changed { relevant: rs[k] }).push(WatchInput::Quiet)
}

/// Whether some relevance of `rs` holds.
pub open spec fn any_relevant(rs: Seq<bool>) -> bool {
    exists|k: int| 0 <= k < rs.len() && rs[k]
}

proof fn lemma_changes(rs: Seq<bool>)
    requires
        rs.len() > 0,
    ensures
        ({
            let changes = Seq::new(rs.len(), |k: int| WatchInput::Changed { relevant: rs[k] });
            let (s, actions) = run(WatchState::Idle, changes);
            &&& s == WatchState::Burst { relevant: any_relevant(rs) }
            &&& actions.len() == rs.len()
            &&& forall|k: int|
                0 <= k < actions.len() ==> actions[k] == WatchAction::AwaitQuiet {
                    millis: DEBOUNCE_MS,
                }
        }),
    decreases rs.len(),
{
    let changes = Seq::new(rs.len(), |k: int| WatchInput::Changed { relevant: rs[k] });
    if rs.len() == 1 {
        assert(changes.drop_last() =~= seq![]);
        assert(any_relevant(rs) == rs[0]) by {
            if any_relevant(rs) {
                let k = choose|k: int| 0 <= k < rs.len() && rs[k];
                assert(k == 0);
            }
        }
        let (s0, a0) = run(WatchState::Idle, changes.drop_last());
        assert(s0 == WatchState::Idle && a0 =~= seq![]);
        let (s1, a1) = run(WatchState::Idle, changes);
        assert(a1 =~= seq![WatchAction::AwaitQuiet { millis: DEBOUNCE_MS }]);
    } else {
        let front = rs.drop_last();
        lemma_changes(front);
        let front_changes = Seq::new(front.len(), |k: int| WatchInput::Changed { relevant: front[k] });
        assert(changes.drop_last() =~= front_changes);
        let (s0, a0) = run(WatchState::Idle, front_changes);
        let (s1, a1) = run(WatchState::Idle, changes);
        assert(a1 == a0.push(WatchAction::AwaitQuiet { millis: DEBOUNCE_MS }));
        assert forall|k: int| 0 <= k < a1.len() implies a1[k] == WatchAction::AwaitQuiet {
            millis: DEBOUNCE_MS,
        } by {
            if k < a0.len() {
                assert(a1[k] == a0[k]);
            }
        }
        assert(any_relevant(rs) == (any_relevant(front) || rs.last())) by {
            if any_relevant(rs) && !rs.last() {
                let k = choose|k: int| 0 <= k < rs.len() && rs[k];
                assert(front[k]);
            }
            if any_relevant(front) {
                let k = choose|k: int| 0 <= k < front.len() && front[k];
                assert(rs[k]);
            }
        }
    }
}

/// Debouncing: from an idle watch, a burst of changes followed by a quiet
/// window causes no analysis while the changes arrive, and exactly one when
/// the window closes if and only if some change of the burst was relevant;
/// the watch is idle again afterwards.
pub proof fn law_one_analysis_per_burst(rs: Seq<bool>)
    requires
        rs.len() > 0,
    ensures
        ({
            let (s, actions) = run(WatchState::Idle, burst(rs));
            &&& s == WatchState::Idle
            &&& actions.len() == rs.len() + 1
            &&& forall|k: int|
                0 <= k < rs.len() ==> actions[k] == WatchAction::AwaitQuiet { millis: DEBOUNCE_MS }
            &&& actions.last() == if any_relevant(rs) {
                WatchAction::Reanalyze
            } else {
                WatchAction::AwaitChange
            }
        }),
{
    lemma_changes(rs);
    let changes = Seq::new(rs.len(), |k: int| WatchInput::Changed { relevant: rs[k] });
    assert(burst(rs).drop_last() =~= changes);
}

/// What the watch does for one burst: wait for quiet after each change,
/// then analyse again if some change was relevant.
pub open spec fn burst_actions(rs: Seq<bool>) -> Seq<WatchAction> {
    Seq::new(rs.len(), |k: int| WatchAction::AwaitQuiet { millis: DEBOUNCE_MS }).push(
        if any_relevant(rs) {
            WatchAction::Reanalyze
        } else {
            WatchAction::AwaitChange
        },
    )
}

/// The inputs of the bursts `bs`, one after the other.
pub open spec fn bursts(bs: Seq<Seq<bool>>) -> Seq<WatchInput>
    decreases bs.len(),
{
    if bs.len() == 0 {
        seq![]
    } else {
        bursts(bs.drop_last()) + burst(bs.last())
    }
}

/// The actions for the bursts `bs`, one burst after the other.
pub open spec fn bursts_actions(bs: Seq<Seq<bool>>) -> Seq<WatchAction>
    decreases bs.len(),
{
    if bs.len() == 0 {
        seq![]
    } else {
        bursts_actions(bs.drop_last()) + burst_actions(bs.last())
    }
}

/// Feeding `a` then `b` is feeding `a`, then feeding `b` from where `a` left
/// the watch.
proof fn lemma_run_concat(state: WatchState, a: Seq<WatchInput>, b: Seq<WatchInput>)
    ensures
        run(state, a + b) == (run(run(state, a).0, b).0, run(state, a).1 + run(run(state, a).0, b).1),
    decreases b.len(),
{
    if b.len() == 0 {
        assert(a + b =~= a);
        assert(run(state, a).1 + seq![] =~= run(state, a).1);
    } else {
        lemma_run_concat(state, a, b.drop_last());
        assert((a + b).drop_last() =~= a + b.drop_last());
        assert((a + b).last() == b.last());
        let mid = run(run(state, a).0, b.drop_last());
        let (next, action) = step_spec(mid.0, b.last());
        assert(run(state, a).1 + mid.1.push(action) =~= (run(state, a).1 + mid.1).push(action));
    }
}

/// Debouncing over any run of bursts: from an idle watch, each burst of
/// changes followed by a quiet window gives exactly the actions of
/// [`burst_actions`], so one analysis per burst that held a relevant
/// change and none otherwise, and the watch is idle after each burst.
pub proof fn law_one_analysis_per_burst_in_sequence(bs: Seq<Seq<bool>>)
    requires
        forall|i: int| 0 <= i < bs.len() ==> (#[trigger] bs[i]).len() > 0,
    ensures
        run(WatchState::Idle, bursts(bs)) == (WatchState::Idle, bursts_actions(bs)),
    decreases bs.len(),
{
    if bs.len() == 0 {
        assert(run(WatchState::Idle, bursts(bs)).1 =~= bursts_actions(bs));
    } else {
        let front = bs.drop_last();
        assert forall|i: int| 0 <= i < front.len() implies (#[trigger] front[i]).len() > 0 by {
            assert(front[i] == bs[i]);
        }
        law_one_analysis_per_burst_in_sequence(front);
        let rs = bs.last();
        assert(rs == bs[bs.len() - 1]);
        law_one_analysis_per_burst(rs);
        lemma_run_concat(WatchState::Idle, bursts(front), burst(rs));
        let (s, actions) = run(WatchState::Idle, burst(rs));
        assert(actions =~= burst_actions(rs));
    }
}

} // verus!
