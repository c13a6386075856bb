//! Running a list of commands, with a trace of what each did.

use vstd::prelude::*;

use crate::app::{
    after, apply_command, command_text, refusal, refusal_words, snapshot, AppCommand, AppState,
    AppStateSnapshot, AppView, SnapshotView,
};

verus! {

/// What one command did.
#[derive(Debug)]
pub struct HarnessEvent {
    pub step: usize,
    pub command: String,
    pub result: HarnessResult,
    pub state: AppStateSnapshot,
}

#[derive(Debug)]
pub enum HarnessResult {
    /// The command was carried out.
    Done,
    /// The command was refused, for this reason.
    Error(String),
}

/// The contents of a [`HarnessEvent`].
#[verifier::ext_equal]
pub struct EventView {
    pub step: nat,
    pub command: Seq<char>,
    pub error: Option<Seq<char>>,
    pub state: SnapshotView,
}

impl View for HarnessEvent {
    type V = EventView;

    open spec fn view(&self) -> EventView {
        EventView {
            step: self.step as nat,
            command: self.command@,
            error: match self.result {
                HarnessResult::Done => None,
                HarnessResult::Error(s) => Some(s@),
            },
            state: self.state@,
        }
    }
}

/// The contents of a list of events.
pub open spec fn events(v: Seq<HarnessEvent>) -> Seq<EventView> {
    v.map_values(|e: HarnessEvent| e@)
}

/// The state after the first `n` commands.
pub open spec fn state_after(v: AppView, commands: Seq<AppCommand>, n: nat) -> AppView
    decreases n,
{
    if n == 0 {
        v
    } else {
        after(state_after(v, commands, (n - 1) as nat), commands[n - 1]@)
    }
}

/// What the command at position `i` did.
pub open spec fn event_at(v: AppView, commands: Seq<AppCommand>, i: nat) -> EventView {
    EventView {
        step: i,
        command: command_text(commands[i as int]@),
        error: match refusal(state_after(v, commands, i).screen, commands[i as int]@) {
            Some(r) => Some(refusal_words(r)),
            None => None,
        },
        state: snapshot(state_after(v, commands, i + 1)),
    }
}

/// The trace of all commands.
pub open spec fn trace(v: AppView, commands: Seq<AppCommand>) -> Seq<EventView> {
    Seq::new(commands.len(), |i: int| event_at(v, commands, i as nat))
}

/// Carries out the commands one after the other; a refused command does not stop the
/// next.
pub fn run_scenario(initial: AppState, commands: &Vec<AppCommand>) -> (r: Vec<HarnessEvent>)
    ensures
        events(r@) == trace(initial@, commands@),
{
    let ghost v = initial@;
    let mut state = initial;
    let mut out: Vec<HarnessEvent> = Vec::new();
    let ghost want = trace(v, commands@);
    assert(events(out@) =~= want.take(0));
    for i in 0..commands.len()
        invariant
            want == trace(v, commands@),
            state@ == state_after(v, commands@, i as nat),
            events(out@) == want.take(i as int),
    {
        let cmd: &AppCommand = &commands[i];
        let command = cmd.debug_text();
        let result = match apply_command(&mut state, cmd) {
            Ok(_) => HarnessResult::Done,
            Err(e) => HarnessResult::Error(e.message().to_owned()),
        };
        let ghost list = out@;
        let event = HarnessEvent { step: i, command, result, state: AppStateSnapshot::from(&state) };
        let ghost view = event@;
        out.push(event);
        assert(view == want[i as int]);
        assert(events(out@) =~= events(list).push(view));
        assert(want.take(i + 1) =~= want.take(i as int).push(view));
    }
    assert(want.take(want.len() as int) =~= want);
    out
}

/// Running commands one after the other is running the first ones and then the rest.
pub proof fn law_runs_compose(v: AppView, a: Seq<AppCommand>, b: Seq<AppCommand>, n: nat)
    requires
        n <= b.len(),
    ensures
        state_after(v, a + b, a.len() + n) == state_after(state_after(v, a, a.len()), b, n),
    decreases n,
{
    if n == 0 {
        lemma_prefix(v, a, b, a.len());
    } else {
        law_runs_compose(v, a, b, (n - 1) as nat);
        assert((a + b)[a.len() + n - 1] == b[n - 1]);
    }
}

proof fn lemma_prefix(v: AppView, a: Seq<AppCommand>, b: Seq<AppCommand>, n: nat)
    requires
        n <= a.len(),
    ensures
        state_after(v, a + b, n) == state_after(v, a, n),
    decreases n,
{
    if n > 0 {
        lemma_prefix(v, a, b, (n - 1) as nat);
        assert((a + b)[n - 1] == a[n - 1]);
    }
}

/// The trace has one event for each command, in order: with its number, its words, the
/// reason where it was refused on the screen that it came on, and the state that it led
/// to.
pub proof fn law_trace_of_commands(v: AppView, commands: Seq<AppCommand>, i: int)
    requires
        0 <= i < commands.len(),
    ensures
        trace(v, commands).len() == commands.len(),
        trace(v, commands)[i].step == i,
        trace(v, commands)[i].command == command_text(commands[i]@),
        trace(v, commands)[i].error is None <==> refusal(
            state_after(v, commands, i as nat).screen,
            commands[i]@,
        ) is None,
        trace(v, commands)[i].state == snapshot(
            after(state_after(v, commands, i as nat), commands[i]@),
        ),
{
}

} // verus!
