//! The bus: an ordered, single-use queue of commands.

use crate::command::Command;
use crate::command::CommandView;
use vstd::prelude::*;

verus! {

/// An ordered queue of commands awaiting execution.
pub struct CommandBus {
    queue: Vec<Command>,
}

impl View for CommandBus {
    type V = Seq<CommandView>;

    /// The pending commands, oldest first.
    closed spec fn view(&self) -> Seq<CommandView> {
        self.queue@.map_values(|cmd: Command| cmd@)
    }
}

/// The outcome of each command of `pending`, in the same order.
pub open spec fn outcomes(pending: Seq<CommandView>) -> Seq<Seq<char>> {
    pending.map_values(|cmd: CommandView| cmd.outcome())
}

impl Default for CommandBus {
    /// A bus with nothing pending.
    fn default() -> (bus: Self)
        ensures
            bus@ == Seq::<CommandView>::empty(),
    {
        CommandBus { queue: Vec::new() }
    }
}

impl CommandBus {
    /// Whether enqueuing `cmd` on this bus leaves it as `next`: with `cmd`
    /// behind everything that was already pending.
    pub open spec fn enqueues_to(self, cmd: CommandView, next: CommandBus) -> bool {
        next@ == self@.push(cmd)
    }

    /// Whether running this bus returns `results` and leaves it as `next`:
    /// one outcome for each pending command, oldest first, and nothing pending.
    pub open spec fn runs_to(self, results: Seq<Seq<char>>, next: CommandBus) -> bool {
        &&& results == outcomes(self@)
        &&& next@ == Seq::<CommandView>::empty()
    }

    /// Appends a command to the tail of the queue.
    pub fn enqueue(&mut self, cmd: Command)
        ensures
            old(self).enqueues_to(cmd@, *final(self)),
    {
        self.queue.push(cmd);
        assert(self@ =~= old(self)@.push(cmd@));
    }

    /// Executes every pending command in order and empties the queue.
    pub fn run(&mut self) -> (results: Vec<String>)
        ensures
            old(self).runs_to(results.deep_view(), *final(self)),
    {
        let mut results: Vec<String> = Vec::new();
        let mut i: usize = 0;
        while i < self.queue.len()
            invariant
                *self == *old(self),
                i <= self.queue@.len(),
                results@.len() == i,
                forall|k: int| 0 <= k < i ==> results@[k]@ == self.queue@[k]@.outcome(),
            decreases self.queue@.len() - i,
        {
            let line = self.queue[i].execute();
            results.push(line);
            i += 1;
        }
        assert(results.deep_view() =~= outcomes(self@));
        self.queue.clear();
        assert(self@ =~= Seq::<CommandView>::empty());
        results
    }
}

/// What is pending after `count` of the enqueues of a trace: what was pending
/// at its start, then the first `count` commands.
proof fn lemma_pending_after(trace: Seq<CommandBus>, cmds: Seq<CommandView>, count: int)
    requires
        trace.len() == cmds.len() + 1,
        forall|k: int|
            0 <= k < cmds.len() ==> #[trigger] trace[k].enqueues_to(cmds[k], trace[k + 1]),
        0 <= count <= cmds.len(),
    ensures
        trace[count]@ == trace[0]@ + cmds.take(count),
    decreases count,
{
    if count > 0 {
        lemma_pending_after(trace, cmds, count - 1);
        assert(trace[count - 1].enqueues_to(cmds[count - 1], trace[count]));
    }
    assert(trace[count]@ =~= trace[0]@ + cmds.take(count));
}

/// Commands are executed in the order in which they were enqueued. A bus takes
/// the commands `cmds` one after another, passing through the states `trace`,
/// and is then run: the results are the outcomes of what was pending at the
/// start followed by the outcomes of `cmds`, each at the place of its command.
pub proof fn lemma_run_follows_enqueue_order(
    trace: Seq<CommandBus>,
    cmds: Seq<CommandView>,
    results: Seq<Seq<char>>,
    end: CommandBus,
)
    requires
        trace.len() == cmds.len() + 1,
        forall|k: int|
            0 <= k < cmds.len() ==> #[trigger] trace[k].enqueues_to(cmds[k], trace[k + 1]),
        trace.last().runs_to(results, end),
    ensures
        results == outcomes(trace[0]@ + cmds),
        trace[0]@.len() == 0 ==> results == outcomes(cmds),
        results.len() == trace[0]@.len() + cmds.len(),
        forall|k: int|
            0 <= k < cmds.len() ==> #[trigger] results[trace[0]@.len() + k] == cmds[k].outcome(),
{
    lemma_pending_after(trace, cmds, cmds.len() as int);
    assert(cmds.take(cmds.len() as int) =~= cmds);
}

/// A run drains the bus: a second run, with nothing enqueued in between,
/// returns no results.
pub proof fn lemma_second_run_is_empty(
    bus: CommandBus,
    first: Seq<Seq<char>>,
    drained: CommandBus,
    second: Seq<Seq<char>>,
    end: CommandBus,
)
    requires
        bus.runs_to(first, drained),
        drained.runs_to(second, end),
    ensures
        second == Seq::<Seq<char>>::empty(),
{
}

} // verus!
