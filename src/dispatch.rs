use vstd::prelude::*;
use crate::types::IDMCommand;

verus! {

/// What the transport reported for one command.
#[derive(Clone, Copy, Debug, PartialEq, Eq, Structural)]
pub enum SendOutcome {
    Sent,
    Failed,
}

/// What the caller should do next.
#[derive(Clone, Copy, Debug, PartialEq, Eq, Structural)]
pub enum Step {
    /// Transmit the command at this index.
    Send(usize),
    /// Every command has been attempted.
    Finished,
}

/// The indices at which `outcomes` holds a failure, in increasing order.
pub open spec fn failed_indices(outcomes: Seq<SendOutcome>) -> Seq<usize>
    decreases outcomes.len(),
{
    if outcomes.len() == 0 {
        Seq::empty()
    } else {
        let rest = failed_indices(outcomes.drop_last());
        if outcomes.last() == SendOutcome::Failed {
            rest.push((outcomes.len() - 1) as usize)
        } else {
            rest
        }
    }
}

/// Sends a fixed list of commands one at a time, in order. A failed command is
/// recorded and does not stop the ones after it.
pub struct Dispatch {
    pub commands: Vec<IDMCommand>,
    /// The outcome of each command sent so far, in order.
    pub outcomes: Vec<SendOutcome>,
}

impl Dispatch {
    pub open spec fn wf(&self) -> bool {
        self.outcomes@.len() <= self.commands@.len()
    }

    /// The step that follows once `self.outcomes` are known.
    pub open spec fn step_spec(&self) -> Step {
        if self.outcomes@.len() < self.commands@.len() {
            Step::Send(self.outcomes@.len() as usize)
        } else {
            Step::Finished
        }
    }

    pub fn new(commands: Vec<IDMCommand>) -> (r: Dispatch)
        ensures
            r.wf(),
            r.commands@ == commands@,
            r.outcomes@.len() == 0,
    {
        Dispatch { commands, outcomes: Vec::new() }
    }

    /// The first step: send the first command, or finish if there is none.
    pub fn next_step(&self) -> (r: Step)
        requires
            self.wf(),
        ensures
            r == self.step_spec(),
    {
        if self.outcomes.len() < self.commands.len() {
            Step::Send(self.outcomes.len())
        } else {
            Step::Finished
        }
    }

    /// The command at index `i`.
    pub fn command(&self, i: usize) -> (r: &IDMCommand)
        requires
            i < self.commands@.len(),
        ensures
            *r == self.commands@[i as int],
    {
        &self.commands[i]
    }

    /// Takes the outcome of the command that was due and says what comes next:
    /// the command after it, whether this one was sent or failed.
    pub fn record(&mut self, outcome: SendOutcome) -> (r: Step)
        requires
            old(self).wf(),
            old(self).outcomes@.len() < old(self).commands@.len(),
        ensures
            final(self).wf(),
            final(self).commands@ == old(self).commands@,
            final(self).outcomes@ == old(self).outcomes@.push(outcome),
            r == final(self).step_spec(),
    {
        self.outcomes.push(outcome);
        self.next_step()
    }

    /// The indices of the commands that failed, in increasing order.
    pub fn failures(&self) -> (r: Vec<usize>)
        ensures
            r@ == failed_indices(self.outcomes@),
    {
        let mut r: Vec<usize> = Vec::new();
        let mut i: usize = 0;
        while i < self.outcomes.len()
            invariant
                i <= self.outcomes@.len(),
                r@ == failed_indices(self.outcomes@.take(i as int)),
            decreases self.outcomes@.len() - i,
        {
            proof {
                assert(self.outcomes@.take(i + 1).drop_last() =~= self.outcomes@.take(i as int));
            }
            if self.outcomes[i] == SendOutcome::Failed {
                r.push(i);
            }
            i += 1;
        }
        assert(self.outcomes@.take(i as int) =~= self.outcomes@);
        r
    }
}

/// When the transport fails on the command at index `n` alone, exactly that
/// command is reported as failed, and, the list being longer, the command at
/// `n + 1` is the next one sent.
pub proof fn lemma_single_failure(d: Dispatch, n: int)
    requires
        d.wf(),
        0 <= n < d.outcomes@.len(),
        d.outcomes@[n] == SendOutcome::Failed,
        forall|i: int| 0 <= i < d.outcomes@.len() && i != n ==> d.outcomes@[i] == SendOutcome::Sent,
    ensures
        failed_indices(d.outcomes@) == seq![n as usize],
        d.outcomes@.len() == n + 1 && n + 1 < d.commands@.len() ==> d.step_spec() == Step::Send(
            (n + 1) as usize,
        ),
{
    lemma_failed_indices_single(d.outcomes@, n);
}

proof fn lemma_failed_indices_single(o: Seq<SendOutcome>, n: int)
    requires
        0 <= n < o.len(),
        o[n] == SendOutcome::Failed,
        forall|i: int| 0 <= i < o.len() && i != n ==> o[i] == SendOutcome::Sent,
    ensures
        failed_indices(o) == seq![n as usize],
    decreases o.len(),
{
    if o.len() - 1 == n {
        lemma_no_failures(o.drop_last());
        assert(failed_indices(o.drop_last()).push(n as usize) =~= seq![n as usize]);
    } else {
        lemma_failed_indices_single(o.drop_last(), n);
    }
}

proof fn lemma_no_failures(o: Seq<SendOutcome>)
    requires
        forall|i: int| 0 <= i < o.len() ==> o[i] == SendOutcome::Sent,
    ensures
        failed_indices(o) == Seq::<usize>::empty(),
    decreases o.len(),
{
    if o.len() > 0 {
        lemma_no_failures(o.drop_last());
    }
}

} // verus!
