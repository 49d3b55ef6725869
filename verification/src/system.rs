//! The two-phase contract that every unit of simulation logic satisfies.

use vstd::prelude::*;

verus! {

/// The failure a system may report from its run hook. The scheduler passes it
/// up to the tick driver unchanged.
#[derive(Debug)]
pub struct SystemError {
    /// A description of the failure, for the tick driver to log or act on.
    pub message: String,
}

/// What a system's run hook reports: success, or a described failure.
pub type SystemResult = Result<(), SystemError>;

/// A unit of simulation logic, consumed by the scheduler through a two-phase
/// contract: `initialize` is called once, with exclusive world access, before
/// `run` is called once per tick with shared world access.
///
/// The two spec functions are the system's ghost lifecycle record: how many
/// times its initialize hook has been invoked, and the outcome of each of its
/// run calls, oldest first. Every implementation keeps the record current, so
/// the scheduler's contracts can speak of which systems ran in a tick and what
/// each reported.
pub trait System: Sized {
    /// The shared store of simulation data this system reads and mutates.
    type World;

    /// How many times the initialize hook has been invoked on this system.
    spec fn init_count(&self) -> nat;

    /// The outcome of every past run call on this system, in call order.
    spec fn outcomes(&self) -> Seq<SystemResult>;

    /// Set up long-lived world resources. Called exactly once, before any run.
    fn initialize(&mut self, world: &mut Self::World)
        ensures
            final(self).init_count() == old(self).init_count() + 1,
            final(self).outcomes() == old(self).outcomes(),
    ;

    /// Do one tick's work against the world.
    fn run(&mut self, world: &Self::World) -> (r: SystemResult)
        ensures
            final(self).init_count() == old(self).init_count(),
            final(self).outcomes() == old(self).outcomes().push(r),
    ;
}

/// A system that leaves the world untouched and always succeeds, keeping only
/// a tally of its ticks. It shows the [`System`] contract is implementable and
/// serves as a placeholder in a pipeline under construction.
pub struct CountingSystem<W> {
    /// How many run calls this system has seen, saturating at the type's limit.
    pub ticks: u64,
    /// Ghost tally of initialize calls.
    pub inits: Ghost<nat>,
    /// Ghost record of run outcomes.
    pub outs: Ghost<Seq<SystemResult>>,
    /// Ties the world type to the system without holding a world.
    pub marker: core::marker::PhantomData<W>,
}

impl<W> CountingSystem<W> {
    /// A fresh system: never initialized, never run.
    pub fn new() -> (r: Self)
        ensures
            r.ticks == 0,
            r.init_count() == 0,
            r.outcomes() == Seq::<SystemResult>::empty(),
    {
        CountingSystem {
            ticks: 0,
            inits: Ghost(0),
            outs: Ghost(Seq::empty()),
            marker: core::marker::PhantomData,
        }
    }
}

impl<W> System for CountingSystem<W> {
    type World = W;

    open spec fn init_count(&self) -> nat {
        self.inits@
    }

    open spec fn outcomes(&self) -> Seq<SystemResult> {
        self.outs@
    }

    fn initialize(&mut self, world: &mut W)
        ensures
            final(self).ticks == old(self).ticks,
    {
        self.inits = Ghost(self.inits@ + 1);
    }

    fn run(&mut self, world: &W) -> (r: SystemResult)
        ensures
            final(self).ticks == if old(self).ticks == u64::MAX {
                u64::MAX as int
            } else {
                old(self).ticks + 1
            },
            r == Ok::<(), SystemError>(()),
    {
        if self.ticks < u64::MAX {
            self.ticks = self.ticks + 1;
        }
        self.outs = Ghost(self.outs@.push(Ok(())));
        Ok(())
    }
}

} // verus!
