//! The command bus: the two producer-to-consumer pipelines.
//!
//! Module producers run on threads of their own; UI state may only be
//! touched by the thread that owns the event loop. Commands therefore travel
//! through a pipeline whose receive end belongs to exactly one consumer, and
//! a relay moves them from the cross-thread queue into the loop-owned queue.
//! Within one pipeline the order is first-in, first-out; across pipelines no
//! order is promised.

use vstd::prelude::*;

verus! {

/// Names a widget surface within a module's namespace.
pub struct ActivityIdentifier {
    pub module: String,
    pub activity: String,
}

/// A command for the UI-owning consumer, produced by module instances on any
/// thread. The widget travels as a handle the surrounding process resolves.
pub enum UiServerCommand {
    AddActivity { activity: ActivityIdentifier, widget: u64 },
    RemoveActivity { activity: ActivityIdentifier },
}

/// A first-in, first-out queue with a single consumer.
pub struct Pipeline<T> {
    pub items: Vec<T>,
}

impl<T> Pipeline<T> {
    pub fn new() -> (p: Pipeline<T>)
        ensures
            p.items@.len() == 0,
    {
        Pipeline { items: Vec::new() }
    }

    /// Producer side: append one command.
    pub fn enqueue(&mut self, x: T)
        ensures
            final(self).items@ == old(self).items@.push(x),
    {
        self.items.push(x);
    }

    /// Consumer side: take the oldest command, if any.
    pub fn dequeue(&mut self) -> (r: Option<T>)
        ensures
            match r {
                Some(x) => old(self).items@.len() > 0 && x == old(self).items@.first()
                    && final(self).items@ == old(self).items@.drop_first(),
                None => old(self).items@.len() == 0 && final(self).items@ == old(self).items@,
            },
    {
        let ghost pre = self.items@;
        if self.items.len() == 0 {
            None
        } else {
            let x = self.items.remove(0);
            assert(self.items@ =~= pre.drop_first());
            Some(x)
        }
    }

    pub fn len(&self) -> (n: usize)
        ensures
            n == self.items@.len(),
    {
        self.items.len()
    }
}

/// The relay: move everything from the cross-thread queue into the
/// loop-owned queue, oldest first. Order within the pipeline is preserved
/// exactly; this is the only legal way commands enter the loop-owning
/// consumer.
pub fn relay<T>(from: &mut Pipeline<T>, to: &mut Pipeline<T>)
    ensures
        final(from).items@.len() == 0,
        final(to).items@ == old(to).items@ + old(from).items@,
{
    loop
        invariant
            to.items@ + from.items@ == old(to).items@ + old(from).items@,
        decreases from.items@.len(),
    {
        let ghost from_pre = from.items@;
        let ghost to_pre = to.items@;
        match from.dequeue() {
            Some(x) => {
                to.enqueue(x);
                assert(to_pre.push(x) + from_pre.drop_first() =~= to_pre + from_pre);
            },
            None => {
                assert(to.items@ + from.items@ =~= to.items@);
                return ;
            },
        }
    }
}

} // verus!
