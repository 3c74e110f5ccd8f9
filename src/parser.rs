use vstd::prelude::*;
use crate::bind::{slot_view, slots_view, ArgValue, Arguments, FunctionError, Slots};
use crate::signature::ParametersSpec;

verus! {

/// Reads the slots of a bound call one after another, in parameter order.
pub struct ParametersParser<V> {
    /// The slots not read yet, the next one last.
    pending: Vec<Option<ArgValue<V>>>,
}

impl<V> ParametersParser<V> {
    /// The slots not read yet, in parameter order.
    pub closed spec fn remaining(&self) -> Slots<V> {
        let n = self.pending@.len();
        Seq::new(n, |i: int| slot_view(self.pending@[n - 1 - i]))
    }

    /// How many slots are left to read.
    pub fn len(&self) -> (r: usize)
        ensures
            r == self.remaining().len(),
    {
        self.pending.len()
    }

    /// Read the next slot.
    pub fn next_slot(&mut self) -> (r: Option<ArgValue<V>>)
        requires
            old(self).remaining().len() > 0,
        ensures
            slot_view(r) == old(self).remaining()[0],
            final(self).remaining() == old(self).remaining().drop_first(),
    {
        let r = self.pending.pop();
        match r {
            Some(slot) => {
                assert(self.remaining() =~= old(self).remaining().drop_first());
                slot
            },
            None => None,
        }
    }
}

impl<V: Copy> ParametersSpec<V> {
    /// Bind the arguments of a call and hand back a reader over the slots.
    pub fn parser(&self, args: &Arguments<V>) -> (r: Result<ParametersParser<V>, FunctionError>)
        requires
            self.wf(),
        ensures
            match self.bind_model(args.model()) {
                Ok(m) => r matches Ok(p) && p.remaining() == m,
                Err(e) => r matches Err(x) && x.model() == e,
            },
    {
        match self.collect_into(args) {
            Ok(slots) => {
                let ghost all = slots_view(slots@, self.num_params());
                let mut slots = slots;
                let mut pending: Vec<Option<ArgValue<V>>> = Vec::with_capacity(slots.len());
                while slots.len() > 0
                    invariant
                        slots@.len() + pending@.len() == all.len(),
                        forall|i: int| 0 <= i < slots@.len() ==> slot_view(#[trigger] slots@[i]) == all[i],
                        forall|j: int| 0 <= j < pending@.len() ==> slot_view(#[trigger] pending@[j]) == all[all.len() - 1 - j],
                    decreases slots@.len(),
                {
                    let s = slots.pop();
                    match s {
                        Some(x) => {
                            pending.push(x);
                        },
                        None => {},
                    }
                }
                let p = ParametersParser { pending };
                assert(p.remaining() =~= all);
                Ok(p)
            },
            Err(e) => Err(e),
        }
    }
}

} // verus!
