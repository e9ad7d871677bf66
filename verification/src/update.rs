//! The queue of updates that one clock cycle of the interpreter performs.

use vstd::prelude::*;
use std::collections::HashMap;
use crate::environment::{EnvModel, Environment};
use crate::errors::Error;
use crate::ids::{ids_view, Id};
use crate::primitives::{cell_step, cell_step_defined, update_cell_state};

verus! {

/// One update: a cell and the ports it reads and writes.
#[derive(Clone, Debug)]
pub struct Update {
    /// The cell to be updated.
    pub cell: Id,
    /// The input ports.
    pub inputs: Vec<Id>,
    /// The output ports.
    pub outputs: Vec<Id>,
    /// Intermediate variables, by name.
    pub vars: HashMap<String, u64>,
}

/// The queue of updates of a component.
#[derive(Clone, Debug)]
pub struct UpdateQueue {
    pub component: String,
    pub updates: Vec<Update>,
}

/// Whether the updates, performed in order from `m`, are all defined.
pub open spec fn tick_defined(updates: Seq<Update>, comp: Seq<char>, m: EnvModel) -> bool
    decreases updates.len(),
{
    if updates.len() == 0 {
        true
    } else {
        let u = updates[0];
        &&& cell_step_defined(m, comp, u.cell@, ids_view(u.inputs@), ids_view(u.outputs@))
        &&& tick_defined(
            updates.drop_first(),
            comp,
            cell_step(m, comp, u.cell@, ids_view(u.inputs@), ids_view(u.outputs@)),
        )
    }
}

/// The environment after the updates, performed in order from `m`.
pub open spec fn tick(updates: Seq<Update>, comp: Seq<char>, m: EnvModel) -> EnvModel
    decreases updates.len(),
{
    if updates.len() == 0 {
        m
    } else {
        let u = updates[0];
        tick(
            updates.drop_first(),
            comp,
            cell_step(m, comp, u.cell@, ids_view(u.inputs@), ids_view(u.outputs@)),
        )
    }
}

/// One cycle over two queues in a row is the cycle over the first followed
/// by the cycle over the second.
pub proof fn law_tick_append(a: Seq<Update>, b: Seq<Update>, comp: Seq<char>, m: EnvModel)
    ensures
        tick_defined(a + b, comp, m) == (tick_defined(a, comp, m) && tick_defined(
            b,
            comp,
            tick(a, comp, m),
        )),
        tick_defined(a + b, comp, m) ==> tick(a + b, comp, m) == tick(b, comp, tick(a, comp, m)),
    decreases a.len(),
{
    if a.len() == 0 {
        assert(a + b =~= b);
    } else {
        let u = a[0];
        let m1 = cell_step(m, comp, u.cell@, ids_view(u.inputs@), ids_view(u.outputs@));
        law_tick_append(a.drop_first(), b, comp, m1);
        assert((a + b).drop_first() =~= a.drop_first() + b);
        assert((a + b)[0] == u);
    }
}

/// Whether an update is for a cell other than `ucell`.
pub open spec fn keeps(ucell: Seq<char>) -> spec_fn(Update) -> bool {
    |u: Update| u.cell@ != ucell
}

/// After the updates of a cell are removed, none is left, and the updates
/// of the other cells stay, in order.
pub proof fn law_remove_update(updates: Seq<Update>, ucell: Seq<char>)
    ensures
        forall|i: int|
            0 <= i < updates.filter(keeps(ucell)).len() ==> #[trigger] updates.filter(
                keeps(ucell),
            )[i].cell@ != ucell,
        updates.filter(keeps(ucell)).len() <= updates.len(),
        forall|i: int|
            0 <= i < updates.len() && updates[i].cell@ != ucell ==> updates.filter(
                keeps(ucell),
            ).contains(#[trigger] updates[i]),
{
    updates.lemma_filter_len(keeps(ucell));
    assert forall|i: int|
        0 <= i < updates.filter(keeps(ucell)).len() implies #[trigger] updates.filter(
        keeps(ucell),
    )[i].cell@ != ucell by {
        updates.lemma_filter_pred(keeps(ucell), i);
    }
    assert forall|i: int|
        0 <= i < updates.len() && updates[i].cell@ != ucell implies updates.filter(
        keeps(ucell),
    ).contains(#[trigger] updates[i]) by {
        updates.lemma_filter_contains(keeps(ucell), i);
    }
}

impl UpdateQueue {
    /// An empty queue for the component.
    pub fn init(component: String) -> (r: Self)
        ensures
            r.component == component,
            r.updates@.len() == 0,
    {
        Self { component: component, updates: Vec::new() }
    }

    /// Queues the update of a cell that is not combinational: a register
    /// gets an update with no intermediate variables; a square root gets none.
    pub fn init_cells(
        self,
        cell: &Id,
        inputs: Vec<Id>,
        outputs: Vec<Id>,
        env: Environment,
    ) -> (r: Self)
        requires
            env@.has_cell(self.component@, cell@),
            env@.cells[(self.component@, cell@)] == Some("std_reg"@) || env@.cells[(
                self.component@,
                cell@,
            )] == Some("std_sqrt"@),
        ensures
            r.component == self.component,
            env@.cells[(self.component@, cell@)] == Some("std_reg"@) ==> {
                &&& r.updates@.len() == self.updates@.len() + 1
                &&& r.updates@.take(self.updates@.len() as int) == self.updates@
                &&& r.updates@.last().cell@ == cell@
                &&& r.updates@.last().inputs == inputs
                &&& r.updates@.last().outputs == outputs
                &&& r.updates@.last().vars@ == Map::<String, u64>::empty()
            },
            env@.cells[(self.component@, cell@)] != Some("std_reg"@) ==> r.updates == self.updates,
    {
        let mut this = self;
        let comp = Id::from_string(this.component.clone());
        let cell_r = env.get_cell(&comp, cell);
        let ct = match cell_r {
            Some(c) => match c.prototype_name() {
                Some(t) => t,
                None => return this,
            },
            None => return this,
        };
        if ct.is("std_reg") {
            let map: HashMap<String, u64> = HashMap::new();
            let ghost before = this.updates@;
            this.add_update(cell.copy(), inputs, outputs, map);
            assert(this.updates@.take(before.len() as int) =~= before);
        }
        this
    }

    /// Adds an update to the end of the queue.
    pub fn add_update(
        &mut self,
        ucell: Id,
        uinput: Vec<Id>,
        uoutput: Vec<Id>,
        uvars: HashMap<String, u64>,
    )
        ensures
            final(self).component == old(self).component,
            final(self).updates@ == old(self).updates@.push(
                (Update { cell: ucell, inputs: uinput, outputs: uoutput, vars: uvars }),
            ),
    {
        let update = Update { cell: ucell, inputs: uinput, outputs: uoutput, vars: uvars };
        self.updates.push(update);
    }

    /// Removes every update of the given cell from the queue.
    pub fn remove_update(&mut self, ucell: &Id)
        ensures
            final(self).component == old(self).component,
            final(self).updates@ == old(self).updates@.filter(keeps(ucell@)),
    {
        let ghost old_u = self.updates@;
        let ghost pred = keeps(ucell@);
        let mut i: usize = self.updates.len();
        assert(old_u.skip(old_u.len() as int).filter(pred) =~= Seq::<Update>::empty()) by {
            reveal(Seq::filter);
        }
        assert(old_u.take(old_u.len() as int) =~= old_u);
        while i > 0
            invariant
                i <= old_u.len(),
                pred == keeps(ucell@),
                self.component == old(self).component,
                self.updates@ == old_u.take(i as int) + old_u.skip(i as int).filter(pred),
            decreases i,
        {
            i = i - 1;
            let ghost x = old_u[i as int];
            let ghost rest = old_u.skip(i + 1).filter(pred);
            proof {
                assert(old_u.skip(i as int) =~= seq![x] + old_u.skip(i + 1));
                Seq::filter_distributes_over_add(seq![x], old_u.skip(i + 1), pred);
                assert(old_u.take(i + 1) =~= old_u.take(i as int).push(x));
                reveal_with_fuel(Seq::filter, 2);
                assert(seq![x].drop_last() =~= Seq::<Update>::empty());
            }
            if self.updates[i].cell.same(ucell) {
                assert(!pred(x));
                assert(seq![x].filter(pred) =~= Seq::<Update>::empty());
                self.updates.remove(i);
                assert(self.updates@ =~= old_u.take(i as int) + old_u.skip(i as int).filter(pred));
            } else {
                assert(pred(x));
                assert(seq![x].filter(pred) =~= seq![x]);
                assert(self.updates@ =~= old_u.take(i as int) + old_u.skip(i as int).filter(pred));
            }
        }
        assert(old_u.take(0) + old_u.skip(0).filter(pred) =~= old_u.filter(pred));
    }

    /// Simulates a clock cycle: performs the queued updates in order.
    pub fn do_tick(self, environment: Environment) -> (r: Result<Environment, Error>)
        requires
            tick_defined(self.updates@, self.component@, environment@),
        ensures
            r is Ok,
            r->Ok_0@ == tick(self.updates@, self.component@, environment@),
    {
        let mut env = environment.clone();
        let mut i: usize = 0;
        assert(self.updates@.skip(0) =~= self.updates@);
        while i < self.updates.len()
            invariant
                i <= self.updates@.len(),
                tick_defined(self.updates@.skip(i as int), self.component@, env@),
                tick(self.updates@.skip(i as int), self.component@, env@) == tick(
                    self.updates@,
                    self.component@,
                    environment@,
                ),
            decreases self.updates@.len() - i,
        {
            let update = &self.updates[i];
            assert(self.updates@.skip(i as int)[0] == self.updates@[i as int]);
            assert(self.updates@.skip(i as int).drop_first() =~= self.updates@.skip(i + 1));
            let updated = update_cell_state(
                &update.cell,
                update.inputs.as_slice(),
                update.outputs.as_slice(),
                &env.clone(),
                Id::from_string(self.component.clone()),
            );
            match updated {
                Ok(e) => {
                    env = e;
                },
                Err(err) => {
                    return Err(err);
                },
            }
            i = i + 1;
        }
        Ok(env)
    }
}

} // verus!
