//! Routines: conditions over the state of the hub that run a list of
//! actions when they come true.

use vstd::prelude::*;

use crate::error::HubError;
use crate::event::{Action, Event};
use crate::expr::{condition_holds, holds, EvalWorld, Expr, ExprContext};
use crate::ids::RoutineId;
use crate::table::{index_of, lemma_index_of_is, lemma_index_of_none};

verus! {

/// A routine.
///
/// Every routine runs when its condition comes true after not having held,
/// and when it is run by force. `edge_trigger` is kept as the configuration
/// gives it and changes nothing in this.
#[derive(Debug, PartialEq, Eq)]
pub struct Routine {
    pub id: RoutineId,
    pub name: String,
    pub condition: Expr,
    pub on_true: Vec<Action>,
    pub edge_trigger: bool,
}

/// The ids of the routines, in order.
pub open spec fn routine_ids(routines: Seq<Routine>) -> Seq<Seq<char>> {
    Seq::new(routines.len(), |i: int| routines[i].id@)
}

/// The position of the routine under `id`.
pub open spec fn routine_index(routines: Seq<Routine>, id: Seq<char>) -> Option<int> {
    index_of(routine_ids(routines), id)
}

/// Whether the id at `j` is the first to have been used before.
pub open spec fn first_repeat(ids: Seq<Seq<char>>, j: int) -> bool {
    &&& exists|i: int| 0 <= i < j && ids[i] == ids[j]
    &&& forall|a: int, b: int| 0 <= a < b < j ==> ids[a] != ids[b]
}

/// Whether a routine runs, given that its condition is `satisfied` now and
/// was `last` satisfied when it was last looked at: it runs on the rising
/// edge of its condition, whatever its `edge_trigger` says.
pub open spec fn fires(satisfied: bool, last: bool) -> bool {
    satisfied && !last
}

/// The events that carry out a routine: one for each of its actions, in
/// order.
pub open spec fn routine_events(r: Routine) -> Seq<Event> {
    Seq::new(
        r.on_true@.len(),
        |j: int| Event::RoutineAction { routine_id: r.id, index: j as usize },
    )
}

/// The events of the routines among the first `n` that run, in order.
pub open spec fn fired_events(w: EvalWorld, routines: Seq<Routine>, flags: Seq<bool>, n: int) -> Seq<
    Event,
>
    decreases n,
{
    if n <= 0 {
        Seq::empty()
    } else {
        let rest = fired_events(w, routines, flags, n - 1);
        let r = routines[n - 1];
        if fires(holds(w, r.condition), flags[n - 1]) {
            rest + routine_events(r)
        } else {
            rest
        }
    }
}

/// For each routine, whether its condition holds.
pub open spec fn satisfied_flags(w: EvalWorld, routines: Seq<Routine>) -> Seq<bool> {
    Seq::new(routines.len(), |i: int| holds(w, routines[i].condition))
}

/// The routines of the hub, each with the mark of whether its condition
/// held when it was last looked at.
pub struct Routines {
    routines: Vec<Routine>,
    last_satisfied: Vec<bool>,
}

fn events_of(r: &Routine) -> (events: Vec<Event>)
    ensures
        events@ == routine_events(*r),
{
    let mut events: Vec<Event> = Vec::new();
    let mut j: usize = 0;
    while j < r.on_true.len()
        invariant
            j <= r.on_true.len(),
            events@.len() == j,
            forall|t: int| 0 <= t < j ==> (#[trigger] events@[t]) == routine_events(*r)[t],
        decreases r.on_true.len() - j,
    {
        events.push(Event::RoutineAction { routine_id: r.id.clone(), index: j });
        j += 1;
    }
    assert(events@ =~= routine_events(*r));
    events
}

impl Routines {
    /// The routines.
    pub closed spec fn routines(&self) -> Seq<Routine> {
        self.routines@
    }

    /// For each routine, whether its condition held when last looked at.
    pub closed spec fn last_satisfied(&self) -> Seq<bool> {
        self.last_satisfied@
    }

    /// There is a mark for each routine, and no two routines share an id.
    pub open spec fn wf(&self) -> bool {
        &&& self.last_satisfied().len() == self.routines().len()
        &&& crate::table::distinct(routine_ids(self.routines()))
    }

    /// No routines.
    pub fn empty() -> (r: Routines)
        ensures
            r.wf(),
            r.routines() == Seq::<Routine>::empty(),
            r.last_satisfied() == Seq::<bool>::empty(),
    {
        Routines { routines: Vec::new(), last_satisfied: Vec::new() }
    }

    /// Takes the routines, no two of which may share an id: the first
    /// routine whose id was used before is reported. No condition counts as
    /// having held.
    pub fn new(routines: Vec<Routine>) -> (r: Result<Routines, HubError>)
        ensures
            match r {
                Ok(r) => crate::table::distinct(routine_ids(routines@)) && r.wf() && r.routines()
                    == routines@ && r.last_satisfied() == Seq::new(
                    routines@.len(),
                    |i: int| false,
                ),
                Err(e) => exists|j: int|
                    0 <= j < routines@.len() && #[trigger] first_repeat(routine_ids(routines@), j)
                        && e == HubError::DuplicateRoutine(routines@[j].id),
            },
    {
        let mut flags: Vec<bool> = Vec::new();
        let mut j: usize = 0;
        while j < routines.len()
            invariant
                j <= routines.len(),
                flags@ == Seq::new(j as nat, |t: int| false),
                forall|a: int, b: int|
                    0 <= a < b < j ==> routine_ids(routines@)[a] != routine_ids(routines@)[b],
            decreases routines.len() - j,
        {
            let mut i: usize = 0;
            while i < j
                invariant
                    i <= j,
                    j < routines.len(),
                    forall|a: int, b: int|
                        0 <= a < b < j ==> routine_ids(routines@)[a] != routine_ids(routines@)[b],
                    forall|a: int|
                        0 <= a < i ==> routine_ids(routines@)[a] != routine_ids(routines@)[j as int],
                decreases j - i,
            {
                if routines[i].id.same(&routines[j].id) {
                    let e = HubError::DuplicateRoutine(routines[j].id.clone());
                    assert(routine_ids(routines@)[i as int] == routine_ids(routines@)[j as int]);
                    assert(first_repeat(routine_ids(routines@), j as int));
                    return Err(e);
                }
                i += 1;
            }
            flags.push(false);
            j += 1;
            assert(flags@ =~= Seq::new(j as nat, |t: int| false));
        }
        Ok(Routines { routines, last_satisfied: flags })
    }

    /// Looks at every condition in `ctx`, marks whether it holds, and
    /// returns the events of the routines that run. A condition that cannot
    /// be evaluated does not hold.
    pub fn handle_internal_state_update(&mut self, ctx: &ExprContext) -> (events: Vec<Event>)
        requires
            old(self).wf(),
        ensures
            final(self).wf(),
            final(self).routines() == old(self).routines(),
            final(self).last_satisfied() == satisfied_flags(ctx@, old(self).routines()),
            events@ == fired_events(
                ctx@,
                old(self).routines(),
                old(self).last_satisfied(),
                old(self).routines().len() as int,
            ),
    {
        let ghost flags0 = self.last_satisfied@;
        let mut events: Vec<Event> = Vec::new();
        let mut i: usize = 0;
        while i < self.routines.len()
            invariant
                i <= self.routines.len(),
                self.routines@ == old(self).routines@,
                self.last_satisfied@.len() == self.routines@.len(),
                flags0 == old(self).last_satisfied@,
                forall|t: int|
                    0 <= t < i ==> self.last_satisfied@[t] == holds(
                        ctx@,
                        self.routines@[t].condition,
                    ),
                forall|t: int| i <= t < self.routines@.len() ==> self.last_satisfied@[t] == flags0[t],
                events@ == fired_events(ctx@, self.routines@, flags0, i as int),
            decreases self.routines.len() - i,
        {
            let r = &self.routines[i];
            let satisfied = condition_holds(ctx, &r.condition);
            if satisfied && !self.last_satisfied[i] {
                let mut more = events_of(r);
                events.append(&mut more);
            }
            self.last_satisfied.set(i, satisfied);
            i += 1;
        }
        assert(self.last_satisfied@ =~= satisfied_flags(ctx@, self.routines@));
        events
    }

    /// The events that carry out the routine under `id`, whatever its
    /// condition. No mark is touched.
    pub fn force_trigger_routine(&self, id: &RoutineId) -> (r: Result<Vec<Event>, HubError>)
        ensures
            match r {
                Ok(events) => routine_index(self.routines(), id@) matches Some(i) && events@
                    == routine_events(self.routines()[i]),
                Err(e) => routine_index(self.routines(), id@) is None && e
                    == HubError::UnknownRoutine(*id),
            },
    {
        match self.find(id) {
            Some(i) => Ok(events_of(&self.routines[i])),
            None => Err(HubError::UnknownRoutine(id.clone())),
        }
    }

    /// The position of the routine under `id`.
    pub fn find(&self, id: &RoutineId) -> (r: Option<usize>)
        ensures
            match r {
                Some(i) => routine_index(self.routines(), id@) == Some(i as int) && i
                    < self.routines().len(),
                None => routine_index(self.routines(), id@) is None,
            },
    {
        let mut i: usize = 0;
        while i < self.routines.len()
            invariant
                i <= self.routines.len(),
                forall|j: int| 0 <= j < i ==> routine_ids(self.routines@)[j] != id@,
            decreases self.routines.len() - i,
        {
            if self.routines[i].id.same(id) {
                proof {
                    lemma_index_of_is(routine_ids(self.routines@), id@, i as int);
                }
                return Some(i);
            }
            i += 1;
        }
        proof {
            lemma_index_of_none(routine_ids(self.routines@), id@);
        }
        None
    }

    /// The action at `index` of the routine under `id`.
    pub fn action_at(&self, id: &RoutineId, index: usize) -> (r: Option<&Action>)
        ensures
            match r {
                Some(a) => routine_index(self.routines(), id@) matches Some(i) && index
                    < self.routines()[i].on_true@.len() && *a
                    == self.routines()[i].on_true@[index as int],
                None => routine_index(self.routines(), id@) matches Some(i) ==> index
                    >= self.routines()[i].on_true@.len(),
            },
    {
        match self.find(id) {
            Some(i) => {
                if index < self.routines[i].on_true.len() {
                    Some(&self.routines[i].on_true[index])
                } else {
                    None
                }
            },
            None => None,
        }
    }

    /// Whether the condition of the routine at `i` held when last looked
    /// at.
    pub fn was_satisfied(&self, i: usize) -> (b: bool)
        requires
            self.wf(),
            i < self.routines().len(),
        ensures
            b == self.last_satisfied()[i as int],
    {
        self.last_satisfied[i]
    }
}

/// Whether the event starts a run of the routine under `id`: it carries
/// out the first of its actions.
pub open spec fn starts_run(e: Event, id: Seq<char>) -> bool {
    e matches Event::RoutineAction { routine_id, index } && routine_id@ == id && index == 0
}

/// How many runs of the routine under `id` the events start.
pub open spec fn runs_in(events: Seq<Event>, id: Seq<char>) -> nat
    decreases events.len(),
{
    if events.len() == 0 {
        0
    } else {
        runs_in(events.drop_last(), id) + if starts_run(events.last(), id) {
            1nat
        } else {
            0nat
        }
    }
}

/// One step in the life of the routines: the conditions were looked at in
/// a snapshot, or the routine under an id was run by force.
pub enum RoutineStep {
    Looked(EvalWorld),
    Forced(Seq<char>),
}

/// The marks after the first `n` steps: a look marks every routine whose
/// condition holds, a forced run leaves the marks alone.
pub open spec fn marks_after(routines: Seq<Routine>, marks: Seq<bool>, steps: Seq<RoutineStep>, n: int) -> Seq<
    bool,
>
    decreases n,
{
    if n <= 0 {
        marks
    } else {
        match steps[n - 1] {
            RoutineStep::Looked(w) => satisfied_flags(w, routines),
            RoutineStep::Forced(_) => marks_after(routines, marks, steps, n - 1),
        }
    }
}

/// The events a step leads to, given the marks before it.
pub open spec fn step_events(routines: Seq<Routine>, marks: Seq<bool>, step: RoutineStep) -> Seq<
    Event,
> {
    match step {
        RoutineStep::Looked(w) => fired_events(w, routines, marks, routines.len() as int),
        RoutineStep::Forced(id) => match routine_index(routines, id) {
            Some(i) => routine_events(routines[i]),
            None => Seq::empty(),
        },
    }
}

/// How often the routine under `id` runs over the first `n` steps.
pub open spec fn run_count(
    routines: Seq<Routine>,
    marks: Seq<bool>,
    steps: Seq<RoutineStep>,
    n: int,
    id: Seq<char>,
) -> nat
    decreases n,
{
    if n <= 0 {
        0
    } else {
        run_count(routines, marks, steps, n - 1, id) + runs_in(
            step_events(routines, marks_after(routines, marks, steps, n - 1), steps[n - 1]),
            id,
        )
    }
}

/// How often, over the first `n` steps, the condition of the routine at
/// `i` was found to hold after not having held.
pub open spec fn rising_edges(
    routines: Seq<Routine>,
    marks: Seq<bool>,
    steps: Seq<RoutineStep>,
    n: int,
    i: int,
) -> nat
    decreases n,
{
    if n <= 0 {
        0
    } else {
        rising_edges(routines, marks, steps, n - 1, i) + match steps[n - 1] {
            RoutineStep::Looked(w) => if holds(w, routines[i].condition) && !marks_after(
                routines,
                marks,
                steps,
                n - 1,
            )[i] {
                1nat
            } else {
                0nat
            },
            RoutineStep::Forced(_) => 0nat,
        }
    }
}

/// How many of the first `n` steps ran the routine under `id` by force.
pub open spec fn forced_count(steps: Seq<RoutineStep>, n: int, id: Seq<char>) -> nat
    decreases n,
{
    if n <= 0 {
        0
    } else {
        forced_count(steps, n - 1, id) + match steps[n - 1] {
            RoutineStep::Looked(_) => 0nat,
            RoutineStep::Forced(forced) => if forced == id {
                1nat
            } else {
                0nat
            },
        }
    }
}

/// The runs that two lists of events start are those of the one and those
/// of the other.
proof fn lemma_runs_in_both(a: Seq<Event>, b: Seq<Event>, id: Seq<char>)
    ensures
        runs_in(a + b, id) == runs_in(a, id) + runs_in(b, id),
    decreases b.len(),
{
    if b.len() == 0 {
        assert(a + b =~= a);
    } else {
        lemma_runs_in_both(a, b.drop_last(), id);
        assert((a + b).drop_last() =~= a + b.drop_last());
        assert((a + b).last() == b.last());
    }
}

/// The first `m` events of a routine.
spec fn first_events(r: Routine, m: int) -> Seq<Event> {
    Seq::new(m as nat, |j: int| Event::RoutineAction { routine_id: r.id, index: j as usize })
}

/// The first events of a routine start one run of it, if there are any,
/// and none of any other routine.
proof fn lemma_first_events(r: Routine, m: int, id: Seq<char>)
    requires
        0 <= m <= usize::MAX,
    ensures
        runs_in(first_events(r, m), id) == if r.id@ == id && m > 0 {
            1nat
        } else {
            0nat
        },
    decreases m,
{
    if m > 0 {
        lemma_first_events(r, m - 1, id);
        assert(first_events(r, m).drop_last() =~= first_events(r, m - 1));
        assert(first_events(r, m).last() == Event::RoutineAction {
            routine_id: r.id,
            index: (m - 1) as usize,
        });
    }
}

/// The events of a routine start one run of it, if it has actions, and
/// none of any other routine.
proof fn lemma_routine_events(r: Routine, id: Seq<char>)
    ensures
        runs_in(routine_events(r), id) == if r.id@ == id && r.on_true@.len() > 0 {
            1nat
        } else {
            0nat
        },
{
    vstd::std_specs::vec::axiom_spec_len(&r.on_true);
    lemma_first_events(r, r.on_true@.len() as int, id);
    assert(routine_events(r) =~= first_events(r, r.on_true@.len() as int));
}

/// Among the events of a look, the routine at `i` has a run exactly where
/// its condition has come true.
proof fn lemma_fired_events(w: EvalWorld, routines: Seq<Routine>, marks: Seq<bool>, n: int, i: int)
    requires
        crate::table::distinct(routine_ids(routines)),
        0 <= n <= routines.len(),
        0 <= i < routines.len(),
        routines[i].on_true@.len() > 0,
    ensures
        runs_in(fired_events(w, routines, marks, n), routines[i].id@) == if i < n && fires(
            holds(w, routines[i].condition),
            marks[i],
        ) {
            1nat
        } else {
            0nat
        },
    decreases n,
{
    if n > 0 {
        lemma_fired_events(w, routines, marks, n - 1, i);
        let rest = fired_events(w, routines, marks, n - 1);
        let r = routines[n - 1];
        lemma_runs_in_both(rest, routine_events(r), routines[i].id@);
        lemma_routine_events(r, routines[i].id@);
        if n - 1 != i {
            if n - 1 < i {
                assert(routine_ids(routines)[n - 1] != routine_ids(routines)[i]);
            } else {
                assert(routine_ids(routines)[i] != routine_ids(routines)[n - 1]);
            }
        }
    }
}

/// Where no two routines share an id, a routine that has actions runs as
/// often as its condition came true after not having held, plus as often as
/// it was run by force, whatever the steps.
pub proof fn runs_are_edges_and_forced(
    routines: Seq<Routine>,
    marks: Seq<bool>,
    steps: Seq<RoutineStep>,
    n: int,
    i: int,
)
    requires
        crate::table::distinct(routine_ids(routines)),
        marks.len() == routines.len(),
        0 <= n <= steps.len(),
        0 <= i < routines.len(),
        routines[i].on_true@.len() > 0,
    ensures
        marks_after(routines, marks, steps, n).len() == routines.len(),
        run_count(routines, marks, steps, n, routines[i].id@) == rising_edges(
            routines,
            marks,
            steps,
            n,
            i,
        ) + forced_count(steps, n, routines[i].id@),
    decreases n,
{
    if n > 0 {
        runs_are_edges_and_forced(routines, marks, steps, n - 1, i);
        let before = marks_after(routines, marks, steps, n - 1);
        let id = routines[i].id@;
        match steps[n - 1] {
            RoutineStep::Looked(w) => {
                lemma_fired_events(w, routines, before, routines.len() as int, i);
            },
            RoutineStep::Forced(forced) => {
                crate::table::lemma_first_index(routine_ids(routines), forced, 0);
                match routine_index(routines, forced) {
                    Some(j) => {
                        lemma_routine_events(routines[j], id);
                        if j != i && forced == id {
                            if j < i {
                                assert(routine_ids(routines)[j] != routine_ids(routines)[i]);
                            } else {
                                assert(routine_ids(routines)[i] != routine_ids(routines)[j]);
                            }
                        }
                    },
                    None => {
                        assert(routine_ids(routines)[i] != forced);
                    },
                }
            },
        }
    }
}

} // verus!
