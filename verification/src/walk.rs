//! The bookkeeping of a walk over a directory tree: which units of work
//! exist, how far each has come, how many hold a permit to read a
//! directory, and what the one who waits for the walk has already taken up.
//!
//! Nothing here reads a directory or waits. The caller does that, tells the
//! walk what happened, and is told what to do next.

use vstd::prelude::*;
use crate::filter::AddToGithub;
use crate::filter::Filter;
use crate::paths::path_file_name;

verus! {

/// How far a unit of work, the traversal of one directory, has come.
#[derive(Clone, Copy, Debug, PartialEq, Eq, Structural)]
pub enum Phase {
    /// Known to the walk, not yet allowed to read its directory.
    Registered,
    /// Holds a permit.
    Permitted,
    /// Holds a permit and reads the entries of its directory.
    Scanning,
    /// Has given its permit back and deals with the entries one by one.
    Dispatching,
    /// Done, with or without a failure.
    Completed,
}

/// What happened to a unit.
#[derive(Clone, Copy, Debug, PartialEq, Eq, Structural)]
pub enum Event {
    /// The unit asks for a permit.
    PermitRequested,
    /// The unit has begun to read its directory.
    ScanStarted,
    /// The directory's entries were read.
    ScanSucceeded,
    /// Every entry was dealt with.
    EntriesDone,
    /// Reading the directory, or dealing with an entry, failed.
    Failed,
}

/// What the caller is to do next for a unit.
#[derive(Clone, Copy, Debug, PartialEq, Eq, Structural)]
pub enum Action {
    /// No permit is free: ask again once one was given back.
    AwaitPermit,
    /// The permit is granted: begin to read the directory.
    StartScan,
    /// Read the directory's entries.
    ReadEntries,
    /// The permit is given back: deal with the entries.
    DispatchEntries,
    /// The unit is done.
    Finish,
    /// The unit is done after a failure: report it, once.
    Diagnose,
    /// The event does not fit the unit's phase, or there is no such unit:
    /// nothing changed.
    Rejected,
}

/// What an entry of a directory is, as far as the walk cares.
#[derive(Clone, Copy, Debug, PartialEq, Eq, Structural)]
pub enum EntryKind {
    /// Not a directory.
    NotDirectory,
    /// A directory that qualifies as a repository to report.
    Repository,
    /// Any other directory.
    Directory,
}

/// What the caller is to do with an entry.
#[derive(Clone, Copy, Debug, PartialEq, Eq, Structural)]
pub enum EntryAction {
    /// Nothing.
    Skip,
    /// Report the repository, within the current unit.
    Report,
    /// Start the unit with this number, registered just now, for the
    /// directory, and do not wait for it.
    Spawn(usize),
    /// The unit is not dealing with entries, or no further unit can be
    /// numbered: nothing changed.
    Rejected,
}

/// What is counted over the units of a walk.
#[derive(Clone, Copy, Debug, PartialEq, Eq, Structural)]
pub enum Counted {
    /// The units that hold a permit.
    PermitHolders,
    /// The units that are not completed.
    Outstanding,
}

/// Whether a unit in phase `phase` holds a permit.
pub open spec fn holds_permit(phase: Phase) -> bool {
    phase == Phase::Permitted || phase == Phase::Scanning
}

/// Whether a unit in phase `phase` is outstanding.
pub open spec fn is_outstanding(phase: Phase) -> bool {
    phase != Phase::Completed
}

/// Whether a unit in phase `phase` is among what `what` counts.
pub open spec fn counts(phase: Phase, what: Counted) -> bool {
    match what {
        Counted::PermitHolders => holds_permit(phase),
        Counted::Outstanding => is_outstanding(phase),
    }
}

/// One if a unit in phase `phase` is counted, else zero.
pub open spec fn weight(phase: Phase, what: Counted) -> nat {
    if counts(phase, what) {
        1
    } else {
        0
    }
}

/// The number of units among `phases` that `what` counts.
pub open spec fn tally(phases: Seq<Phase>, what: Counted) -> nat
    decreases phases.len(),
{
    if phases.len() == 0 {
        0
    } else {
        tally(phases.drop_last(), what) + weight(phases.last(), what)
    }
}

/// The number of permits that the units in `phases` hold.
pub open spec fn permits_held(phases: Seq<Phase>) -> nat {
    tally(phases, Counted::PermitHolders)
}

/// The number of outstanding units in `phases`.
pub open spec fn outstanding(phases: Seq<Phase>) -> nat {
    tally(phases, Counted::Outstanding)
}

/// The phase that a unit in `phase` enters on `event`, and what its caller
/// is to do. `permit_free` says whether a permit can be granted.
pub open spec fn transition(phase: Phase, event: Event, permit_free: bool) -> (Phase, Action) {
    match (phase, event) {
        (Phase::Registered, Event::PermitRequested) => if permit_free {
            (Phase::Permitted, Action::StartScan)
        } else {
            (Phase::Registered, Action::AwaitPermit)
        },
        (Phase::Permitted, Event::ScanStarted) => (Phase::Scanning, Action::ReadEntries),
        (Phase::Permitted, Event::Failed) => (Phase::Completed, Action::Diagnose),
        (Phase::Scanning, Event::ScanSucceeded) => (Phase::Dispatching, Action::DispatchEntries),
        (Phase::Scanning, Event::Failed) => (Phase::Completed, Action::Diagnose),
        (Phase::Dispatching, Event::EntriesDone) => (Phase::Completed, Action::Finish),
        (Phase::Dispatching, Event::Failed) => (Phase::Completed, Action::Diagnose),
        _ => (phase, Action::Rejected),
    }
}

/// The greater of two numbers.
pub open spec fn greater(a: nat, b: nat) -> nat {
    if a >= b {
        a
    } else {
        b
    }
}

/// A walk as its contracts see it.
pub struct WalkState {
    /// The number of permits that exist.
    pub capacity: nat,
    /// The phase of every unit registered so far, by the unit's number.
    pub phases: Seq<Phase>,
    /// The number of units that the one who waits has taken up: those
    /// numbered below it.
    pub taken: nat,
    /// The greatest number of units that were outstanding at one time.
    pub peak: nat,
}

/// The state of a walk, shared by its units and by the one who waits for it.
pub struct Walk {
    capacity: usize,
    held: usize,
    active: usize,
    peak: usize,
    taken: usize,
    phases: Vec<Phase>,
}

impl View for Walk {
    type V = WalkState;

    closed spec fn view(&self) -> WalkState {
        WalkState {
            capacity: self.capacity as nat,
            phases: self.phases@,
            taken: self.taken as nat,
            peak: self.peak as nat,
        }
    }
}

/// Appending a unit adds its weight to the count.
pub proof fn lemma_tally_push(phases: Seq<Phase>, phase: Phase, what: Counted)
    ensures
        tally(phases.push(phase), what) == tally(phases, what) + weight(phase, what),
{
    assert(phases.push(phase).drop_last() =~= phases);
}

/// Moving one unit to another phase changes the count by the difference of
/// the two weights, and by nothing else.
pub proof fn lemma_tally_update(phases: Seq<Phase>, unit: int, phase: Phase, what: Counted)
    requires
        0 <= unit < phases.len(),
    ensures
        tally(phases.update(unit, phase), what) + weight(phases[unit], what) == tally(phases, what)
            + weight(phase, what),
    decreases phases.len(),
{
    let moved = phases.update(unit, phase);
    if unit == phases.len() - 1 {
        assert(moved.drop_last() =~= phases.drop_last());
    } else {
        lemma_tally_update(phases.drop_last(), unit, phase, what);
        assert(moved.drop_last() =~= phases.drop_last().update(unit, phase));
    }
}

/// No count exceeds the number of units, and no more units hold a permit
/// than are outstanding.
pub proof fn lemma_tally_bounds(phases: Seq<Phase>)
    ensures
        permits_held(phases) <= outstanding(phases) <= phases.len(),
    decreases phases.len(),
{
    if phases.len() > 0 {
        lemma_tally_bounds(phases.drop_last());
    }
}

/// No unit is outstanding exactly when every unit is completed.
pub proof fn lemma_none_outstanding(phases: Seq<Phase>)
    ensures
        outstanding(phases) == 0 <==> forall|unit: int|
            0 <= unit < phases.len() ==> #[trigger] phases[unit] == Phase::Completed,
    decreases phases.len(),
{
    if phases.len() > 0 {
        let front = phases.drop_last();
        lemma_none_outstanding(front);
        if outstanding(phases) == 0 {
            assert forall|unit: int| 0 <= unit < phases.len() implies #[trigger] phases[unit]
                == Phase::Completed by {
                if unit < front.len() {
                    assert(front[unit] == phases[unit]);
                }
            }
        }
        if forall|unit: int| 0 <= unit < phases.len() ==> #[trigger] phases[unit] == Phase::Completed {
            assert forall|unit: int| 0 <= unit < front.len() implies #[trigger] front[unit]
                == Phase::Completed by {
                assert(front[unit] == phases[unit]);
            }
            assert(phases.last() == phases[phases.len() - 1]);
        }
    }
}

impl Walk {
    /// The counters agree with the phases, no more permits are held than
    /// exist, and the peak is no less than what is outstanding. Every walk
    /// that exists is well formed.
    pub closed spec fn well_formed(&self) -> bool {
        &&& self.held == permits_held(self.phases@)
        &&& self.active == outstanding(self.phases@)
        &&& self.held <= self.capacity
        &&& self.active <= self.peak
        &&& self.peak <= self.phases.len()
        &&& self.taken <= self.phases.len()
    }

    #[verifier::type_invariant]
    spec fn always(&self) -> bool {
        self.well_formed()
    }

    /// A walk without units, with `capacity` permits.
    pub fn new(capacity: usize) -> (walk: Self)
        ensures
            walk.well_formed(),
            walk@ == (WalkState { capacity: capacity as nat, phases: Seq::empty(), taken: 0, peak: 0 }),
    {
        Walk { capacity, held: 0, active: 0, peak: 0, taken: 0, phases: Vec::new() }
    }

    /// The number of permits that exist.
    pub fn capacity(&self) -> (n: usize)
        ensures
            n == self@.capacity,
    {
        self.capacity
    }

    /// The number of permits that are held. It never exceeds the capacity.
    pub fn permits_held(&self) -> (n: usize)
        ensures
            n == permits_held(self@.phases),
            n <= self@.capacity,
    {
        proof {
            use_type_invariant(self);
        }
        self.held
    }

    /// The number of outstanding units. It never exceeds the peak.
    pub fn active(&self) -> (n: usize)
        ensures
            n == outstanding(self@.phases),
            n <= self@.peak,
    {
        proof {
            use_type_invariant(self);
        }
        self.active
    }

    /// The greatest number of units that were outstanding at one time.
    pub fn peak(&self) -> (n: usize)
        ensures
            n == self@.peak,
    {
        self.peak
    }

    /// The number of units registered so far.
    pub fn registered(&self) -> (n: usize)
        ensures
            n == self@.phases.len(),
    {
        self.phases.len()
    }

    /// The phase of the unit numbered `unit`, if there is one.
    pub fn phase(&self, unit: usize) -> (phase: Option<Phase>)
        ensures
            phase == if unit < self@.phases.len() {
                Some(self@.phases[unit as int])
            } else {
                None
            },
    {
        if unit < self.phases.len() {
            Some(self.phases[unit])
        } else {
            None
        }
    }

    /// Whether the walk is over: no unit is outstanding, which is to say
    /// that every unit registered so far is completed.
    pub fn is_settled(&self) -> (settled: bool)
        ensures
            settled == (outstanding(self@.phases) == 0),
            settled == forall|unit: int|
                0 <= unit < self@.phases.len() ==> #[trigger] self@.phases[unit] == Phase::Completed,
    {
        proof {
            use_type_invariant(self);
            lemma_none_outstanding(self.phases@);
        }
        self.active == 0
    }

    /// The walk with one more unit, and the unit's number; the walk as it
    /// was, and `None`, where no further unit can be numbered.
    fn with_unit(self) -> (made: (Self, Option<usize>))
        ensures
            made.0.well_formed(),
            made.0@.capacity == self@.capacity,
            made.0@.taken == self@.taken,
            self@.phases.len() < usize::MAX ==> made.1 == Some(self@.phases.len() as usize)
                && made.0@.phases == self@.phases.push(Phase::Registered) && made.0@.peak == greater(
                self@.peak,
                outstanding(self@.phases) + 1,
            ),
            self@.phases.len() >= usize::MAX ==> made.1.is_none() && made.0@ == self@,
    {
        proof {
            use_type_invariant(&self);
        }
        if self.phases.len() == usize::MAX {
            return (self, None);
        }
        let Walk { capacity, held, active, peak, taken, mut phases } = self;
        proof {
            lemma_tally_push(phases@, Phase::Registered, Counted::PermitHolders);
            lemma_tally_push(phases@, Phase::Registered, Counted::Outstanding);
            lemma_tally_bounds(phases@);
        }
        let unit = phases.len();
        phases.push(Phase::Registered);
        let active = active + 1;
        let peak = if active > peak {
            active
        } else {
            peak
        };
        (Walk { capacity, held, active, peak, taken, phases }, Some(unit))
    }

    /// The walk after `event` happened to the unit numbered `unit`, and
    /// what to do next.
    fn after(self, unit: usize, event: Event) -> (made: (Self, Action))
        ensures
            made.0.well_formed(),
            made.0@.capacity == self@.capacity,
            made.0@.taken == self@.taken,
            made.0@.peak == self@.peak,
            unit >= self@.phases.len() ==> made.1 == Action::Rejected && made.0@ == self@,
            unit < self@.phases.len() ==> {
                let free = permits_held(self@.phases) < self@.capacity;
                let next = transition(self@.phases[unit as int], event, free);
                &&& made.1 == next.1
                &&& made.0@.phases == self@.phases.update(unit as int, next.0)
            },
    {
        proof {
            use_type_invariant(&self);
        }
        if unit >= self.phases.len() {
            return (self, Action::Rejected);
        }
        let Walk { capacity, held, active, peak, taken, mut phases } = self;
        let phase = phases[unit];
        let free = held < capacity;
        let (next, action) = match (phase, event) {
            (Phase::Registered, Event::PermitRequested) => if free {
                (Phase::Permitted, Action::StartScan)
            } else {
                (Phase::Registered, Action::AwaitPermit)
            },
            (Phase::Permitted, Event::ScanStarted) => (Phase::Scanning, Action::ReadEntries),
            (Phase::Permitted, Event::Failed) => (Phase::Completed, Action::Diagnose),
            (Phase::Scanning, Event::ScanSucceeded) => (Phase::Dispatching, Action::DispatchEntries),
            (Phase::Scanning, Event::Failed) => (Phase::Completed, Action::Diagnose),
            (Phase::Dispatching, Event::EntriesDone) => (Phase::Completed, Action::Finish),
            (Phase::Dispatching, Event::Failed) => (Phase::Completed, Action::Diagnose),
            _ => (phase, Action::Rejected),
        };
        proof {
            lemma_tally_update(phases@, unit as int, next, Counted::PermitHolders);
            lemma_tally_update(phases@, unit as int, next, Counted::Outstanding);
            lemma_tally_bounds(phases@.update(unit as int, next));
        }
        let held_before = holds(phase);
        let held_after = holds(next);
        let held = if held_before && !held_after {
            held - 1
        } else if !held_before && held_after {
            held + 1
        } else {
            held
        };
        let active = if !is_completed(phase) && is_completed(next) {
            active - 1
        } else {
            active
        };
        phases.set(unit, next);
        (Walk { capacity, held, active, peak, taken, phases }, action)
    }

    /// Takes the walk out of `self`, leaving one without units behind.
    fn take(&mut self) -> (walk: Self)
        ensures
            walk == *old(self),
    {
        let mut walk = Walk::new(0);
        std::mem::swap(self, &mut walk);
        walk
    }

    /// Registers a unit and gives its number: the new unit is outstanding
    /// from now on, before it runs. `None`, with nothing changed, where no
    /// further unit can be numbered.
    pub fn register(&mut self) -> (unit: Option<usize>)
        ensures
            final(self).well_formed(),
            final(self)@.capacity == old(self)@.capacity,
            final(self)@.taken == old(self)@.taken,
            old(self)@.phases.len() < usize::MAX ==> unit == Some(old(self)@.phases.len() as usize)
                && final(self)@.phases == old(self)@.phases.push(Phase::Registered) && final(self)@.peak
                == greater(old(self)@.peak, outstanding(old(self)@.phases) + 1),
            old(self)@.phases.len() >= usize::MAX ==> unit.is_none() && final(self)@ == old(self)@,
    {
        let (walk, unit) = self.take().with_unit();
        *self = walk;
        unit
    }

    /// Tells the walk that `event` happened to the unit numbered `unit`,
    /// and gives what to do next. The unit moves as `transition` says, a
    /// permit being free while fewer are held than exist; no other unit
    /// changes.
    pub fn step(&mut self, unit: usize, event: Event) -> (action: Action)
        ensures
            final(self).well_formed(),
            final(self)@.capacity == old(self)@.capacity,
            final(self)@.taken == old(self)@.taken,
            final(self)@.peak == old(self)@.peak,
            unit >= old(self)@.phases.len() ==> action == Action::Rejected && final(self)@ == old(self)@,
            unit < old(self)@.phases.len() ==> {
                let free = permits_held(old(self)@.phases) < old(self)@.capacity;
                let next = transition(old(self)@.phases[unit as int], event, free);
                &&& action == next.1
                &&& final(self)@.phases == old(self)@.phases.update(unit as int, next.0)
            },
    {
        let (walk, action) = self.take().after(unit, event);
        *self = walk;
        action
    }

    /// Decides what becomes of one entry of the directory that the unit
    /// numbered `unit` is dealing with. A repository is reported within the
    /// unit. For any other directory a unit is registered, to be started
    /// without waiting for it. Anything else is skipped.
    pub fn dispatch_entry(&mut self, unit: usize, kind: EntryKind) -> (action: EntryAction)
        ensures
            final(self).well_formed(),
            final(self)@.capacity == old(self)@.capacity,
            final(self)@.taken == old(self)@.taken,
            action == entry_action(old(self)@.phases, unit, kind),
            action is Spawn ==> final(self)@.phases == old(self)@.phases.push(Phase::Registered)
                && final(self)@.peak == greater(old(self)@.peak, outstanding(old(self)@.phases) + 1),
            !(action is Spawn) ==> final(self)@ == old(self)@,
    {
        proof {
            use_type_invariant(&*self);
        }
        let dispatching = match self.phase(unit) {
            Some(Phase::Dispatching) => true,
            _ => false,
        };
        if !dispatching {
            return EntryAction::Rejected;
        }
        match kind {
            EntryKind::NotDirectory => EntryAction::Skip,
            EntryKind::Repository => EntryAction::Report,
            EntryKind::Directory => match self.register() {
                Some(child) => EntryAction::Spawn(child),
                None => EntryAction::Rejected,
            },
        }
    }

    /// Takes up the units registered since the last round, for the one who
    /// waits for the walk: the numbers from the first of the pair up to,
    /// not including, the second. The round is empty exactly when no unit
    /// was registered since the last one.
    pub fn take_round(&mut self) -> (round: (usize, usize))
        ensures
            final(self).well_formed(),
            round.0 == old(self)@.taken,
            round.1 == old(self)@.phases.len(),
            round.0 <= round.1,
            final(self)@ == (WalkState { taken: old(self)@.phases.len(), ..old(self)@ }),
    {
        proof {
            use_type_invariant(&*self);
        }
        let first = self.taken;
        let end = self.phases.len();
        self.taken = end;
        (first, end)
    }
}

/// What becomes of an entry of kind `kind` in the directory of the unit
/// numbered `unit`.
pub open spec fn entry_action(phases: Seq<Phase>, unit: usize, kind: EntryKind) -> EntryAction {
    if unit >= phases.len() || phases[unit as int] != Phase::Dispatching {
        EntryAction::Rejected
    } else {
        match kind {
            EntryKind::NotDirectory => EntryAction::Skip,
            EntryKind::Repository => EntryAction::Report,
            EntryKind::Directory => if phases.len() < usize::MAX {
                EntryAction::Spawn(phases.len() as usize)
            } else {
                EntryAction::Rejected
            },
        }
    }
}

/// The kind of an entry, given whether it is a directory and, if it is,
/// whether it qualifies as a repository to report.
pub open spec fn kind_of(is_dir: bool, qualifies: bool) -> EntryKind {
    if !is_dir {
        EntryKind::NotDirectory
    } else if qualifies {
        EntryKind::Repository
    } else {
        EntryKind::Directory
    }
}

/// The kind of an entry, given whether it is a directory and, if it is,
/// whether it qualifies as a repository to report.
pub fn entry_kind(is_dir: bool, qualifies: bool) -> (kind: EntryKind)
    ensures
        kind == kind_of(is_dir, qualifies),
{
    if !is_dir {
        EntryKind::NotDirectory
    } else if qualifies {
        EntryKind::Repository
    } else {
        EntryKind::Directory
    }
}

/// The kind of the entry at `path`. The filter is asked only about a
/// directory; one that it passes over by name is walked like any other.
pub fn classify_entry(filter: &AddToGithub, path: &str, is_dir: bool) -> (kind: EntryKind)
    ensures
        !is_dir ==> kind == EntryKind::NotDirectory,
        is_dir ==> kind != EntryKind::NotDirectory,
        is_dir && filter.blocks(path_file_name(path@)) ==> kind == EntryKind::Directory,
{
    if is_dir {
        let qualifies = filter.filter(path);
        entry_kind(true, qualifies)
    } else {
        EntryKind::NotDirectory
    }
}

/// Whether a unit in phase `phase` holds a permit.
fn holds(phase: Phase) -> (held: bool)
    ensures
        held == holds_permit(phase),
{
    match phase {
        Phase::Permitted => true,
        Phase::Scanning => true,
        _ => false,
    }
}

/// Whether a unit in phase `phase` is completed.
fn is_completed(phase: Phase) -> (done: bool)
    ensures
        done == !is_outstanding(phase),
{
    match phase {
        Phase::Completed => true,
        _ => false,
    }
}

/// In every state of a walk no more permits are held than exist, no more
/// units are outstanding than the peak says, and no more units were taken
/// up than were registered.
pub proof fn lemma_ceiling(walk: Walk)
    requires
        walk.well_formed(),
    ensures
        permits_held(walk@.phases) <= walk@.capacity,
        outstanding(walk@.phases) <= walk@.peak <= walk@.phases.len(),
        walk@.taken <= walk@.phases.len(),
{
}

/// When a round comes back empty and every unit taken up before has been
/// waited for, so that it is completed, no unit is outstanding: the walk
/// is over, whenever its units were registered.
pub proof fn lemma_empty_round_settles(walk: Walk)
    requires
        walk.well_formed(),
        walk@.taken == walk@.phases.len(),
        forall|unit: int| 0 <= unit < walk@.taken ==> #[trigger] walk@.phases[unit] == Phase::Completed,
    ensures
        outstanding(walk@.phases) == 0,
        permits_held(walk@.phases) == 0,
{
    lemma_none_outstanding(walk@.phases);
    lemma_tally_bounds(walk@.phases);
}

/// The number of events that a unit in phase `phase` can still take.
pub open spec fn steps_left(phase: Phase) -> nat {
    match phase {
        Phase::Registered => 4,
        Phase::Permitted => 3,
        Phase::Scanning => 2,
        Phase::Dispatching => 1,
        Phase::Completed => 0,
    }
}

/// Every event that is taken brings its unit nearer to completion, and an
/// event that is not taken changes nothing: a unit is completed after at
/// most four events, so a walk over finitely many directories ends.
pub proof fn lemma_step_makes_progress(phase: Phase, event: Event, free: bool)
    ensures
        ({
            let next = transition(phase, event, free);
            if next.1 == Action::Rejected || next.1 == Action::AwaitPermit {
                next.0 == phase
            } else {
                steps_left(next.0) < steps_left(phase)
            }
        }),
        transition(phase, event, free).1 == Action::AwaitPermit ==> !free,
{
}

/// The number of events that the units in `phases` can still take, all
/// together.
pub open spec fn work_left(phases: Seq<Phase>) -> nat
    decreases phases.len(),
{
    if phases.len() == 0 {
        0
    } else {
        work_left(phases.drop_last()) + steps_left(phases.last())
    }
}

/// A unit that is registered adds four events to the work that is left.
pub proof fn lemma_work_left_push(phases: Seq<Phase>)
    ensures
        work_left(phases.push(Phase::Registered)) == work_left(phases) + 4,
{
    assert(phases.push(Phase::Registered).drop_last() =~= phases);
}

/// Moving one unit to another phase changes the work that is left by the
/// difference of what the two phases leave, and by nothing else.
pub proof fn lemma_work_left_update(phases: Seq<Phase>, unit: int, phase: Phase)
    requires
        0 <= unit < phases.len(),
    ensures
        work_left(phases.update(unit, phase)) + steps_left(phases[unit]) == work_left(phases)
            + steps_left(phase),
    decreases phases.len(),
{
    let moved = phases.update(unit, phase);
    if unit == phases.len() - 1 {
        assert(moved.drop_last() =~= phases.drop_last());
    } else {
        lemma_work_left_update(phases.drop_last(), unit, phase);
        assert(moved.drop_last() =~= phases.drop_last().update(unit, phase));
    }
}

/// No work is left exactly when no unit is outstanding.
pub proof fn lemma_no_work_left(phases: Seq<Phase>)
    ensures
        work_left(phases) == 0 <==> outstanding(phases) == 0,
    decreases phases.len(),
{
    if phases.len() > 0 {
        lemma_no_work_left(phases.drop_last());
    }
}

/// A walk ends: every event that is taken lessens the work that is left,
/// an event that is not taken leaves the walk as it was, and a unit that
/// is registered adds four events. So a walk in which `n` units are
/// registered, one for each directory of a finite tree, takes at most
/// four times `n` events, after which no unit is outstanding.
pub proof fn lemma_taken_event_lessens_work(phases: Seq<Phase>, unit: int, event: Event, free: bool)
    requires
        0 <= unit < phases.len(),
    ensures
        ({
            let next = transition(phases[unit], event, free);
            let after = phases.update(unit, next.0);
            if next.1 == Action::Rejected || next.1 == Action::AwaitPermit {
                after == phases
            } else {
                work_left(after) < work_left(phases)
            }
        }),
        work_left(phases) <= 4 * phases.len(),
{
    let next = transition(phases[unit], event, free);
    lemma_step_makes_progress(phases[unit], event, free);
    lemma_work_left_update(phases, unit, next.0);
    if next.1 == Action::Rejected || next.1 == Action::AwaitPermit {
        assert(phases.update(unit, next.0) =~= phases);
    }
    lemma_work_left_bound(phases);
}

/// No more work is left than four events for each unit.
pub proof fn lemma_work_left_bound(phases: Seq<Phase>)
    ensures
        work_left(phases) <= 4 * phases.len(),
    decreases phases.len(),
{
    if phases.len() > 0 {
        lemma_work_left_bound(phases.drop_last());
    }
}

/// Where some units are counted, one of them can be named.
pub proof fn lemma_tally_witness(phases: Seq<Phase>, what: Counted) -> (unit: int)
    requires
        tally(phases, what) > 0,
    ensures
        0 <= unit < phases.len(),
        counts(phases[unit], what),
    decreases phases.len(),
{
    if counts(phases.last(), what) {
        phases.len() - 1
    } else {
        let unit = lemma_tally_witness(phases.drop_last(), what);
        assert(phases.drop_last()[unit] == phases[unit]);
        unit
    }
}

/// A unit waits for a permit only while other units hold every permit
/// there is: as long as there is a permit at all, some unit is reading its
/// directory or about to, and will give its permit back.
pub proof fn lemma_waiting_behind_holders(walk: Walk) -> (holder: int)
    requires
        walk.well_formed(),
        walk@.capacity > 0,
        !(permits_held(walk@.phases) < walk@.capacity),
    ensures
        permits_held(walk@.phases) == walk@.capacity,
        0 <= holder < walk@.phases.len(),
        holds_permit(walk@.phases[holder]),
{
    lemma_tally_witness(walk@.phases, Counted::PermitHolders)
}

/// A failure completes the unit it happens to, asks for one diagnostic,
/// and leaves every other unit as it was; whatever happens to the unit
/// afterwards is rejected.
pub proof fn lemma_failure_is_local(phases: Seq<Phase>, unit: int, free: bool, later: Event, other: int)
    requires
        0 <= unit < phases.len(),
        0 <= other < phases.len(),
        other != unit,
        phases[unit] == Phase::Permitted || phases[unit] == Phase::Scanning || phases[unit]
            == Phase::Dispatching,
    ensures
        transition(phases[unit], Event::Failed, free) == (Phase::Completed, Action::Diagnose),
        phases.update(unit, Phase::Completed)[other] == phases[other],
        transition(Phase::Completed, later, free) == (Phase::Completed, Action::Rejected),
{
}

} // verus!
