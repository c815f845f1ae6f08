//! The decisions of writing a migration plan to a destination store.
//!
//! The store itself is worked by the caller. The rewriter says what to do
//! next: begin the one write transaction, create a named database, put the
//! record at a given place of the plan, commit, or abort. The caller does it
//! and reports how it went. A named database is created when the first record
//! that belongs to it is about to be put.
use crate::error::MigrateError;
use vstd::prelude::*;

verus! {

/// What the caller has to do to the destination store next.
#[derive(Clone, Copy, Debug, PartialEq, Eq, Structural)]
pub enum Action {
    /// Begin the write transaction.
    Begin,
    /// Create the named database at this place of the plan's list.
    Create(usize),
    /// Put the record at this place of the plan.
    Put(usize),
    /// Commit the write transaction.
    Commit,
    /// Abort the write transaction.
    Abort,
}

/// How the last action went.
#[derive(Debug)]
pub enum Event {
    Succeeded,
    Failed(lmdb::Error),
}

/// Where the writing stands: which action is under way.
#[derive(Debug)]
pub enum Phase {
    /// The transaction is being begun.
    Beginning,
    /// The database of the record at this place is being created.
    Creating(usize),
    /// The record at this place is being put.
    Putting(usize),
    /// The transaction is being committed.
    Committing,
    /// The transaction is being aborted because of this failure.
    Aborting(lmdb::Error),
}

/// Whether every record belongs to the default database or to one of the
/// first `count` named databases.
pub open spec fn targets_listed(targets: Seq<Option<usize>>, count: int) -> bool {
    forall|i: int|
        0 <= i < targets.len() ==> ((#[trigger] targets[i]) matches Some(place) ==> place < count)
}

/// The writing of a plan between two actions: for every record the database
/// that it belongs to, for every named database whether it was created, and
/// the action under way.
pub struct Writing {
    pub targets: Seq<Option<usize>>,
    pub created: Seq<bool>,
    pub phase: Phase,
}

impl Writing {
    /// The writing at its start: nothing is created, and the transaction is
    /// being begun.
    pub open spec fn start(targets: Seq<Option<usize>>, databases: nat) -> Writing {
        Writing { targets, created: Seq::new(databases, |place: int| false), phase: Phase::Beginning }
    }

    /// The records can be counted; every record belongs to a database of the
    /// plan; a database that is being created is the one of the record that
    /// comes next, and was not created before; a record that is being put
    /// belongs to the default database or to one that was created.
    pub open spec fn wf(self) -> bool {
        &&& self.targets.len() <= usize::MAX
        &&& targets_listed(self.targets, self.created.len() as int)
        &&& match self.phase {
            Phase::Creating(i) => i < self.targets.len() && (self.targets[i as int] matches Some(
                place,
            ) && !self.created[place as int]),
            Phase::Putting(i) => i < self.targets.len() && (self.targets[i as int] matches Some(
                place,
            ) ==> self.created[place as int]),
            _ => true,
        }
    }
}

/// What follows an event: the writing goes on with an action, or it has
/// ended, with the number of records written or with the failure.
pub enum Outcome {
    Next(Writing, Action),
    Written(usize),
    Failed(lmdb::Error),
}

/// What is done when all records before the one at place `i` are put: the
/// database of that record is created if the record is the first that refers
/// to it, else the record is put; after the last record the transaction is
/// committed.
pub open spec fn ready(targets: Seq<Option<usize>>, created: Seq<bool>, i: int) -> Outcome {
    if i >= targets.len() {
        Outcome::Next(Writing { targets, created, phase: Phase::Committing }, Action::Commit)
    } else if targets[i] is Some && !created[targets[i]->0 as int] {
        Outcome::Next(
            Writing { targets, created, phase: Phase::Creating(i as usize) },
            Action::Create(targets[i]->0),
        )
    } else {
        Outcome::Next(
            Writing { targets, created, phase: Phase::Putting(i as usize) },
            Action::Put(i as usize),
        )
    }
}

/// What follows an event.
///
/// After the transaction has begun, the records are put in the order of the
/// plan, each after its database was created, and the transaction is
/// committed after the last record. A failure to begin or to commit ends the
/// writing, as no transaction is left open; any other failure has the
/// transaction aborted first.
pub open spec fn follow(writing: Writing, event: Event) -> Outcome {
    match (writing.phase, event) {
        (Phase::Beginning, Event::Succeeded) => ready(writing.targets, writing.created, 0),
        (Phase::Creating(i), Event::Succeeded) => Outcome::Next(
            Writing {
                created: writing.created.update(writing.targets[i as int]->0 as int, true),
                phase: Phase::Putting(i),
                ..writing
            },
            Action::Put(i),
        ),
        (Phase::Putting(i), Event::Succeeded) => ready(writing.targets, writing.created, i + 1),
        (Phase::Committing, Event::Succeeded) => Outcome::Written(writing.targets.len() as usize),
        (Phase::Aborting(cause), _) => Outcome::Failed(cause),
        (Phase::Creating(_), Event::Failed(cause)) => Outcome::Next(
            Writing { phase: Phase::Aborting(cause), ..writing },
            Action::Abort,
        ),
        (Phase::Putting(_), Event::Failed(cause)) => Outcome::Next(
            Writing { phase: Phase::Aborting(cause), ..writing },
            Action::Abort,
        ),
        (_, Event::Failed(cause)) => Outcome::Failed(cause),
    }
}

/// The writing of a plan, between two actions.
#[derive(Debug)]
pub struct Rewriter {
    targets: Vec<Option<usize>>,
    created: Vec<bool>,
    phase: Phase,
}

impl View for Rewriter {
    type V = Writing;

    closed spec fn view(&self) -> Writing {
        Writing { targets: self.targets@, created: self.created@, phase: self.phase }
    }
}

/// How the writing goes on after an event.
#[derive(Debug)]
pub enum Progress {
    /// The writing goes on with this action.
    Next(Rewriter, Action),
    /// The writing has ended: the transaction was committed and so many
    /// records were written, or nothing was written because of the failure.
    Done(Result<usize, MigrateError>),
}

/// Whether this progress is what the model gives.
pub open spec fn matches_outcome(progress: Progress, outcome: Outcome) -> bool {
    match progress {
        Progress::Next(rewriter, action) => outcome == Outcome::Next(rewriter@, action),
        Progress::Done(Ok(count)) => outcome == Outcome::Written(count),
        Progress::Done(Err(e)) => outcome matches Outcome::Failed(cause) && e
            == MigrateError::LmdbError(cause),
    }
}

/// As many marks as there are named databases, none of them set.
fn none_created(databases: usize) -> (created: Vec<bool>)
    ensures
        created@ == Seq::new(databases as nat, |place: int| false),
{
    let mut created: Vec<bool> = Vec::new();
    while created.len() < databases
        invariant
            created@.len() <= databases,
            forall|i: int| 0 <= i < created@.len() ==> !created@[i],
        decreases databases - created@.len(),
    {
        created.push(false);
    }
    assert(created@ =~= Seq::new(databases as nat, |place: int| false));
    created
}

/// Whether every record belongs to the default database or to one of the
/// first `databases` named databases.
fn check_targets(targets: &Vec<Option<usize>>, databases: usize) -> (ok: bool)
    ensures
        ok == targets_listed(targets@, databases as int),
        targets@.len() <= usize::MAX,
{
    let mut i: usize = 0;
    while i < targets.len()
        invariant
            i <= targets@.len(),
            forall|j: int|
                0 <= j < i ==> ((#[trigger] targets@[j]) matches Some(place) ==> place < databases),
        decreases targets@.len() - i,
    {
        match targets[i] {
            Some(place) => {
                if place >= databases {
                    return false;
                }
            },
            None => {},
        }
        i = i + 1;
    }
    true
}

impl Rewriter {
    #[verifier::type_invariant]
    spec fn inv(self) -> bool {
        self@.wf()
    }

    /// Starts the writing of a plan with so many named databases, of which
    /// `targets` names the one that each record belongs to (none for the
    /// default database). The first action, and the only one of its kind, is
    /// to begin the write transaction. There is no writing to start if a
    /// record belongs to a database that the plan does not have.
    pub fn new(databases: usize, targets: Vec<Option<usize>>) -> (r: Option<(Rewriter, Action)>)
        ensures
            r is Some <==> targets_listed(targets@, databases as int),
            r matches Some((rewriter, action)) ==> rewriter@ == Writing::start(
                targets@,
                databases as nat,
            ) && rewriter@.wf() && action == Action::Begin,
    {
        if !check_targets(&targets, databases) {
            return None;
        }
        let created = none_created(databases);
        Some((Rewriter { targets, created, phase: Phase::Beginning }, Action::Begin))
    }

    /// Takes the report of the action under way and says how the writing
    /// goes on.
    pub fn advance(self, event: Event) -> (r: Progress)
        ensures
            self@.wf(),
            matches_outcome(r, follow(self@, event)),
    {
        proof {
            use_type_invariant(&self);
        }
        let targets = self.targets;
        let mut created = self.created;
        let total: usize = targets.len();
        match (self.phase, event) {
            (Phase::Beginning, Event::Succeeded) => Self::make_ready(targets, created, 0),
            (Phase::Creating(i), Event::Succeeded) => {
                let place: usize = targets[i].unwrap();
                created.set(place, true);
                Progress::Next(Rewriter { targets, created, phase: Phase::Putting(i) }, Action::Put(i))
            },
            (Phase::Putting(i), Event::Succeeded) => Self::make_ready(targets, created, i + 1),
            (Phase::Committing, Event::Succeeded) => Progress::Done(Ok(total)),
            (Phase::Aborting(cause), _) => Progress::Done(Err(MigrateError::from(cause))),
            (Phase::Creating(_), Event::Failed(cause)) => Progress::Next(
                Rewriter { targets, created, phase: Phase::Aborting(cause) },
                Action::Abort,
            ),
            (Phase::Putting(_), Event::Failed(cause)) => Progress::Next(
                Rewriter { targets, created, phase: Phase::Aborting(cause) },
                Action::Abort,
            ),
            (_, Event::Failed(cause)) => Progress::Done(Err(MigrateError::from(cause))),
        }
    }

    fn make_ready(targets: Vec<Option<usize>>, created: Vec<bool>, i: usize) -> (r: Progress)
        requires
            targets_listed(targets@, created@.len() as int),
        ensures
            matches_outcome(r, ready(targets@, created@, i as int)),
    {
        if i >= targets.len() {
            return Progress::Next(
                Rewriter { targets, created, phase: Phase::Committing },
                Action::Commit,
            );
        }
        match targets[i] {
            Some(place) => {
                if !created[place] {
                    return Progress::Next(
                        Rewriter { targets, created, phase: Phase::Creating(i) },
                        Action::Create(place),
                    );
                }
            },
            None => {},
        }
        Progress::Next(Rewriter { targets, created, phase: Phase::Putting(i) }, Action::Put(i))
    }
}

/// An event leaves the writing well formed: the records keep their
/// databases, and there are as many marks as before.
pub proof fn lemma_follow_keeps_wf(writing: Writing, event: Event)
    requires
        writing.wf(),
    ensures
        follow(writing, event) matches Outcome::Next(next, _) ==> next.wf() && next.targets
            == writing.targets && next.created.len() == writing.created.len(),
{
}

/// A named database is created on first reference: when the record that
/// comes next belongs to it and it was not created before. A record is put
/// only into the default database or into a database that was created, and
/// what is created or put has its place in the plan.
pub proof fn lemma_created_on_first_reference(writing: Writing, event: Event)
    requires
        writing.wf(),
    ensures
        follow(writing, event) matches Outcome::Next(next, Action::Create(place)) ==> {
            &&& place < writing.created.len()
            &&& !writing.created[place as int]
            &&& next.phase matches Phase::Creating(i) && i < writing.targets.len()
                && writing.targets[i as int] == Some(place)
        },
        follow(writing, event) matches Outcome::Next(next, Action::Put(i)) ==> {
            &&& i < writing.targets.len()
            &&& writing.targets[i as int] matches Some(place) ==> next.created[place as int]
        },
        follow(writing, event) matches Outcome::Written(count) ==> count == writing.targets.len(),
{
}

/// A second transaction is never begun, and nothing is committed after a
/// failure: a database that cannot be created or a record that cannot be put
/// has the transaction aborted, and whatever the abort reports, the writing
/// ends with that failure.
pub proof fn lemma_failure_aborts(writing: Writing, event: Event, cause: lmdb::Error)
    ensures
        !(follow(writing, event) matches Outcome::Next(_, Action::Begin)),
        writing.phase is Creating || writing.phase is Putting ==> follow(
            writing,
            Event::Failed(cause),
        ) == Outcome::Next(Writing { phase: Phase::Aborting(cause), ..writing }, Action::Abort),
        writing.phase is Aborting ==> follow(writing, event) == Outcome::Failed(
            writing.phase->Aborting_0,
        ),
        !(follow(writing, Event::Failed(cause)) is Written),
        !(follow(writing, Event::Failed(cause)) matches Outcome::Next(_, Action::Commit)),
{
}

/// The outcome of `k` successes in a row, counted from the start of the
/// writing.
pub open spec fn after_successes(start: Writing, k: nat) -> Outcome
    decreases k,
{
    if k == 0 {
        Outcome::Next(start, Action::Begin)
    } else {
        match after_successes(start, (k - 1) as nat) {
            Outcome::Next(writing, _) => follow(writing, Event::Succeeded),
            ended => ended,
        }
    }
}

/// The first success is that of the beginning of the transaction.
proof fn lemma_first_success(start: Writing)
    ensures
        after_successes(start, 1) == follow(start, Event::Succeeded),
{
    assert(after_successes(start, 0) == Outcome::Next(start, Action::Begin));
}

/// The databases that are created once the first `n` records are put: those
/// that one of these records belongs to.
pub open spec fn marks(targets: Seq<Option<usize>>, databases: nat, n: int) -> Seq<bool>
    decreases n,
{
    if n <= 0 {
        Seq::new(databases, |place: int| false)
    } else {
        match targets[n - 1] {
            Some(place) => marks(targets, databases, n - 1).update(place as int, true),
            None => marks(targets, databases, n - 1),
        }
    }
}

/// Whether the record at place `i` is the first that belongs to its named
/// database.
pub open spec fn is_first(targets: Seq<Option<usize>>, databases: nat, i: int) -> bool {
    targets[i] matches Some(place) && !marks(targets, databases, i)[place as int]
}

/// The number of databases that the first `n` records refer to.
pub open spec fn creations(targets: Seq<Option<usize>>, databases: nat, n: int) -> nat
    decreases n,
{
    if n <= 0 {
        0
    } else if is_first(targets, databases, n - 1) {
        creations(targets, databases, n - 1) + 1
    } else {
        creations(targets, databases, n - 1)
    }
}

/// The number of successes after which the record at place `i` is put: one
/// for the beginning of the transaction, one for each record before it, and
/// one for each database that was created up to it.
pub open spec fn put_time(targets: Seq<Option<usize>>, databases: nat, i: int) -> nat {
    (1 + i + creations(targets, databases, i + 1)) as nat
}

/// There are as many marks as named databases.
proof fn lemma_marks_len(targets: Seq<Option<usize>>, databases: nat, n: int)
    requires
        targets_listed(targets, databases as int),
        n <= targets.len(),
    ensures
        marks(targets, databases, n).len() == databases,
    decreases n,
{
    if n > 0 {
        lemma_marks_len(targets, databases, n - 1);
    }
}

/// Once the first `n` records are put, the database of each of them is
/// created.
pub proof fn lemma_marks_cover(targets: Seq<Option<usize>>, databases: nat, n: int, i: int)
    requires
        targets_listed(targets, databases as int),
        0 <= i < n <= targets.len(),
    ensures
        targets[i] matches Some(place) ==> marks(targets, databases, n)[place as int],
    decreases n,
{
    lemma_marks_len(targets, databases, n - 1);
    if i < n - 1 {
        lemma_marks_cover(targets, databases, n - 1, i);
    }
}

/// From the moment at which the record at place `i` is next, it is put after
/// one more success if its database has to be created, else at once.
proof fn lemma_ready_reaches_put(
    targets: Seq<Option<usize>>,
    databases: nat,
    k: nat,
    i: int,
)
    requires
        targets_listed(targets, databases as int),
        0 <= i < targets.len(),
        targets.len() <= usize::MAX,
        after_successes(Writing::start(targets, databases), k) == ready(
            targets,
            marks(targets, databases, i),
            i,
        ),
    ensures
        k + creations(targets, databases, i + 1) - creations(targets, databases, i) >= 0,
        after_successes(
            Writing::start(targets, databases),
            (k + creations(targets, databases, i + 1) - creations(targets, databases, i)) as nat,
        ) == Outcome::Next(
            Writing {
                targets,
                created: marks(targets, databases, i + 1),
                phase: Phase::Putting(i as usize),
            },
            Action::Put(i as usize),
        ),
{
    let start = Writing::start(targets, databases);
    let before = marks(targets, databases, i);
    lemma_marks_len(targets, databases, i);
    if is_first(targets, databases, i) {
        assert(after_successes(start, k + 1) == follow(
            Writing { targets, created: before, phase: Phase::Creating(i as usize) },
            Event::Succeeded,
        ));
    } else {
        match targets[i] {
            Some(place) => {
                assert(before.update(place as int, true) =~= before);
            },
            None => {},
        }
    }
}

/// While nothing fails, the record at every place of the plan is put, with
/// every database created that it or a record before it belongs to, after
/// one success for the beginning, one for each record before it and one for
/// each of these databases.
pub proof fn lemma_put_time(targets: Seq<Option<usize>>, databases: nat, i: int)
    requires
        targets_listed(targets, databases as int),
        0 <= i < targets.len(),
        targets.len() <= usize::MAX,
    ensures
        after_successes(Writing::start(targets, databases), put_time(targets, databases, i))
            == Outcome::Next(
            Writing {
                targets,
                created: marks(targets, databases, i + 1),
                phase: Phase::Putting(i as usize),
            },
            Action::Put(i as usize),
        ),
    decreases i,
{
    let start = Writing::start(targets, databases);
    if i == 0 {
        lemma_first_success(start);
        lemma_ready_reaches_put(targets, databases, 1, 0);
    } else {
        lemma_put_time(targets, databases, i - 1);
        let earlier = put_time(targets, databases, i - 1);
        assert(after_successes(start, earlier + 1) == follow(
            Writing {
                targets,
                created: marks(targets, databases, i),
                phase: Phase::Putting((i - 1) as usize),
            },
            Event::Succeeded,
        ));
        lemma_ready_reaches_put(targets, databases, earlier + 1, i);
    }
}

/// While nothing fails, the transaction is committed once, after the last
/// record is put, and the number of records written is the number of records
/// in the plan.
pub proof fn lemma_commit_time(targets: Seq<Option<usize>>, databases: nat)
    requires
        targets_listed(targets, databases as int),
        targets.len() <= usize::MAX,
    ensures
        after_successes(
            Writing::start(targets, databases),
            1 + targets.len() + creations(targets, databases, targets.len() as int),
        ) == Outcome::Next(
            Writing {
                targets,
                created: marks(targets, databases, targets.len() as int),
                phase: Phase::Committing,
            },
            Action::Commit,
        ),
        after_successes(
            Writing::start(targets, databases),
            2 + targets.len() + creations(targets, databases, targets.len() as int),
        ) == Outcome::Written(targets.len() as usize),
{
    let start = Writing::start(targets, databases);
    let n = targets.len() as int;
    let time = 1 + targets.len() + creations(targets, databases, n);
    if n == 0 {
        lemma_first_success(start);
    } else {
        lemma_put_time(targets, databases, n - 1);
        assert(after_successes(start, time) == follow(
            Writing {
                targets,
                created: marks(targets, databases, n),
                phase: Phase::Putting((n - 1) as usize),
            },
            Event::Succeeded,
        ));
    }
    assert(after_successes(start, time + 1) == follow(
        Writing {
            targets,
            created: marks(targets, databases, n),
            phase: Phase::Committing,
        },
        Event::Succeeded,
    ));
}

/// How far a writing has come: every success brings it to a later phase.
pub open spec fn rank(writing: Writing) -> int {
    match writing.phase {
        Phase::Beginning => 0,
        Phase::Creating(i) => 2 * i + 1,
        Phase::Putting(i) => 2 * i + 2,
        Phase::Committing => 2 * (writing.targets.len() as int) + 1,
        Phase::Aborting(_) => -1,
    }
}

/// While nothing fails, the writing stays well formed, nothing is aborted,
/// and every success brings the writing to a later phase.
proof fn lemma_successes_advance(start: Writing, k: nat)
    requires
        start.wf(),
        start.phase is Beginning,
    ensures
        after_successes(start, k) matches Outcome::Next(writing, _) ==> {
            &&& writing.wf()
            &&& !(writing.phase is Aborting)
            &&& writing.targets == start.targets
            &&& k > 0 ==> (after_successes(start, (k - 1) as nat) matches Outcome::Next(before, _)
                && rank(before) < rank(writing))
        },
    decreases k,
{
    if k > 0 {
        lemma_successes_advance(start, (k - 1) as nat);
        if let Outcome::Next(before, _) = after_successes(start, (k - 1) as nat) {
            lemma_follow_keeps_wf(before, Event::Succeeded);
        }
    }
}

/// While nothing fails, a later success finds the writing in a later phase.
proof fn lemma_ranks_grow(start: Writing, earlier: nat, later: nat)
    requires
        start.wf(),
        start.phase is Beginning,
        earlier < later,
    ensures
        after_successes(start, later) matches Outcome::Next(second, _) ==> (after_successes(
            start,
            earlier,
        ) matches Outcome::Next(first, _) && rank(first) < rank(second)),
    decreases later,
{
    lemma_successes_advance(start, later);
    if earlier + 1 < later {
        lemma_ranks_grow(start, earlier, (later - 1) as nat);
    }
}

/// While nothing fails, no record is put twice: the record at a place of
/// the plan is put at one time only.
pub proof fn lemma_put_once(targets: Seq<Option<usize>>, databases: nat, i: int, k: nat)
    requires
        targets_listed(targets, databases as int),
        0 <= i < targets.len(),
        targets.len() <= usize::MAX,
        after_successes(Writing::start(targets, databases), k) matches Outcome::Next(
            _,
            Action::Put(j),
        ) && j == i,
    ensures
        k == put_time(targets, databases, i),
{
    let start = Writing::start(targets, databases);
    let time = put_time(targets, databases, i);
    lemma_put_time(targets, databases, i);
    lemma_successes_advance(start, k);
    lemma_put_names_phase(start, k);
    if k < time {
        lemma_ranks_grow(start, k, time);
    } else if time < k {
        lemma_ranks_grow(start, time, k);
    }
}

/// While nothing fails, a record that is put is the one that the phase
/// names.
proof fn lemma_put_names_phase(start: Writing, k: nat)
    requires
        start.wf(),
        start.phase is Beginning,
    ensures
        after_successes(start, k) matches Outcome::Next(writing, Action::Put(i))
            ==> writing.phase == Phase::Putting(i),
    decreases k,
{
    if k > 0 {
        lemma_successes_advance(start, (k - 1) as nat);
    }
}

/// A plan without records is written by beginning and committing the
/// transaction: nothing is created, and zero records are reported as written.
pub proof fn lemma_empty_plan(databases: nat)
    ensures
        after_successes(Writing::start(Seq::empty(), databases), 1) == Outcome::Next(
            Writing { phase: Phase::Committing, ..Writing::start(Seq::empty(), databases) },
            Action::Commit,
        ),
        after_successes(Writing::start(Seq::empty(), databases), 2) == Outcome::Written(0),
{
    let start = Writing::start(Seq::empty(), databases);
    lemma_first_success(start);
    assert(after_successes(start, 2) == follow(
        Writing { phase: Phase::Committing, ..start },
        Event::Succeeded,
    ));
}

} // verus!
