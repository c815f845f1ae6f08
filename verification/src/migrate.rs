//! Opening a store file and listing what a migration has to write.
use crate::bitdepth::{resolve_width, resolved};
use crate::error::{agrees, Fault, MigrateError};
use crate::header::{
    authoritative, header_model, meta_model, select_meta, validate_header, FileHeader, MetaPage,
    META_FIRST, META_SECOND,
};
use crate::layout::{holds, le32, PointerWidth, HEADER_MAGIC, MAGIC};
use crate::node::{DatabaseModel, DatabaseRecord};
use crate::page::{PageReader, SourceModel};
use crate::rewriter::{
    after_successes, follow, lemma_created_on_first_reference, lemma_follow_keeps_wf,
    lemma_marks_cover, lemma_put_once, lemma_put_time, put_time, targets_listed, Action, Event,
    Outcome, Progress, Rewriter, Writing,
};
use crate::walker::{
    databases_view, enter, enter_root_model, lemma_run_listed, listed, records_view, run,
    run_model, Record, RecordModel, WalkModel, WalkState,
};
use vstd::prelude::*;

verus! {

/// What the caller of a migration may fix in advance: the pointer width of
/// the source, and the size of its pages.
#[derive(Clone, Copy, Debug, PartialEq, Eq, Structural)]
pub struct MigrateOptions {
    pub width: Option<PointerWidth>,
    pub page_size: Option<u32>,
}

/// What opening a file finds out about it.
#[derive(Clone, Copy, Debug, PartialEq, Eq, Structural)]
pub struct SourceInfo {
    pub header: FileHeader,
    pub page_size: usize,
    pub width: PointerWidth,
    pub meta: MetaPage,
}

impl SourceInfo {
    /// The file as the page reader sees it.
    pub open spec fn source(self, bytes: Seq<u8>) -> SourceModel {
        SourceModel { bytes, page_size: self.page_size as int, width: self.width }
    }
}

impl MigrateOptions {
    /// The widths that are tried: the one that the caller gave, else both.
    pub open spec fn candidates(self) -> Seq<PointerWidth> {
        match self.width {
            Some(width) => seq![width],
            None => seq![PointerWidth::W32, PointerWidth::W64],
        }
    }

    /// The page size in use: the one that the caller gave, else the one that
    /// the header declares.
    pub open spec fn page_size_for(self, header: FileHeader) -> usize {
        match self.page_size {
            Some(size) => size as usize,
            None => header.page_size as usize,
        }
    }
}

/// What opening a file gives: its header must be valid, and exactly one of
/// the widths that are tried must fit its meta pages.
pub open spec fn open_model(bytes: Seq<u8>, options: MigrateOptions) -> Result<SourceInfo, Fault> {
    match header_model(bytes) {
        Err(fault) => Err(fault),
        Ok(header) => {
            let page_size = options.page_size_for(header);
            match resolved(bytes, page_size as int, options.candidates()) {
                None => Err(Fault::IndeterminateBitDepth),
                Some(width) => Ok(
                    SourceInfo {
                        header,
                        page_size,
                        width,
                        meta: authoritative(
                            SourceModel { bytes, page_size: page_size as int, width },
                        ).unwrap(),
                    },
                ),
            }
        },
    }
}

/// Validates the header of a file, resolves its pointer width and chooses
/// its meta record.
pub fn open(bytes: &[u8], options: &MigrateOptions) -> (r: Result<SourceInfo, MigrateError>)
    ensures
        match r {
            Ok(info) => open_model(bytes@, *options) == Ok::<SourceInfo, Fault>(info),
            Err(e) => open_model(bytes@, *options) is Err && e.signals(
                open_model(bytes@, *options)->Err_0,
            ),
        },
{
    let header = match validate_header(bytes) {
        Ok(header) => header,
        Err(e) => {
            return Err(e);
        },
    };
    let page_size: usize = match options.page_size {
        Some(size) => size as usize,
        None => header.page_size as usize,
    };
    let found = match options.width {
        Some(width) => {
            let only = [width];
            assert(only@ =~= seq![width]);
            resolve_width(bytes, page_size, only.as_slice())
        },
        None => {
            let both = [PointerWidth::W32, PointerWidth::W64];
            assert(both@ =~= seq![PointerWidth::W32, PointerWidth::W64]);
            resolve_width(bytes, page_size, both.as_slice())
        },
    };
    let width = match found {
        Ok(width) => width,
        Err(e) => {
            return Err(e);
        },
    };
    let reader = PageReader::new(bytes, page_size, width).unwrap();
    let meta = select_meta(&reader).unwrap();
    Ok(SourceInfo { header, page_size, width, meta })
}

/// What a migration has to write: the named databases of the source, and
/// its records in the order in which the walk found them.
pub struct PlanModel {
    pub databases: Seq<DatabaseModel>,
    pub records: Seq<RecordModel>,
}

/// What a migration has to write to the destination.
#[derive(Debug)]
pub struct MigrationPlan {
    pub databases: Vec<DatabaseRecord>,
    pub records: Vec<Record>,
}

impl View for MigrationPlan {
    type V = PlanModel;

    open spec fn view(&self) -> PlanModel {
        PlanModel {
            databases: databases_view(self.databases@),
            records: records_view(self.records@),
        }
    }
}

/// The state in which a walk starts: nothing is on the stack, no page is
/// marked, and nothing is found.
pub open spec fn initial(source: SourceModel) -> WalkModel {
    WalkModel {
        stack: Seq::empty(),
        seen: Seq::new(source.page_count() as nat, |i: int| false),
        databases: Seq::empty(),
        records: Seq::empty(),
    }
}

/// What the walk of the default database from its root gives, the named
/// databases under it included.
pub open spec fn walk_model(source: SourceModel, root: u64) -> Result<PlanModel, Fault> {
    match enter_root_model(initial(source), None, root, source.width) {
        Err(fault) => Err(fault),
        Ok(start) => match run_model(source, start) {
            Err(fault) => Err(fault),
            Ok(end) => Ok(PlanModel { databases: end.databases, records: end.records }),
        },
    }
}

/// As many marks as the file has pages, none of them set.
pub fn blank(count: usize) -> (seen: Vec<bool>)
    ensures
        seen@ == Seq::new(count as nat, |i: int| false),
{
    let mut seen: Vec<bool> = Vec::new();
    while seen.len() < count
        invariant
            seen@.len() <= count,
            forall|i: int| 0 <= i < seen@.len() ==> !seen@[i],
        decreases count - seen@.len(),
    {
        seen.push(false);
    }
    assert(seen@ =~= Seq::new(count as nat, |i: int| false));
    seen
}

/// Walks the default database from its root and every named database that
/// is found on the way.
pub fn walk(reader: &PageReader, root: u64) -> (r: Result<MigrationPlan, MigrateError>)
    ensures
        agrees(r, walk_model(reader@, root)),
{
    let mut state = WalkState {
        stack: Vec::new(),
        seen: blank(reader.page_count()),
        databases: Vec::new(),
        records: Vec::new(),
    };
    assert(state@.databases =~= Seq::empty());
    assert(state@.records =~= Seq::empty());
    assert(state@ == initial(reader@));
    if root != reader.width().no_page() {
        match enter(&mut state, None, root) {
            Ok(()) => {},
            Err(e) => {
                return Err(e);
            },
        }
    }
    match run(reader, &mut state) {
        Ok(()) => {},
        Err(e) => {
            return Err(e);
        },
    }
    Ok(MigrationPlan { databases: state.databases, records: state.records })
}

/// What a migration of a file has to write, or the fault that stops it.
pub open spec fn plan_model(bytes: Seq<u8>, options: MigrateOptions) -> Result<PlanModel, Fault> {
    match open_model(bytes, options) {
        Err(fault) => Err(fault),
        Ok(info) => walk_model(info.source(bytes), info.meta.main_root),
    }
}

/// Reads a whole store file and lists what has to be written to the
/// destination. Nothing is listed unless the whole file could be decoded.
pub fn plan(bytes: &[u8], options: &MigrateOptions) -> (r: Result<MigrationPlan, MigrateError>)
    ensures
        agrees(r, plan_model(bytes@, *options)),
{
    let info = match open(bytes, options) {
        Ok(info) => info,
        Err(e) => {
            return Err(e);
        },
    };
    let reader = PageReader::new(bytes, info.page_size, info.width).unwrap();
    walk(&reader, info.meta.main_root)
}

/// The database that each record of a plan belongs to.
pub open spec fn targets_of(plan: PlanModel) -> Seq<Option<usize>> {
    Seq::new(plan.records.len(), |i: int| plan.records[i].database)
}

/// The writing of a plan at its start.
pub open spec fn writing_of(plan: PlanModel) -> Writing {
    Writing::start(targets_of(plan), plan.databases.len())
}

/// Every record of a plan belongs to the default database or to a named
/// database of the plan.
pub proof fn lemma_plan_listed(source: SourceModel, root: u64)
    ensures
        walk_model(source, root) matches Ok(plan) ==> targets_listed(
            targets_of(plan),
            plan.databases.len() as int,
        ),
{
    assert(listed(initial(source)));
    if let Ok(start) = enter_root_model(initial(source), None, root, source.width) {
        assert(listed(start));
        lemma_run_listed(source, start);
        if let Ok(end) = run_model(source, start) {
            let plan = PlanModel { databases: end.databases, records: end.records };
            assert forall|i: int| 0 <= i < targets_of(plan).len() implies ((
            #[trigger] targets_of(plan)[i]) matches Some(place) ==> place
                < plan.databases.len()) by {
                assert(targets_of(plan)[i] == end.records[i].database);
            }
        }
    }
}

/// The database that each record of a plan belongs to.
fn targets(plan: &MigrationPlan) -> (found: Vec<Option<usize>>)
    ensures
        found@ == targets_of(plan@),
{
    let mut found: Vec<Option<usize>> = Vec::new();
    let mut i: usize = 0;
    while i < plan.records.len()
        invariant
            i <= plan.records@.len(),
            found@.len() == i,
            forall|j: int| 0 <= j < i ==> found@[j] == plan.records@[j].database,
        decreases plan.records@.len() - i,
    {
        found.push(plan.records[i].database);
        i = i + 1;
    }
    assert(found@ =~= targets_of(plan@));
    found
}

/// One migration: what was found out about the source, what has to be
/// written, and where the writing stands.
#[derive(Debug)]
pub struct MigrationSession {
    info: SourceInfo,
    plan: MigrationPlan,
    rewriter: Rewriter,
}

/// How a migration goes on after an event.
#[derive(Debug)]
pub enum SessionProgress {
    /// The migration goes on with this action.
    Next(MigrationSession, Action),
    /// The migration has ended: the transaction was committed and so many
    /// records were written, or nothing was written because of the failure.
    Done(Result<usize, MigrateError>),
}

impl MigrationSession {
    #[verifier::type_invariant]
    spec fn inv(self) -> bool {
        &&& self.rewriter@.wf()
        &&& self.rewriter@.targets == targets_of(self.plan@)
        &&& self.rewriter@.created.len() == self.plan.databases@.len()
    }

    /// What the session found out about the source.
    pub closed spec fn source_info(self) -> SourceInfo {
        self.info
    }

    /// What the session has to write.
    pub closed spec fn planned(self) -> PlanModel {
        self.plan@
    }

    /// Where the writing stands.
    pub closed spec fn writing(self) -> Writing {
        self.rewriter@
    }

    /// Whether this progress is what the model gives for the session that
    /// went before.
    pub open spec fn matches_outcome(
        progress: SessionProgress,
        before: MigrationSession,
        outcome: Outcome,
    ) -> bool {
        match progress {
            SessionProgress::Next(session, action) => {
                &&& session.planned() == before.planned()
                &&& session.source_info() == before.source_info()
                &&& outcome == Outcome::Next(session.writing(), action)
            },
            SessionProgress::Done(Ok(count)) => outcome == Outcome::Written(count),
            SessionProgress::Done(Err(e)) => outcome matches Outcome::Failed(cause) && e
                == MigrateError::LmdbError(cause),
        }
    }

    /// Reads the whole source and, if all of it could be decoded, starts
    /// the writing with the one action that begins the write transaction.
    /// Nothing is asked of the destination for a source that is refused.
    pub fn start(bytes: &[u8], options: &MigrateOptions) -> (r: Result<
        (MigrationSession, Action),
        MigrateError,
    >)
        ensures
            match r {
                Ok((session, action)) => {
                    &&& open_model(bytes@, *options) == Ok::<SourceInfo, Fault>(
                        session.source_info(),
                    )
                    &&& plan_model(bytes@, *options) == Ok::<PlanModel, Fault>(session.planned())
                    &&& session.writing() == writing_of(session.planned())
                    &&& action == Action::Begin
                },
                Err(e) => plan_model(bytes@, *options) is Err && e.signals(
                    plan_model(bytes@, *options)->Err_0,
                ),
            },
    {
        let info = match open(bytes, options) {
            Ok(info) => info,
            Err(e) => {
                return Err(e);
            },
        };
        let reader = PageReader::new(bytes, info.page_size, info.width).unwrap();
        let plan = match walk(&reader, info.meta.main_root) {
            Ok(plan) => plan,
            Err(e) => {
                return Err(e);
            },
        };
        proof {
            lemma_plan_listed(reader@, info.meta.main_root);
        }
        let (rewriter, action) = Rewriter::new(plan.databases.len(), targets(&plan)).unwrap();
        Ok((MigrationSession { info, plan, rewriter }, action))
    }

    /// What the session found out about the source.
    pub fn info(&self) -> (info: SourceInfo)
        ensures
            info == self.source_info(),
    {
        self.info
    }

    /// What the session has to write.
    pub fn plan(&self) -> (plan: &MigrationPlan)
        ensures
            plan@ == self.planned(),
    {
        &self.plan
    }

    /// Takes the report of the action under way and says how the migration
    /// goes on. A database to create and a record to put always have their
    /// place in the plan, and a record is put only after its database was
    /// created.
    pub fn advance(self, event: Event) -> (r: SessionProgress)
        ensures
            Self::matches_outcome(r, self, follow(self.writing(), event)),
            r matches SessionProgress::Next(_, Action::Create(place)) ==> place
                < self.planned().databases.len(),
            r matches SessionProgress::Next(_, Action::Put(i)) ==> i
                < self.planned().records.len(),
            r matches SessionProgress::Next(next, Action::Put(i)) ==> (
            self.planned().records[i as int].database matches Some(place)
                ==> next.writing().created[place as int]),
            r matches SessionProgress::Done(Ok(count)) ==> count == self.planned().records.len(),
    {
        proof {
            use_type_invariant(&self);
            assert(self.planned().records.len() == self.plan.records@.len());
            assert(self.planned().databases.len() == self.plan.databases@.len());
            lemma_follow_keeps_wf(self.rewriter@, event);
            lemma_created_on_first_reference(self.rewriter@, event);
        }
        let info = self.info;
        let plan = self.plan;
        match self.rewriter.advance(event) {
            Progress::Next(rewriter, action) => SessionProgress::Next(
                MigrationSession { info, plan, rewriter },
                action,
            ),
            Progress::Done(result) => SessionProgress::Done(result),
        }
    }
}

/// What is put into the destination is what the source holds: while nothing
/// fails, every record that was decoded from the pages of the source is put,
/// with its key and its value, after its database was created, and it is put
/// at one time only.
pub proof fn lemma_records_are_put_once(bytes: Seq<u8>, options: MigrateOptions, i: int, k: nat)
    requires
        plan_model(bytes, options) matches Ok(plan) && 0 <= i < plan.records.len()
            && plan.records.len() <= usize::MAX,
    ensures
        ({
            let plan = plan_model(bytes, options)->Ok_0;
            let time = put_time(targets_of(plan), plan.databases.len(), i);
            &&& after_successes(writing_of(plan), time) matches Outcome::Next(
                writing,
                Action::Put(j),
            ) && j == i && (plan.records[i].database matches Some(place)
                ==> writing.created[place as int])
            &&& (after_successes(writing_of(plan), k) matches Outcome::Next(_, Action::Put(j)) && j
                == i) ==> k == time
        }),
{
    let plan = plan_model(bytes, options)->Ok_0;
    let info = open_model(bytes, options)->Ok_0;
    lemma_plan_listed(info.source(bytes), info.meta.main_root);
    lemma_put_time(targets_of(plan), plan.databases.len(), i);
    let time = put_time(targets_of(plan), plan.databases.len(), i);
    lemma_marks_cover(targets_of(plan), plan.databases.len(), i + 1, i);
    if after_successes(writing_of(plan), k) matches Outcome::Next(_, Action::Put(j)) && j == i {
        lemma_put_once(targets_of(plan), plan.databases.len(), i, k);
    }
}

/// Two migrations of the same bytes with the same options end alike: both
/// give the same databases and the same records in the same order, or both
/// report the same fault.
pub proof fn lemma_plan_deterministic(
    first: Result<MigrationPlan, MigrateError>,
    second: Result<MigrationPlan, MigrateError>,
    bytes: Seq<u8>,
    options: MigrateOptions,
)
    requires
        agrees(first, plan_model(bytes, options)),
        agrees(second, plan_model(bytes, options)),
    ensures
        first is Ok <==> second is Ok,
        first matches Ok(a) ==> second matches Ok(b) && a@ == b@,
        first matches Err(e) ==> second matches Err(f) && exists|fault: Fault|
            e.signals(fault) && f.signals(fault),
{
}

/// A file that does not start with the magic constant is refused for that,
/// whatever else it holds and whatever the options are.
pub proof fn lemma_wrong_magic(bytes: Seq<u8>, options: MigrateOptions)
    requires
        !holds(bytes, HEADER_MAGIC as int, 4) || le32(bytes, HEADER_MAGIC as int) != MAGIC,
    ensures
        plan_model(bytes, options) == Err::<PlanModel, Fault>(Fault::InvalidMagicNum),
{
}

/// Whether both copies of the meta record fail validation when they are
/// decoded with the given page size and width.
pub open spec fn no_valid_meta(bytes: Seq<u8>, page_size: int, width: PointerWidth) -> bool {
    let source = SourceModel { bytes, page_size, width };
    meta_model(source, META_FIRST) is None && meta_model(source, META_SECOND) is None
}

/// No width is chosen for a file whose two copies of the meta record both
/// fail validation under either width: once its header is accepted, the file
/// is refused as one whose pointer width cannot be determined.
pub proof fn lemma_no_valid_meta(bytes: Seq<u8>, options: MigrateOptions)
    requires
        header_model(bytes) is Ok,
        no_valid_meta(
            bytes,
            options.page_size_for(header_model(bytes)->Ok_0) as int,
            PointerWidth::W32,
        ),
        no_valid_meta(
            bytes,
            options.page_size_for(header_model(bytes)->Ok_0) as int,
            PointerWidth::W64,
        ),
    ensures
        plan_model(bytes, options) == Err::<PlanModel, Fault>(Fault::IndeterminateBitDepth),
{
}

/// The walk of an empty database finds no database and no record.
pub proof fn lemma_empty_database(source: SourceModel)
    ensures
        walk_model(source, source.width.none_page()) == Ok::<PlanModel, Fault>(
            PlanModel { databases: Seq::empty(), records: Seq::empty() },
        ),
{
}

} // verus!
