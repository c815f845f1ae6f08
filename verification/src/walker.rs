//! Walking the trees of a store file.
//!
//! The walk keeps the pages that are still to be read on a stack and marks
//! every page that it puts there. A page that is already marked is never put
//! there again: a file in which a page can be reached twice is refused, and so
//! the walk of any file ends.
use crate::error::{Fault, MigrateError};
use crate::layout::PointerWidth;
use crate::node::{
    branch_child, chain, check_slots, leaf_node, parse_branch_node, parse_leaf_node, read_chain,
    read_slot, slot, slots_fit, DatabaseModel, DatabaseRecord, Node, NodeModel,
};
use crate::page::{PageKind, PageReader, SourceModel};
use vstd::prelude::*;

verus! {

/// A key with its value, and the database that holds them: the default
/// database, or the named one at the given place in the list of databases.
pub struct RecordModel {
    pub database: Option<usize>,
    pub key: Seq<u8>,
    pub value: Seq<u8>,
}

/// One record to write to the destination.
#[derive(Debug)]
pub struct Record {
    pub database: Option<usize>,
    pub key: Vec<u8>,
    pub value: Vec<u8>,
}

impl View for Record {
    type V = RecordModel;

    open spec fn view(&self) -> RecordModel {
        RecordModel { database: self.database, key: self.key@, value: self.value@ }
    }
}

/// The models of a sequence of records.
pub open spec fn records_view(records: Seq<Record>) -> Seq<RecordModel> {
    Seq::new(records.len(), |i: int| records[i]@)
}

/// The models of a sequence of database records.
pub open spec fn databases_view(databases: Seq<DatabaseRecord>) -> Seq<DatabaseModel> {
    Seq::new(databases.len(), |i: int| databases[i]@)
}

/// The state of a walk: the pages that are still to be read, each with the
/// database that it belongs to; for every page of the file, whether it was put
/// on the stack before; the named databases found so far; and the records
/// found so far, in the order in which they were found.
pub struct WalkModel {
    pub stack: Seq<(Option<usize>, u64)>,
    pub seen: Seq<bool>,
    pub databases: Seq<DatabaseModel>,
    pub records: Seq<RecordModel>,
}

/// The state of a walk.
pub struct WalkState {
    pub stack: Vec<(Option<usize>, u64)>,
    pub seen: Vec<bool>,
    pub databases: Vec<DatabaseRecord>,
    pub records: Vec<Record>,
}

impl View for WalkState {
    type V = WalkModel;

    open spec fn view(&self) -> WalkModel {
        WalkModel {
            stack: self.stack@,
            seen: self.seen@,
            databases: databases_view(self.databases@),
            records: records_view(self.records@),
        }
    }
}

/// Whether a step of the walk ended as the model says: in the state that the
/// model gives, or with the report of the fault that the model gives.
pub open spec fn moved(
    r: Result<(), MigrateError>,
    model: Result<WalkModel, Fault>,
    after: WalkModel,
) -> bool {
    match r {
        Ok(()) => model == Ok::<WalkModel, Fault>(after),
        Err(e) => model is Err && e.signals(model->Err_0),
    }
}

/// The number of pages that were never put on the stack.
pub open spec fn unseen(seen: Seq<bool>) -> nat
    decreases seen.len(),
{
    if seen.len() == 0 {
        0
    } else if seen.last() {
        unseen(seen.drop_last())
    } else {
        unseen(seen.drop_last()) + 1
    }
}

/// Marking a page that was not marked leaves one unmarked page less.
pub proof fn lemma_unseen_mark(seen: Seq<bool>, page: int)
    requires
        0 <= page < seen.len(),
        !seen[page],
    ensures
        unseen(seen.update(page, true)) + 1 == unseen(seen),
    decreases seen.len(),
{
    let marked = seen.update(page, true);
    if page == seen.len() - 1 {
        assert(marked.drop_last() =~= seen.drop_last());
    } else {
        assert(marked.drop_last() =~= seen.drop_last().update(page, true));
        lemma_unseen_mark(seen.drop_last(), page);
    }
}

/// Puts a page on the stack and marks it. A page outside the file and a page
/// that is already marked are refused.
pub open spec fn enter_model(state: WalkModel, database: Option<usize>, page: u64) -> Result<
    WalkModel,
    Fault,
> {
    if page >= state.seen.len() {
        Err(Fault::InvalidPageNum)
    } else if state.seen[page as int] {
        Err(Fault::Cycle)
    } else {
        Ok(
            WalkModel {
                stack: state.stack.push((database, page)),
                seen: state.seen.update(page as int, true),
                ..state
            },
        )
    }
}

/// Puts the root of a database on the stack, unless the database is empty.
pub open spec fn enter_root_model(
    state: WalkModel,
    database: Option<usize>,
    root: u64,
    width: PointerWidth,
) -> Result<WalkModel, Fault> {
    if root == width.none_page() {
        Ok(state)
    } else {
        enter_model(state, database, root)
    }
}

/// Takes up what a leaf node holds: a record, with its value read from its
/// overflow chain where it lies there, or a named database, whose root is put
/// on the stack.
pub open spec fn take_model(
    source: SourceModel,
    node: NodeModel,
    database: Option<usize>,
    state: WalkModel,
) -> Result<WalkModel, Fault> {
    match node {
        NodeModel::Inline { key, value } => Ok(
            WalkModel { records: state.records.push(RecordModel { database, key, value }), ..state },
        ),
        NodeModel::Chained { key, size, first } => match chain(source, first, size as int) {
            Err(fault) => Err(fault),
            Ok(value) => Ok(
                WalkModel {
                    records: state.records.push(RecordModel { database, key, value }),
                    ..state
                },
            ),
        },
        NodeModel::Database(record) => enter_root_model(
            WalkModel { databases: state.databases.push(record), ..state },
            Some(state.databases.len() as usize),
            record.root,
            source.width,
        ),
    }
}

/// Takes up the nodes of a leaf page from slot `i` on, in the order of the
/// slots.
pub open spec fn leaf_from(
    source: SourceModel,
    body: Seq<u8>,
    count: int,
    database: Option<usize>,
    i: int,
    state: WalkModel,
) -> Result<WalkModel, Fault>
    decreases count - i,
{
    if i >= count {
        Ok(state)
    } else {
        match leaf_node(body, source.width, slot(body, i)) {
            Err(fault) => Err(fault),
            Ok(node) => match take_model(source, node, database, state) {
                Err(fault) => Err(fault),
                Ok(next) => leaf_from(source, body, count, database, i + 1, next),
            },
        }
    }
}

/// Puts the children of a branch page on the stack, from the child under slot
/// `i` down to the first, so that the first child is read first.
pub open spec fn branch_from(
    source: SourceModel,
    body: Seq<u8>,
    database: Option<usize>,
    i: int,
    state: WalkModel,
) -> Result<WalkModel, Fault>
    decreases i,
{
    if i <= 0 {
        Ok(state)
    } else {
        match branch_child(body, source.width, slot(body, i - 1)) {
            Err(fault) => Err(fault),
            Ok(child) => match enter_model(state, database, child) {
                Err(fault) => Err(fault),
                Ok(next) => branch_from(source, body, database, i - 1, next),
            },
        }
    }
}

/// Reads the page on top of the stack, if there is one: the children of a
/// branch page are put on the stack, the nodes of a leaf page are taken up,
/// and a page of any other kind is refused.
pub open spec fn step_model(source: SourceModel, state: WalkModel) -> Result<WalkModel, Fault> {
    let (database, page) = state.stack.last();
    let rest = WalkModel { stack: state.stack.drop_last(), ..state };
    if state.stack.len() == 0 {
        Ok(state)
    } else {
        match source.read_page(page) {
            Err(fault) => Err(fault),
            Ok(found) => match found.kind {
                PageKind::Branch => branch_model(
                    source,
                    found.body,
                    found.count as int,
                    database,
                    rest,
                ),
                PageKind::Leaf => leaf_model(source, found.body, found.count as int, database, rest),
                _ => Err(Fault::UnexpectedPageVariant),
            },
        }
    }
}

/// Whether a state is nearer to the end of the walk than another: fewer pages
/// are unmarked, or as many are and the stack is shorter.
pub open spec fn nearer(next: WalkModel, state: WalkModel) -> bool {
    unseen(next.seen) < unseen(state.seen) || (unseen(next.seen) == unseen(state.seen)
        && next.stack.len() < state.stack.len())
}

/// Whether a state has the marks and the stack of another, or fewer unmarked
/// pages.
pub open spec fn no_farther(next: WalkModel, state: WalkModel) -> bool {
    unseen(next.seen) < unseen(state.seen) || (next.seen == state.seen && next.stack
        == state.stack)
}

/// Putting a page on the stack leaves fewer pages unmarked.
proof fn lemma_enter_nearer(state: WalkModel, database: Option<usize>, page: u64)
    ensures
        enter_model(state, database, page) matches Ok(next) ==> unseen(next.seen) < unseen(
            state.seen,
        ),
{
    if enter_model(state, database, page) is Ok {
        lemma_unseen_mark(state.seen, page as int);
    }
}

/// Taking up a node keeps the marks and the stack, or leaves fewer pages
/// unmarked.
proof fn lemma_take_no_farther(
    source: SourceModel,
    node: NodeModel,
    database: Option<usize>,
    state: WalkModel,
)
    ensures
        take_model(source, node, database, state) matches Ok(next) ==> no_farther(next, state),
{
    if let NodeModel::Database(record) = node {
        let listed = WalkModel { databases: state.databases.push(record), ..state };
        lemma_enter_nearer(listed, Some(state.databases.len() as usize), record.root);
    }
}

/// Taking up the nodes of a leaf page keeps the marks and the stack, or
/// leaves fewer pages unmarked.
proof fn lemma_leaf_no_farther(
    source: SourceModel,
    body: Seq<u8>,
    count: int,
    database: Option<usize>,
    i: int,
    state: WalkModel,
)
    ensures
        leaf_from(source, body, count, database, i, state) matches Ok(next) ==> no_farther(
            next,
            state,
        ),
    decreases count - i,
{
    if i < count {
        if let Ok(node) = leaf_node(body, source.width, slot(body, i)) {
            lemma_take_no_farther(source, node, database, state);
            if let Ok(next) = take_model(source, node, database, state) {
                lemma_leaf_no_farther(source, body, count, database, i + 1, next);
            }
        }
    }
}

/// Putting the children of a branch page on the stack keeps the marks and
/// the stack, or leaves fewer pages unmarked.
proof fn lemma_branch_no_farther(
    source: SourceModel,
    body: Seq<u8>,
    database: Option<usize>,
    i: int,
    state: WalkModel,
)
    ensures
        branch_from(source, body, database, i, state) matches Ok(next) ==> no_farther(next, state),
    decreases i,
{
    if i > 0 {
        if let Ok(child) = branch_child(body, source.width, slot(body, i - 1)) {
            lemma_enter_nearer(state, database, child);
            if let Ok(next) = enter_model(state, database, child) {
                lemma_branch_no_farther(source, body, database, i - 1, next);
            }
        }
    }
}

/// Every step brings the walk nearer to its end.
pub proof fn lemma_step_nearer(source: SourceModel, state: WalkModel)
    requires
        state.stack.len() > 0,
    ensures
        step_model(source, state) matches Ok(next) ==> nearer(next, state),
{
    let (database, page) = state.stack.last();
    let rest = WalkModel { stack: state.stack.drop_last(), ..state };
    if let Ok(found) = source.read_page(page) {
        lemma_branch_no_farther(source, found.body, database, found.count as int, rest);
        lemma_leaf_no_farther(source, found.body, found.count as int, database, 0, rest);
    }
}

/// Walks until the stack is empty, or until a step fails.
pub open spec fn run_model(source: SourceModel, state: WalkModel) -> Result<WalkModel, Fault>
    decreases unseen(state.seen), state.stack.len(),
{
    if state.stack.len() == 0 {
        Ok(state)
    } else {
        match step_model(source, state) {
            Err(fault) => Err(fault),
            Ok(next) => {
                proof {
                    lemma_step_nearer(source, state);
                }
                run_model(source, next)
            },
        }
    }
}

/// Puts a page on the stack and marks it.
pub fn enter(state: &mut WalkState, database: Option<usize>, page: u64) -> (r: Result<
    (),
    MigrateError,
>)
    ensures
        moved(r, enter_model(old(state)@, database, page), final(state)@),
{
    if page >= state.seen.len() as u64 {
        return Err(MigrateError::InvalidPageNum);
    }
    let index: usize = page as usize;
    if state.seen[index] {
        return Err(MigrateError::cycle());
    }
    state.seen.set(index, true);
    state.stack.push((database, page));
    Ok(())
}

/// Adds a record to those found so far.
pub fn record(state: &mut WalkState, database: Option<usize>, key: Vec<u8>, value: Vec<u8>)
    ensures
        final(state)@ == (WalkModel {
            records: old(state)@.records.push(RecordModel { database, key: key@, value: value@ }),
            ..old(state)@
        }),
{
    state.records.push(Record { database, key, value });
    assert(records_view(state.records@) =~= records_view(old(state).records@).push(
        RecordModel { database, key: key@, value: value@ },
    ));
}

/// Takes up what a leaf node holds.
pub fn take_node(
    reader: &PageReader,
    node: Node,
    database: Option<usize>,
    state: &mut WalkState,
) -> (r: Result<(), MigrateError>)
    ensures
        moved(r, take_model(reader@, node@, database, old(state)@), final(state)@),
{
    match node {
        Node::Inline { key, value } => {
            record(state, database, key, value);
            Ok(())
        },
        Node::Chained { key, size, first } => {
            let value = match read_chain(reader, first, size) {
                Ok(value) => value,
                Err(e) => {
                    return Err(e);
                },
            };
            record(state, database, key, value);
            Ok(())
        },
        Node::Database(found) => {
            let index: usize = state.databases.len();
            let root: u64 = found.root;
            let ghost model = found@;
            state.databases.push(found);
            assert(databases_view(state.databases@) =~= databases_view(old(state).databases@).push(
                model,
            ));
            if root == reader.width().no_page() {
                Ok(())
            } else {
                enter(state, Some(index), root)
            }
        },
    }
}

/// What a leaf page adds to the walk.
pub open spec fn leaf_model(
    source: SourceModel,
    body: Seq<u8>,
    count: int,
    database: Option<usize>,
    state: WalkModel,
) -> Result<WalkModel, Fault> {
    if !slots_fit(body, count) {
        Err(Fault::Truncated)
    } else {
        leaf_from(source, body, count, database, 0, state)
    }
}

/// Takes up the nodes of a leaf page, in the order of its slots.
pub fn process_leaf(
    reader: &PageReader,
    body: &[u8],
    count: u16,
    database: Option<usize>,
    state: &mut WalkState,
) -> (r: Result<(), MigrateError>)
    ensures
        moved(r, leaf_model(reader@, body@, count as int, database, old(state)@), final(state)@),
{
    if !check_slots(body, count) {
        return Err(MigrateError::truncated());
    }
    let width = reader.width();
    let ghost whole = leaf_from(reader@, body@, count as int, database, 0, state@);
    let mut i: u16 = 0;
    while i < count
        invariant
            i <= count,
            slots_fit(body@, count as int),
            width == reader@.width,
            whole == leaf_model(reader@, body@, count as int, database, old(state)@),
            leaf_from(reader@, body@, count as int, database, i as int, state@) == whole,
        decreases count - i,
    {
        let at: u16 = read_slot(body, count, i);
        let node = match parse_leaf_node(body, width, at) {
            Ok(node) => node,
            Err(e) => {
                return Err(e);
            },
        };
        match take_node(reader, node, database, state) {
            Ok(()) => {},
            Err(e) => {
                return Err(e);
            },
        }
        i = i + 1;
    }
    Ok(())
}

/// What a branch page adds to the walk.
pub open spec fn branch_model(
    source: SourceModel,
    body: Seq<u8>,
    count: int,
    database: Option<usize>,
    state: WalkModel,
) -> Result<WalkModel, Fault> {
    if !slots_fit(body, count) {
        Err(Fault::Truncated)
    } else {
        branch_from(source, body, database, count, state)
    }
}

/// Puts the children of a branch page on the stack, the last one first.
pub fn process_branch(
    reader: &PageReader,
    body: &[u8],
    count: u16,
    database: Option<usize>,
    state: &mut WalkState,
) -> (r: Result<(), MigrateError>)
    ensures
        moved(r, branch_model(reader@, body@, count as int, database, old(state)@), final(state)@),
{
    if !check_slots(body, count) {
        return Err(MigrateError::truncated());
    }
    let width = reader.width();
    let ghost whole = branch_from(reader@, body@, database, count as int, state@);
    let mut i: u16 = count;
    while i > 0
        invariant
            i <= count,
            slots_fit(body@, count as int),
            width == reader@.width,
            whole == branch_model(reader@, body@, count as int, database, old(state)@),
            branch_from(reader@, body@, database, i as int, state@) == whole,
        decreases i,
    {
        let at: u16 = read_slot(body, count, i - 1);
        let child: u64 = match parse_branch_node(body, width, at) {
            Ok(child) => child,
            Err(e) => {
                return Err(e);
            },
        };
        match enter(state, database, child) {
            Ok(()) => {},
            Err(e) => {
                return Err(e);
            },
        }
        i = i - 1;
    }
    Ok(())
}

/// Reads the page on top of the stack and takes up what it holds.
pub fn step(reader: &PageReader, state: &mut WalkState) -> (r: Result<(), MigrateError>)
    ensures
        moved(r, step_model(reader@, old(state)@), final(state)@),
{
    let (database, page) = match state.stack.pop() {
        Some(top) => top,
        None => {
            return Ok(());
        },
    };
    assert(state.stack@ == old(state).stack@.drop_last());
    let found = match reader.read_page(page) {
        Ok(found) => found,
        Err(e) => {
            return Err(e);
        },
    };
    match found.kind {
        PageKind::Branch => process_branch(reader, found.body, found.count, database, state),
        PageKind::Leaf => process_leaf(reader, found.body, found.count, database, state),
        _ => Err(MigrateError::UnexpectedPageVariant),
    }
}

/// Walks until the stack is empty.
pub fn run(reader: &PageReader, state: &mut WalkState) -> (r: Result<(), MigrateError>)
    ensures
        moved(r, run_model(reader@, old(state)@), final(state)@),
{
    let ghost whole = run_model(reader@, state@);
    while state.stack.len() > 0
        invariant
            whole == run_model(reader@, old(state)@),
            run_model(reader@, state@) == whole,
        decreases unseen(state@.seen), state@.stack.len(),
    {
        let ghost before = state@;
        match step(reader, state) {
            Ok(()) => {},
            Err(e) => {
                return Err(e);
            },
        }
        proof {
            lemma_step_nearer(reader@, before);
        }
    }
    Ok(())
}

/// The children of a branch page come to lie on the stack in the reverse
/// order of their slots, so that the child under the first slot is on top and
/// is read first: the records of a tree are found in the order of its keys.
pub proof fn lemma_branch_order(
    source: SourceModel,
    body: Seq<u8>,
    database: Option<usize>,
    i: int,
    state: WalkModel,
)
    requires
        0 <= i,
    ensures
        branch_from(source, body, database, i, state) matches Ok(next) ==> {
            &&& next.stack.len() == state.stack.len() + i
            &&& next.stack.subrange(0, state.stack.len() as int) == state.stack
            &&& forall|j: int|
                0 <= j < i ==> #[trigger] next.stack[state.stack.len() + j] == (
                    database,
                    branch_child(body, source.width, slot(body, i - 1 - j))->Ok_0,
                )
            &&& next.databases == state.databases
            &&& next.records == state.records
        },
    decreases i,
{
    if i > 0 {
        if let Ok(child) = branch_child(body, source.width, slot(body, i - 1)) {
            if let Ok(entered) = enter_model(state, database, child) {
                lemma_branch_order(source, body, database, i - 1, entered);
                if let Ok(next) = branch_from(source, body, database, i - 1, entered) {
                    assert(next.stack.subrange(0, state.stack.len() as int)
                        =~= next.stack.subrange(0, entered.stack.len() as int).subrange(
                        0,
                        state.stack.len() as int,
                    ));
                    assert forall|j: int| 0 <= j < i implies #[trigger] next.stack[state.stack.len()
                        + j] == (
                        database,
                        branch_child(body, source.width, slot(body, i - 1 - j))->Ok_0,
                    ) by {
                        if j == 0 {
                            assert(next.stack.subrange(0, entered.stack.len() as int)[state.stack.len() as int]
                                == entered.stack[state.stack.len() as int]);
                        } else {
                            assert(next.stack[entered.stack.len() + (j - 1)] == (
                                database,
                                branch_child(
                                    body,
                                    source.width,
                                    slot(body, (i - 1) - 1 - (j - 1)),
                                )->Ok_0,
                            ));
                        }
                    }
                }
            }
        }
    } else {
        assert(state.stack.subrange(0, state.stack.len() as int) =~= state.stack);
    }
}

/// A page that is already marked is refused wherever it is pointed to.
pub proof fn lemma_marked_page_refused(state: WalkModel, database: Option<usize>, page: u64)
    requires
        page < state.seen.len(),
        state.seen[page as int],
    ensures
        enter_model(state, database, page) == Err::<WalkModel, Fault>(Fault::Cycle),
{
}

/// A branch page stops the walk if one of its children is already marked,
/// whichever of its slots points to that child.
pub proof fn lemma_branch_revisit(
    source: SourceModel,
    body: Seq<u8>,
    database: Option<usize>,
    i: int,
    k: int,
    state: WalkModel,
)
    requires
        0 <= k < i,
        branch_child(body, source.width, slot(body, k)) matches Ok(child) && child
            < state.seen.len() && state.seen[child as int],
    ensures
        branch_from(source, body, database, i, state) is Err,
    decreases i,
{
    if i - 1 != k {
        if let Ok(child) = branch_child(body, source.width, slot(body, i - 1)) {
            if let Ok(next) = enter_model(state, database, child) {
                lemma_branch_revisit(source, body, database, i - 1, k, next);
            }
        }
    }
}

/// A walk does not go round: if the page on top of the stack is a branch
/// page and one of its children is already marked, the walk ends there with a
/// failure.
pub proof fn lemma_cycle_stops_walk(source: SourceModel, state: WalkModel, k: int)
    requires
        state.stack.len() > 0,
        source.read_page(state.stack.last().1) matches Ok(found) && found.kind == PageKind::Branch
            && slots_fit(found.body, found.count as int) && 0 <= k < found.count && (branch_child(
            found.body,
            source.width,
            slot(found.body, k),
        ) matches Ok(child) && child < state.seen.len() && state.seen[child as int]),
    ensures
        run_model(source, state) is Err,
{
    let (database, page) = state.stack.last();
    let rest = WalkModel { stack: state.stack.drop_last(), ..state };
    let found = source.read_page(page)->Ok_0;
    lemma_branch_revisit(source, found.body, database, found.count as int, k, rest);
}

/// Whether a database is the default one or one of the first `count` named
/// databases.
pub open spec fn in_list(database: Option<usize>, count: int) -> bool {
    database matches Some(place) ==> place < count
}

/// Whether every page on the stack and every record found so far belongs to
/// the default database or to a named database found so far.
pub open spec fn listed(state: WalkModel) -> bool {
    &&& forall|i: int|
        0 <= i < state.stack.len() ==> in_list((#[trigger] state.stack[i]).0, state.databases.len() as int)
    &&& forall|i: int|
        0 <= i < state.records.len() ==> in_list(
            (#[trigger] state.records[i]).database,
            state.databases.len() as int,
        )
}

/// Putting a page of a listed database on the stack keeps every page and
/// every record in the list.
proof fn lemma_enter_listed(state: WalkModel, database: Option<usize>, page: u64)
    requires
        listed(state),
        in_list(database, state.databases.len() as int),
    ensures
        enter_model(state, database, page) matches Ok(next) ==> listed(next) && next.databases
            == state.databases,
{
}

/// Taking up a node keeps every page and every record in the list, and the
/// list does not shrink.
proof fn lemma_take_listed(
    source: SourceModel,
    node: NodeModel,
    database: Option<usize>,
    state: WalkModel,
)
    requires
        listed(state),
        in_list(database, state.databases.len() as int),
    ensures
        take_model(source, node, database, state) matches Ok(next) ==> listed(next)
            && next.databases.len() >= state.databases.len(),
{
    if let NodeModel::Database(record) = node {
        let more = WalkModel { databases: state.databases.push(record), ..state };
        assert(listed(more));
        let place = state.databases.len() as usize;
        assert(place <= state.databases.len());
        lemma_enter_listed(more, Some(place), record.root);
    }
}

/// Taking up the nodes of a leaf page keeps every page and every record in
/// the list.
proof fn lemma_leaf_listed(
    source: SourceModel,
    body: Seq<u8>,
    count: int,
    database: Option<usize>,
    i: int,
    state: WalkModel,
)
    requires
        listed(state),
        in_list(database, state.databases.len() as int),
    ensures
        leaf_from(source, body, count, database, i, state) matches Ok(next) ==> listed(next),
    decreases count - i,
{
    if i < count {
        if let Ok(node) = leaf_node(body, source.width, slot(body, i)) {
            lemma_take_listed(source, node, database, state);
            if let Ok(next) = take_model(source, node, database, state) {
                lemma_leaf_listed(source, body, count, database, i + 1, next);
            }
        }
    }
}

/// Putting the children of a branch page on the stack keeps every page and
/// every record in the list.
proof fn lemma_branch_listed(
    source: SourceModel,
    body: Seq<u8>,
    database: Option<usize>,
    i: int,
    state: WalkModel,
)
    requires
        listed(state),
        in_list(database, state.databases.len() as int),
    ensures
        branch_from(source, body, database, i, state) matches Ok(next) ==> listed(next),
    decreases i,
{
    if i > 0 {
        if let Ok(child) = branch_child(body, source.width, slot(body, i - 1)) {
            lemma_enter_listed(state, database, child);
            if let Ok(next) = enter_model(state, database, child) {
                lemma_branch_listed(source, body, database, i - 1, next);
            }
        }
    }
}

/// A step keeps every page and every record in the list.
proof fn lemma_step_listed(source: SourceModel, state: WalkModel)
    requires
        listed(state),
    ensures
        step_model(source, state) matches Ok(next) ==> listed(next),
{
    if state.stack.len() > 0 {
        let (database, page) = state.stack.last();
        let rest = WalkModel { stack: state.stack.drop_last(), ..state };
        assert(in_list(state.stack[state.stack.len() - 1].0, state.databases.len() as int));
        assert(listed(rest));
        if let Ok(found) = source.read_page(page) {
            lemma_branch_listed(source, found.body, database, found.count as int, rest);
            lemma_leaf_listed(source, found.body, found.count as int, database, 0, rest);
        }
    }
}

/// Every record that a walk finds belongs to the default database or to a
/// named database that the walk has found: no record refers to a database
/// that is not in the list.
pub proof fn lemma_run_listed(source: SourceModel, state: WalkModel)
    requires
        listed(state),
    ensures
        run_model(source, state) matches Ok(end) ==> listed(end),
    decreases unseen(state.seen), state.stack.len(),
{
    if state.stack.len() > 0 {
        if let Ok(next) = step_model(source, state) {
            lemma_step_nearer(source, state);
            lemma_step_listed(source, state);
            lemma_run_listed(source, next);
        }
    }
}

} // verus!
