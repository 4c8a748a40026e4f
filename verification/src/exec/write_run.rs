//! Writing row by row: what to do next, and what to go on with.
//!
//! A run says which changes to make. Whoever makes them asks for the next ones, until the run is
//! finished and holds the rows that the query goes on with.
use crate::ast::Expr;
use crate::ast_model;
use crate::exec::assign;
use crate::exec::change;
use crate::exec::change::{
    Bindings, Change, ChangeView, Creation, CreationView, Deletion, DeletionView, Planned,
    PlannedView,
};
use crate::plan::LogicalOp;
use crate::record;
use crate::record::{NamedRecord, Row};
use crate::source;
use crate::source::{Model, Source};
use crate::types;
use crate::types::{ErrorView, GraphError, NodeId};
use vstd::prelude::*;

verus! {

/// How many things an operator sets or removes on each row.
pub open spec fn parts(op: LogicalOp) -> nat {
    match op {
        LogicalOp::SetProperty { assignments, .. } => assignments@.len(),
        LogicalOp::SetLabel { .. } => 1,
        LogicalOp::SetProperties { .. } => 1,
        LogicalOp::Remove { items, .. } => items@.len(),
        _ => 0,
    }
}

/// How many things an operator sets or removes on each row.
fn count_parts(op: &LogicalOp) -> (r: usize)
    ensures
        r == parts(*op),
{
    match op {
        LogicalOp::SetProperty { assignments, .. } => assignments.len(),
        LogicalOp::SetLabel { .. } => 1,
        LogicalOp::SetProperties { .. } => 1,
        LogicalOp::Remove { items, .. } => items.len(),
        _ => 0,
    }
}

/// What one part of an operator does on a row.
pub open spec fn part_planned(op: LogicalOp, i: int, rec: Row, m: Model) -> Result<
    PlannedView,
    ErrorView,
> {
    match op {
        LogicalOp::SetProperty { assignments, .. } => assign::assigned(rec, assignments@[i], m),
        LogicalOp::SetLabel { variable, labels, .. } => Ok(
            assign::labels_set(rec, variable@, ast_model::texts(labels@)),
        ),
        LogicalOp::SetProperties { variable, value, merge, .. } => assign::properties_set(
            rec,
            variable@,
            value,
            merge,
            m,
        ),
        LogicalOp::Remove { items, .. } => assign::removed(rec, items@[i], m),
        _ => Ok(change::nothing(rec)),
    }
}

/// What one part of an operator does on a row.
fn plan_part<S: Source>(db: &S, op: &LogicalOp, i: usize, rec: &NamedRecord) -> (r: Result<
    Planned,
    GraphError,
>)
    requires
        i < parts(*op),
    ensures
        source::steady(*db) ==> types::outcome(r) == part_planned(
            *op,
            i as int,
            rec@,
            source::model(*db),
        ),
{
    match op {
        LogicalOp::SetProperty { assignments, .. } => assign::plan_assignment(
            db,
            rec,
            &assignments[i],
        ),
        LogicalOp::SetLabel { variable, labels, .. } => Ok(
            assign::plan_labels(rec, variable.as_str(), labels),
        ),
        LogicalOp::SetProperties { variable, value, merge, .. } => assign::plan_properties(
            db,
            rec,
            variable.as_str(),
            value,
            *merge,
        ),
        LogicalOp::Remove { items, .. } => assign::plan_removal(db, rec, &items[i]),
        _ => Ok(change::plan_nothing(rec)),
    }
}

/// A SET or REMOVE on its way through the rows.
#[derive(Debug, PartialEq)]
pub struct WriteRun {
    pub rows: Vec<NamedRecord>,
    /// The row that comes next.
    pub row: usize,
    /// The part of the operator that comes next on it.
    pub part: usize,
}

/// What a [`WriteRun`] says.
pub struct WriteRunView {
    pub rows: Seq<Row>,
    pub row: int,
    pub part: int,
}

impl View for WriteRun {
    type V = WriteRunView;

    open spec fn view(&self) -> WriteRunView {
        WriteRunView {
            rows: record::rows(self.rows@),
            row: self.row as int,
            part: self.part as int,
        }
    }
}

impl WriteRunView {
    /// The run has not begun.
    pub open spec fn start(rows: Seq<Row>) -> WriteRunView {
        WriteRunView { rows, row: 0, part: 0 }
    }

    /// The run stands before a part of a row, or behind the last row.
    pub open spec fn fits(self, op: LogicalOp) -> bool {
        &&& 0 <= self.row <= self.rows.len()
        &&& 0 <= self.part
        &&& self.part < parts(op) || self.part == 0
    }

    /// Nothing is left to do.
    pub open spec fn finished(self, op: LogicalOp) -> bool {
        self.row >= self.rows.len() || parts(op) == 0
    }

    /// How many parts are left.
    pub open spec fn left(self, op: LogicalOp) -> int {
        (self.rows.len() - self.row) * parts(op) - self.part
    }

    /// The run after a part that gave the row `rec`.
    pub open spec fn after(self, op: LogicalOp, rec: Row) -> WriteRunView {
        let rows = self.rows.update(self.row, rec);
        if self.part + 1 < parts(op) {
            WriteRunView { rows, row: self.row, part: self.part + 1 }
        } else {
            WriteRunView { rows, row: self.row + 1, part: 0 }
        }
    }
}

impl WriteRun {
    /// A run through the rows.
    pub fn new(rows: Vec<NamedRecord>) -> (r: WriteRun)
        ensures
            r@ == WriteRunView::start(record::rows(rows@)),
    {
        WriteRun { rows, row: 0, part: 0 }
    }

    /// The changes of the next part; nothing once the run is finished.
    pub fn step<S: Source>(&mut self, db: &S, op: &LogicalOp) -> (r: Result<
        Option<Vec<Change>>,
        GraphError,
    >)
        requires
            old(self)@.fits(*op),
        ensures
            r is Ok ==> final(self)@.fits(*op),
            r == Ok::<Option<Vec<Change>>, GraphError>(None) <==> old(self)@.finished(*op),
            old(self)@.finished(*op) ==> final(self)@ == old(self)@,
            source::steady(*db) && !old(self)@.finished(*op) ==> (match part_planned(
                *op,
                old(self)@.part,
                old(self)@.rows[old(self)@.row],
                source::model(*db),
            ) {
                Ok(p) => {
                    &&& r matches Ok(Some(changes))
                    &&& change::changes_view(changes@) == p.changes
                    &&& final(self)@ == old(self)@.after(*op, p.row)
                },
                Err(e) => r matches Err(f) && f@ == e,
            }),
    {
        let n = count_parts(op);
        if self.row >= self.rows.len() || n == 0 {
            return Ok(None);
        }
        let ghost before = record::rows(self.rows@);
        match plan_part(db, op, self.part, &self.rows[self.row]) {
            Ok(p) => {
                self.rows.set(self.row, p.row);
                assert(record::rows(self.rows@) =~= before.update(self.row as int, p.row@));
                if self.part + 1 < n {
                    self.part = self.part + 1;
                } else {
                    self.part = 0;
                    self.row = self.row + 1;
                }
                Ok(Some(p.changes))
            },
            Err(e) => Err(e),
        }
    }
}

/// Each step of a run leaves one part less to do, so that a run comes to an end.
pub proof fn steps_come_to_an_end(run: WriteRunView, op: LogicalOp, rec: Row)
    requires
        run.fits(op),
        !run.finished(op),
    ensures
        run.left(op) > 0,
        run.after(op, rec).left(op) == run.left(op) - 1,
        run.after(op, rec).fits(op),
{
    let a = run.rows.len() - run.row;
    let p = parts(op) as int;
    assert((a - 1) * p == a * p - p) by (nonlinear_arith);
    assert(a * p >= p) by (nonlinear_arith)
        requires
            a >= 1,
            p >= 0,
    ;
}

/// Creations on their way through the rows.
#[derive(Debug, PartialEq)]
pub struct CreateRun {
    /// The rows that things are created for.
    pub inputs: Vec<NamedRecord>,
    /// The row that comes next.
    pub row: usize,
    /// The operator that comes next on it.
    pub op: usize,
    /// What was created on the row so far.
    pub current: Creation,
    /// The rows that are done.
    pub done: Vec<NamedRecord>,
    /// Properties are computed on the row as it was before, and what it binds is kept.
    pub matched: bool,
}

/// What a [`CreateRun`] says.
pub struct CreateRunView {
    pub inputs: Seq<Row>,
    pub row: int,
    pub op: int,
    pub current: CreationView,
    pub done: Seq<Row>,
    pub matched: bool,
}

impl View for CreateRun {
    type V = CreateRunView;

    open spec fn view(&self) -> CreateRunView {
        CreateRunView {
            inputs: record::rows(self.inputs@),
            row: self.row as int,
            op: self.op as int,
            current: self.current@,
            done: record::rows(self.done@),
            matched: self.matched,
        }
    }
}

/// Nothing was created on a row yet.
pub open spec fn seeded_on(rec: Row) -> CreationView {
    CreationView { bindings: change::seeded(rec, rec.len() as int), row: rec }
}

impl CreateRunView {
    /// The run stands before an operator of a row, or behind the last row.
    pub open spec fn fits(self, ops: Seq<LogicalOp>) -> bool {
        &&& 0 <= self.row <= self.inputs.len()
        &&& 0 <= self.op <= ops.len()
    }

    /// The row that properties are computed on.
    pub open spec fn from(self) -> Row {
        if self.matched {
            self.inputs[self.row]
        } else {
            self.current.row
        }
    }

    /// The run at the next row.
    pub open spec fn next_row(self) -> CreateRunView {
        CreateRunView {
            row: self.row + 1,
            op: 0,
            current: if self.row + 1 < self.inputs.len() {
                seeded_on(self.inputs[self.row + 1])
            } else {
                self.current
            },
            done: self.done.push(self.current.row),
            ..self
        }
    }

    /// What to do next, and the run after it.
    pub open spec fn stepped(self, ops: Seq<LogicalOp>, m: Model) -> Result<
        (CreateTaskView, CreateRunView),
        ErrorView,
    > {
        if self.row >= self.inputs.len() {
            Ok((CreateTaskView::Finished, self))
        } else if self.op >= ops.len() {
            Ok((CreateTaskView::GoOn, self.next_row()))
        } else {
            match change::creation(ops[self.op], self.current, self.from(), self.matched, m) {
                Ok(Some(c)) => Ok((CreateTaskView::Make(c), self)),
                Ok(None) => Ok((CreateTaskView::GoOn, self.next_op(self.current))),
                Err(e) => Err(e),
            }
        }
    }

    /// The run behind the next operator, with what was created before.
    pub open spec fn next_op(self, current: CreationView) -> CreateRunView {
        CreateRunView { op: self.op + 1, current, ..self }
    }
}

/// What the next step of a run of creations is.
#[derive(Debug, PartialEq)]
pub enum CreateTask {
    /// A change is to be made and told to the run.
    Make(Change),
    /// Nothing is to be done here; the run goes on.
    GoOn,
    /// The run is finished.
    Finished,
}

/// What a [`CreateTask`] says.
pub enum CreateTaskView {
    Make(ChangeView),
    GoOn,
    Finished,
}

impl View for CreateTask {
    type V = CreateTaskView;

    open spec fn view(&self) -> CreateTaskView {
        match self {
            CreateTask::Make(c) => CreateTaskView::Make(c@),
            CreateTask::GoOn => CreateTaskView::GoOn,
            CreateTask::Finished => CreateTaskView::Finished,
        }
    }
}

impl CreateRun {
    /// A run for a CREATE on its own.
    pub fn alone() -> (r: CreateRun)
        ensures
            r@ == (CreateRunView {
                inputs: seq![Row::empty()],
                row: 0,
                op: 0,
                current: CreationView { bindings: Bindings::empty(), row: Row::empty() },
                done: Seq::empty(),
                matched: false,
            }),
    {
        let mut inputs: Vec<NamedRecord> = Vec::new();
        inputs.push(NamedRecord::new());
        let done: Vec<NamedRecord> = Vec::new();
        assert(record::rows(inputs@) =~= seq![Row::empty()]);
        assert(record::rows(done@) =~= Seq::<Row>::empty());
        CreateRun { inputs, row: 0, op: 0, current: Creation::fresh(), done, matched: false }
    }

    /// A run for a CREATE after other clauses.
    pub fn on_rows(inputs: Vec<NamedRecord>) -> (r: CreateRun)
        ensures
            r@.inputs == record::rows(inputs@),
            r@.row == 0,
            r@.op == 0,
            r@.done == Seq::<Row>::empty(),
            r@.matched,
            inputs@.len() > 0 ==> r@.current == seeded_on(inputs@[0]@),
    {
        let current = if inputs.len() > 0 {
            Creation::on_row(&inputs[0])
        } else {
            Creation::fresh()
        };
        let done: Vec<NamedRecord> = Vec::new();
        assert(record::rows(done@) =~= Seq::<Row>::empty());
        CreateRun { inputs, row: 0, op: 0, current, done, matched: true }
    }

    /// What to do next. A change that is to be made is told to the run by `note`.
    pub fn step<S: Source>(&mut self, db: &S, ops: &Vec<LogicalOp>) -> (r: Result<
        CreateTask,
        GraphError,
    >)
        requires
            old(self)@.fits(ops@),
        ensures
            r is Ok ==> final(self)@.fits(ops@),
            source::steady(*db) ==> (match old(self)@.stepped(ops@, source::model(*db)) {
                Ok((task, next)) => {
                    &&& types::outcome(r) == Ok::<CreateTaskView, ErrorView>(task)
                    &&& final(self)@ == next
                },
                Err(e) => types::outcome(r) == Err::<CreateTaskView, ErrorView>(e),
            }),
    {
        if self.row >= self.inputs.len() {
            return Ok(CreateTask::Finished);
        }
        if self.op >= ops.len() {
            let ghost before = record::rows(self.done@);
            let next = if self.row + 1 < self.inputs.len() {
                Creation::on_row(&self.inputs[self.row + 1])
            } else {
                let row = self.current.row.dup();
                let mut bindings: Vec<(String, NodeId)> = Vec::new();
                std::mem::swap(&mut bindings, &mut self.current.bindings);
                Creation { bindings, row }
            };
            let finished = self.current.row.dup();
            self.done.push(finished);
            assert(record::rows(self.done@) =~= before.push(finished@));
            self.current = next;
            self.row = self.row + 1;
            self.op = 0;
            return Ok(CreateTask::GoOn);
        }
        let planned = if self.matched {
            change::plan_creation(
                db,
                &ops[self.op],
                &self.current,
                &self.inputs[self.row],
                true,
            )
        } else {
            change::plan_creation(db, &ops[self.op], &self.current, &self.current.row, false)
        };
        match planned {
            Ok(Some(c)) => Ok(CreateTask::Make(c)),
            Ok(None) => {
                self.op = self.op + 1;
                Ok(CreateTask::GoOn)
            },
            Err(e) => Err(e),
        }
    }

    /// A change was made; `id` is the id of a node that was created.
    pub fn note(self, ops: &Vec<LogicalOp>, c: &Change, id: NodeId) -> (r: CreateRun)
        requires
            self@.fits(ops@),
            self@.op < ops@.len(),
        ensures
            r@ == self@.next_op(change::noted(ops@[self@.op], self@.current, c@, id)),
            r@.fits(ops@),
    {
        assert(self.op < ops.len());
        let current = change::note_creation(&ops[self.op], self.current, c, id);
        CreateRun {
            inputs: self.inputs,
            row: self.row,
            op: self.op + 1,
            current,
            done: self.done,
            matched: self.matched,
        }
    }
}

/// The rows of a DELETE, and all that is to be deleted, row by row.
pub open spec fn all_marked(rs: Seq<Row>, exprs: Seq<Expr>, m: Model) -> Result<
    (Seq<Row>, DeletionView),
    ErrorView,
>
    decreases rs.len(),
{
    if rs.len() == 0 {
        Ok((Seq::empty(), change::no_deletion()))
    } else {
        match all_marked(rs.drop_last(), exprs, m) {
            Ok((done, d)) => match change::marked(rs.last(), exprs, m) {
                Ok(s) => Ok((done.push(s.row), d.and(s.deletion))),
                Err(e) => Err(e),
            },
            Err(e) => Err(e),
        }
    }
}

/// The first row that fails decides.
proof fn lemma_all_marked_stops(rs: Seq<Row>, exprs: Seq<Expr>, m: Model, i: int)
    requires
        0 <= i <= rs.len(),
        all_marked(rs.take(i), exprs, m) is Err,
    ensures
        all_marked(rs, exprs, m) == all_marked(rs.take(i), exprs, m),
    decreases rs.len(),
{
    if i < rs.len() {
        assert(rs.drop_last().take(i) =~= rs.take(i));
        lemma_all_marked_stops(rs.drop_last(), exprs, m, i);
    } else {
        assert(rs.take(i) =~= rs);
    }
}

/// The rows of a DELETE, with what it deletes marked, and all that is to be deleted. The
/// relationships are deleted before the nodes, so that paths that share nodes do not get into
/// each other's way.
pub fn plan_deletion<S: Source>(db: &S, rs: Vec<NamedRecord>, exprs: &Vec<Expr>) -> (r: Result<
    (Vec<NamedRecord>, Deletion),
    GraphError,
>)
    ensures
        source::steady(*db) ==> (match all_marked(
            record::rows(rs@),
            exprs@,
            source::model(*db),
        ) {
            Ok((rows, d)) => r matches Ok((out, e)) && record::rows(out@) == rows && e@ == d,
            Err(e) => r matches Err(f) && f@ == e,
        }),
{
    let ghost m = source::model(*db);
    let ghost s = record::rows(rs@);
    let mut out: Vec<NamedRecord> = Vec::new();
    let mut d = Deletion::new();
    let mut i: usize = 0;
    assert(s.take(0) =~= Seq::<Row>::empty());
    assert(record::rows(out@) =~= Seq::<Row>::empty());
    while i < rs.len()
        invariant
            i <= rs.len(),
            m == source::model(*db),
            s == record::rows(rs@),
            source::steady(*db) ==> all_marked(s.take(i as int), exprs@, m) == Ok::<
                (Seq<Row>, DeletionView),
                ErrorView,
            >((record::rows(out@), d@)),
        decreases rs.len() - i,
    {
        assert(s.take(i + 1).drop_last() =~= s.take(i as int));
        assert(s.take(i + 1).last() == rs@[i as int]@);
        let ghost before = record::rows(out@);
        let mut rec = rs[i].dup();
        match change::mark_deleted(db, &mut rec, exprs, &mut d) {
            Ok(_) => {
                out.push(rec);
                assert(record::rows(out@) =~= before.push(rec@));
            },
            Err(e) => {
                proof {
                    if source::steady(*db) {
                        lemma_all_marked_stops(s, exprs@, m, i + 1);
                    }
                }
                return Err(e);
            },
        }
        i = i + 1;
    }
    assert(s.take(s.len() as int) =~= s);
    Ok((out, d))
}

} // verus!
