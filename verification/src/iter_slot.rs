//! Pull-based iterators over rows by slots.
//!
//! Each iterator knows the names of the slots in its rows. Where an operator needs a row by
//! names, the slots are spelled out; at the end the rows are turned into named ones.
use crate::assoc;
use crate::ast::{Expr, ExprKind, ReturnItem, SortItem};
use crate::ast_model;
use crate::ast_model::{ExprKindView, ExprView, ReturnItemView, SortItemView};
use crate::binding;
use crate::exec::arrange;
use crate::exec::expand;
use crate::exec::expand::Expansion;
use crate::exec::flow;
use crate::exec::flow::{Outcome, Rows};
use crate::exec::group;
use crate::exec::project;
use crate::exec::read;
use crate::exec::run;
use crate::iter;
use crate::iter::{ExpandIter, RecordIter, Stream, VecIter};
use crate::order;
use crate::plan;
use crate::plan::{AggregateExpr, ExecContext, LogicalOp};
use crate::queue::Queue;
use crate::record;
use crate::record::{NamedRecord, RecordSchema, Row, SlotRecord};
use crate::source;
use crate::source::{Model, Source};
use crate::text;
use crate::types;
use crate::types::{ErrorView, GraphError, NodeId};
use crate::value;
use crate::value::{Node, NodeView, Value, ValueView};
use vstd::prelude::*;

verus! {

/// The values of a row by slots.
pub type Cells = Seq<ValueView>;

/// The names of slots.
pub type Names = Seq<Seq<char>>;

/// Yields one row at a time. Pulling can fail.
pub trait SlotRecordIter {
    /// The rows that are still to come.
    spec fn rows(&self) -> Seq<Cells>;

    /// The failure that comes after them, if one does.
    spec fn fault(&self) -> Option<ErrorView>;

    /// The names of the slots in the rows.
    spec fn names(&self) -> Names;

    /// What the iterator reads answers the same question the same way.
    spec fn sound(&self) -> bool;

    /// No more rows than these come, whatever the iterator reads.
    spec fn bound(&self) -> nat;

    /// The next row, or nothing when there is none left.
    fn next_slot(&mut self) -> (r: Result<Option<SlotRecord>, GraphError>)
        ensures
            r matches Ok(Some(_)) ==> final(self).bound() < old(self).bound(),
            old(self).sound() ==> yields(
                Stream { rows: old(self).rows(), fault: old(self).fault() },
                r,
                Stream { rows: final(self).rows(), fault: final(self).fault() },
            ) && (r is Ok ==> final(self).sound() && final(self).names() == old(self).names()),
    ;

    /// The schema of the rows.
    fn schema(&self) -> (r: &RecordSchema)
        ensures
            r@ == self.names(),
    ;
}

/// A pull takes the first row of what is left, or tells how it ends.
pub open spec fn yields(
    before: Stream<Cells>,
    r: Result<Option<SlotRecord>, GraphError>,
    after: Stream<Cells>,
) -> bool {
    match r {
        Ok(Some(rec)) => {
            &&& before.rows.len() > 0
            &&& rec@ == before.rows[0]
            &&& after.rows == before.rows.drop_first()
            &&& after.fault == before.fault
        },
        Ok(None) => {
            &&& before.rows.len() == 0
            &&& before.fault is None
            &&& after.rows.len() == 0
            &&& after.fault is None
        },
        Err(e) => before.rows.len() == 0 && before.fault == Some(e@),
    }
}

/// Rows by names.
pub open spec fn spelled_out(names: Names, rows: Seq<Cells>) -> Seq<Row> {
    Seq::new(rows.len(), |i: int| record::named(names, rows[i]))
}

/// Rows by slots.
pub open spec fn laid_out(names: Names, rows: Seq<Row>) -> Seq<Cells> {
    Seq::new(rows.len(), |i: int| record::slotted(names, rows[i]))
}

/// What an operator on named rows makes of a row by slots.
pub open spec fn reshaped(names: Names, out: Names, f: spec_fn(Row) -> Rows) -> spec_fn(
    Cells,
) -> Result<Seq<Cells>, ErrorView> {
    |c: Cells|
        match f(record::named(names, c)) {
            Ok(rs) => Ok(laid_out(out, rs)),
            Err(e) => Err(e),
        }
}

/// Rows by slots, up to a failure, as one outcome.
pub open spec fn drained(rows: Seq<Cells>, fault: Option<ErrorView>) -> Result<
    Seq<Cells>,
    ErrorView,
> {
    match fault {
        Some(e) => Err(e),
        None => Ok(rows),
    }
}

/// Rows by slots as rows by names.
pub open spec fn all_named(rs: Result<Seq<Cells>, ErrorView>, names: Names) -> Rows {
    match rs {
        Ok(rs) => Ok(spelled_out(names, rs)),
        Err(e) => Err(e),
    }
}

/// What rows by slots say.
pub open spec fn cells_told(r: Result<Vec<SlotRecord>, GraphError>) -> Result<
    Seq<Cells>,
    ErrorView,
> {
    match r {
        Ok(v) => Ok(record::slot_rows(v@)),
        Err(e) => Err(e@),
    }
}

/// All rows of an iterator, by slots.
fn collect_slots<I: SlotRecordIter + ?Sized>(iter: &mut I) -> (r: Result<
    Vec<SlotRecord>,
    GraphError,
>)
    ensures
        old(iter).sound() ==> {
            &&& cells_told(r) == drained(old(iter).rows(), old(iter).fault())
            &&& r is Ok ==> {
                &&& final(iter).sound()
                &&& final(iter).names() == old(iter).names()
                &&& final(iter).rows().len() == 0
                &&& final(iter).fault() is None
            }
        },
{
    let mut out: Vec<SlotRecord> = Vec::new();
    let ghost all = iter.rows();
    let ghost end = iter.fault();
    assert(record::slot_rows(out@) + iter.rows() =~= all);
    loop
        invariant
            all == old(iter).rows(),
            end == old(iter).fault(),
            old(iter).sound() ==> {
                &&& iter.sound()
                &&& iter.names() == old(iter).names()
                &&& iter.fault() == end
                &&& record::slot_rows(out@) + iter.rows() == all
            },
        decreases iter.bound(),
    {
        let ghost before = iter.rows();
        let ghost held = record::slot_rows(out@);
        match iter.next_slot() {
            Ok(Some(rec)) => {
                out.push(rec);
                assert(record::slot_rows(out@) =~= held.push(rec@));
                assert(old(iter).sound() ==> held.push(rec@) + before.drop_first() =~= held
                    + before);
            },
            Ok(None) => {
                assert(old(iter).sound() ==> record::slot_rows(out@) =~= all);
                return Ok(out);
            },
            Err(e) => {
                return Err(e);
            },
        }
    }
}

/// Rows by slots as rows by names.
fn spell_out(schema: &RecordSchema, rs: &Vec<SlotRecord>) -> (r: Vec<NamedRecord>)
    ensures
        record::rows(r@) == spelled_out(schema@, record::slot_rows(rs@)),
{
    let ghost whole = spelled_out(schema@, record::slot_rows(rs@));
    let mut out: Vec<NamedRecord> = Vec::new();
    let mut i: usize = 0;
    while i < rs.len()
        invariant
            i <= rs.len(),
            whole == spelled_out(schema@, record::slot_rows(rs@)),
            record::rows(out@) == whole.take(i as int),
        decreases rs.len() - i,
    {
        let ghost before = record::rows(out@);
        let rec = record::materialize_named(schema, &rs[i]);
        out.push(rec);
        assert(record::rows(out@) =~= before.push(rec@));
        assert(whole.take(i + 1) =~= whole.take(i as int).push(whole[i as int]));
        i = i + 1;
    }
    assert(whole.take(whole.len() as int) =~= whole);
    out
}

/// Rows by names as rows by slots.
fn lay_out(schema: &RecordSchema, rs: &Vec<NamedRecord>) -> (r: Vec<SlotRecord>)
    ensures
        record::slot_rows(r@) == laid_out(schema@, record::rows(rs@)),
{
    let ghost whole = laid_out(schema@, record::rows(rs@));
    let mut out: Vec<SlotRecord> = Vec::new();
    let mut i: usize = 0;
    while i < rs.len()
        invariant
            i <= rs.len(),
            whole == laid_out(schema@, record::rows(rs@)),
            record::slot_rows(out@) == whole.take(i as int),
        decreases rs.len() - i,
    {
        let ghost before = record::slot_rows(out@);
        let rec = record::named_to_slot(schema, &rs[i]);
        out.push(rec);
        assert(record::slot_rows(out@) =~= before.push(rec@));
        assert(whole.take(i + 1) =~= whole.take(i as int).push(whole[i as int]));
        i = i + 1;
    }
    assert(whole.take(whole.len() as int) =~= whole);
    out
}

/// A queue of rows by slots.
fn queue_of(rs: Vec<SlotRecord>) -> (r: Queue<SlotRecord>)
    ensures
        r@ == record::slot_rows(rs@),
        r@.len() <= usize::MAX,
{
    assert(rs.len() <= usize::MAX);
    assert(flow::viewed(rs@) =~= record::slot_rows(rs@));
    Queue::new(rs)
}

/// All rows of an iterator, which has none left then, by names.
pub fn collect_to_named<I: SlotRecordIter + ?Sized>(iter: &mut I) -> (r: Outcome)
    ensures
        old(iter).sound() ==> flow::rows_told(r) == all_named(
            drained(old(iter).rows(), old(iter).fault()),
            old(iter).names(),
        ),
        old(iter).sound() && r is Ok ==> {
            &&& final(iter).sound()
            &&& final(iter).names() == old(iter).names()
            &&& final(iter).rows().len() == 0
            &&& final(iter).fault() is None
        },
{
    match collect_slots(iter) {
        Ok(rs) => Ok(spell_out(iter.schema(), &rs)),
        Err(e) => Err(e),
    }
}

/// Yields a single row without slots.
pub struct EmptyRowSlotIter {
    schema: RecordSchema,
    done: bool,
}

impl EmptyRowSlotIter {
    /// Yields a single row without slots.
    pub fn new() -> (r: EmptyRowSlotIter)
        ensures
            r.rows() == seq![Cells::empty()],
            r.fault() is None,
            r.names() == Names::empty(),
            r.sound(),
    {
        EmptyRowSlotIter { schema: RecordSchema::new(), done: false }
    }
}

impl Default for EmptyRowSlotIter {
    fn default() -> (r: EmptyRowSlotIter)
        ensures
            r.rows() == seq![Cells::empty()],
            r.fault() is None,
            r.names() == Names::empty(),
            r.sound(),
    {
        EmptyRowSlotIter::new()
    }
}

impl SlotRecordIter for EmptyRowSlotIter {
    closed spec fn rows(&self) -> Seq<Cells> {
        if self.done {
            Seq::empty()
        } else {
            seq![Cells::empty()]
        }
    }

    closed spec fn bound(&self) -> nat {
        if self.done {
            0
        } else {
            1
        }
    }

    open spec fn fault(&self) -> Option<ErrorView> {
        None
    }

    closed spec fn names(&self) -> Names {
        self.schema@
    }

    open spec fn sound(&self) -> bool {
        true
    }

    fn next_slot(&mut self) -> (r: Result<Option<SlotRecord>, GraphError>) {
        if self.done {
            Ok(None)
        } else {
            let ghost before = self.rows();
            self.done = true;
            assert(self.rows() =~= before.drop_first());
            Ok(Some(SlotRecord::new()))
        }
    }

    fn schema(&self) -> (r: &RecordSchema) {
        &self.schema
    }
}

/// Yields named rows that are there already, by slots.
pub struct MaterializedSlotIter {
    records: Queue<NamedRecord>,
    schema: RecordSchema,
}

impl MaterializedSlotIter {
    /// Yields the rows in order. What the schema has no slot for is left out.
    pub fn new(records: Vec<NamedRecord>, schema: RecordSchema) -> (r: MaterializedSlotIter)
        ensures
            r.rows() == laid_out(schema@, record::rows(records@)),
            r.fault() is None,
            r.names() == schema@,
            r.sound(),
    {
        assert(flow::viewed(records@) =~= record::rows(records@));
        MaterializedSlotIter { records: Queue::new(records), schema }
    }
}

impl SlotRecordIter for MaterializedSlotIter {
    closed spec fn rows(&self) -> Seq<Cells> {
        laid_out(self.schema@, self.records@)
    }

    closed spec fn bound(&self) -> nat {
        self.records@.len()
    }

    open spec fn fault(&self) -> Option<ErrorView> {
        None
    }

    closed spec fn names(&self) -> Names {
        self.schema@
    }

    open spec fn sound(&self) -> bool {
        true
    }

    fn next_slot(&mut self) -> (r: Result<Option<SlotRecord>, GraphError>) {
        let ghost before = self.rows();
        match self.records.pop() {
            Some(rec) => {
                assert(self.rows() =~= before.drop_first());
                Ok(Some(record::named_to_slot(&self.schema, &rec)))
            },
            None => Ok(None),
        }
    }

    fn schema(&self) -> (r: &RecordSchema) {
        &self.schema
    }
}

/// Yields rows by slots that are there already.
pub struct VecSlotIter {
    records: Queue<SlotRecord>,
    schema: RecordSchema,
}

impl VecSlotIter {
    /// Yields the rows in order.
    pub fn new(records: Vec<SlotRecord>, schema: RecordSchema) -> (r: VecSlotIter)
        ensures
            r.rows() == record::slot_rows(records@),
            r.fault() is None,
            r.names() == schema@,
            r.sound(),
    {
        VecSlotIter { records: queue_of(records), schema }
    }
}

impl SlotRecordIter for VecSlotIter {
    closed spec fn rows(&self) -> Seq<Cells> {
        self.records@
    }

    closed spec fn bound(&self) -> nat {
        self.records@.len()
    }

    open spec fn fault(&self) -> Option<ErrorView> {
        None
    }

    closed spec fn names(&self) -> Names {
        self.schema@
    }

    open spec fn sound(&self) -> bool {
        true
    }

    fn next_slot(&mut self) -> (r: Result<Option<SlotRecord>, GraphError>) {
        Ok(self.records.pop())
    }

    fn schema(&self) -> (r: &RecordSchema) {
        &self.schema
    }
}

/// Yields at most so many rows of its input.
pub struct LimitSlotIter<I: ?Sized> {
    pub input: Box<I>,
    pub remaining: u64,
}

impl<'a> SlotRecordIter for LimitSlotIter<dyn SlotRecordIter + 'a> {
    open spec fn rows(&self) -> Seq<Cells> {
        if self.remaining <= self.input.rows().len() {
            self.input.rows().take(self.remaining as int)
        } else {
            self.input.rows()
        }
    }

    open spec fn fault(&self) -> Option<ErrorView> {
        if self.remaining <= self.input.rows().len() {
            None
        } else {
            self.input.fault()
        }
    }

    open spec fn names(&self) -> Names {
        self.input.names()
    }

    open spec fn sound(&self) -> bool {
        self.input.sound()
    }

    open spec fn bound(&self) -> nat {
        self.input.bound()
    }

    fn next_slot(&mut self) -> (r: Result<Option<SlotRecord>, GraphError>) {
        if self.remaining == 0 {
            return Ok(None);
        }
        let ghost before = self.rows();
        match self.input.next_slot() {
            Ok(Some(rec)) => {
                self.remaining = self.remaining - 1;
                assert(old(self).sound() ==> self.rows() =~= before.drop_first());
                Ok(Some(rec))
            },
            Ok(None) => Ok(None),
            Err(e) => Err(e),
        }
    }

    fn schema(&self) -> (r: &RecordSchema) {
        self.input.schema()
    }
}

/// Yields the rows of its input, and fails where there are more than an operator may produce.
pub struct CappedSlotIter<I: ?Sized> {
    pub input: Box<I>,
    /// How many rows an operator may produce.
    pub max: usize,
    /// How many of them are left.
    pub left: usize,
}

impl<'a> SlotRecordIter for CappedSlotIter<dyn SlotRecordIter + 'a> {
    open spec fn rows(&self) -> Seq<Cells> {
        if self.left < self.input.rows().len() {
            self.input.rows().take(self.left as int)
        } else {
            self.input.rows()
        }
    }

    open spec fn fault(&self) -> Option<ErrorView> {
        if self.left < self.input.rows().len() {
            Some(plan::too_many_rows(self.max))
        } else {
            self.input.fault()
        }
    }

    open spec fn names(&self) -> Names {
        self.input.names()
    }

    open spec fn sound(&self) -> bool {
        self.input.sound()
    }

    open spec fn bound(&self) -> nat {
        self.input.bound()
    }

    fn next_slot(&mut self) -> (r: Result<Option<SlotRecord>, GraphError>) {
        let ghost before = self.rows();
        match self.input.next_slot() {
            Ok(Some(rec)) => {
                if self.left == 0 {
                    return Err(plan::too_many_rows_error(self.max));
                }
                self.left = self.left - 1;
                assert(old(self).sound() ==> self.rows() =~= before.drop_first());
                Ok(Some(rec))
            },
            Ok(None) => Ok(None),
            Err(e) => Err(e),
        }
    }

    fn schema(&self) -> (r: &RecordSchema) {
        self.input.schema()
    }
}

/// Leaves out the first rows of its input.
pub struct SkipSlotIter<I: ?Sized> {
    pub input: Box<I>,
    pub remaining_to_skip: u64,
}

impl<'a> SlotRecordIter for SkipSlotIter<dyn SlotRecordIter + 'a> {
    open spec fn rows(&self) -> Seq<Cells> {
        arrange::skipped(self.input.rows(), self.remaining_to_skip)
    }

    open spec fn fault(&self) -> Option<ErrorView> {
        self.input.fault()
    }

    open spec fn names(&self) -> Names {
        self.input.names()
    }

    open spec fn sound(&self) -> bool {
        self.input.sound()
    }

    open spec fn bound(&self) -> nat {
        self.input.bound()
    }

    fn next_slot(&mut self) -> (r: Result<Option<SlotRecord>, GraphError>) {
        while self.remaining_to_skip > 0
            invariant
                self.bound() <= old(self).bound(),
                old(self).sound() ==> {
                    &&& self.sound()
                    &&& self.rows() == old(self).rows()
                    &&& self.fault() == old(self).fault()
                    &&& self.names() == old(self).names()
                },
            decreases self.remaining_to_skip,
        {
            let ghost before = self.input.rows();
            let ghost n = self.remaining_to_skip;
            match self.input.next_slot() {
                Ok(Some(_)) => {
                    self.remaining_to_skip = self.remaining_to_skip - 1;
                    assert(before.len() > 0 ==> arrange::skipped(
                        before.drop_first(),
                        (n - 1) as u64,
                    ) =~= arrange::skipped(before, n));
                },
                Ok(None) => {
                    return Ok(None);
                },
                Err(e) => {
                    return Err(e);
                },
            }
        }
        assert(self.rows() =~= self.input.rows());
        let r = self.input.next_slot();
        proof {
            if r is Ok {
                assert(self.rows() =~= self.input.rows());
            }
        }
        r
    }

    fn schema(&self) -> (r: &RecordSchema) {
        self.input.schema()
    }
}

/// Whether a predicate keeps a row by slots.
pub open spec fn cells_kept(names: Names, predicate: ExprView, m: Model) -> spec_fn(
    Cells,
) -> Result<Seq<Cells>, ErrorView> {
    |c: Cells|
        match (m.holds)(predicate, record::named(names, c)) {
            Ok(true) => Ok(seq![c]),
            Ok(false) => Ok(Seq::empty()),
            Err(e) => Err(e),
        }
}

/// Yields the rows of its input on which a predicate holds.
pub struct FilterSlotIter<'a, S, I: ?Sized> {
    pub input: Box<I>,
    pub predicate: &'a Expr,
    pub db: &'a S,
}

impl<'a, S: Source> FilterSlotIter<'a, S, dyn SlotRecordIter + 'a> {
    /// What the iterator still yields.
    pub open spec fn left(&self) -> Stream<Cells> {
        iter::streamed(
            Stream { rows: self.input.rows(), fault: self.input.fault() },
            cells_kept(self.input.names(), self.predicate@, source::model(*self.db)),
        )
    }
}

impl<'a, S: Source> SlotRecordIter for FilterSlotIter<'a, S, dyn SlotRecordIter + 'a> {
    open spec fn rows(&self) -> Seq<Cells> {
        self.left().rows
    }

    open spec fn fault(&self) -> Option<ErrorView> {
        self.left().fault
    }

    open spec fn names(&self) -> Names {
        self.input.names()
    }

    open spec fn sound(&self) -> bool {
        self.input.sound() && source::steady(*self.db)
    }

    open spec fn bound(&self) -> nat {
        self.input.bound()
    }

    fn next_slot(&mut self) -> (r: Result<Option<SlotRecord>, GraphError>) {
        loop
            invariant
                self.bound() <= old(self).bound(),
                old(self).sound() ==> {
                    &&& self.sound()
                    &&& self.left() == old(self).left()
                    &&& self.names() == old(self).names()
                },
            decreases self.input.bound(),
        {
            let ghost before = self.left();
            match self.input.next_slot() {
                Ok(Some(rec)) => {
                    let named = record::materialize_named(self.input.schema(), &rec);
                    match source::ask_holds(self.db, self.predicate, &named) {
                        Ok(true) => {
                            proof {
                                if old(self).sound() {
                                    assert(before.rows =~= seq![rec@] + self.left().rows);
                                    assert(before.rows.drop_first() =~= self.left().rows);
                                }
                            }
                            return Ok(Some(rec));
                        },
                        Ok(false) => {
                            assert(old(self).sound() ==> before.rows =~= self.left().rows);
                        },
                        Err(e) => {
                            return Err(e);
                        },
                    }
                },
                Ok(None) => {
                    return Ok(None);
                },
                Err(e) => {
                    return Err(e);
                },
            }
        }
    }

    fn schema(&self) -> (r: &RecordSchema) {
        self.input.schema()
    }
}

/// The name of the column that an item gives.
pub open spec fn item_column(item: ReturnItemView, m: Model) -> Seq<char> {
    match item.alias {
        Some(a) => a,
        None => (m.column_name)(item.expr),
    }
}

/// The name of the column that an item gives.
pub fn column_name_for_item<S: Source>(db: &S, item: &ReturnItem) -> (r: String)
    ensures
        source::steady(*db) ==> r@ == item_column(item@, source::model(*db)),
{
    match &item.alias {
        Some(a) => a.clone(),
        None => source::ask_column_name(db, &item.expr),
    }
}

/// The value of an item. A literal, and a property that the row has a field for, are not
/// evaluated; a property of something deleted is.
pub open spec fn item_value(rec: Row, e: ExprView, m: Model) -> Result<ValueView, ErrorView> {
    match e.kind {
        ExprKindView::Literal(l) => Ok(read::literal(l, m)),
        ExprKindView::Property(var, prop) => match assoc::lookup(rec, text::dotted(var, prop)) {
            Some(v) if !project::reads_deleted(rec, e) => Ok(v),
            _ => (m.eval)(e, rec),
        },
        _ => (m.eval)(e, rec),
    }
}

/// The value of an item.
pub fn eval_project_item<S: Source>(db: &S, rec: &NamedRecord, e: &Expr) -> (r: Result<
    Value,
    GraphError,
>)
    ensures
        source::steady(*db) ==> types::outcome(r) == item_value(rec@, e@, source::model(*db)),
{
    match &e.kind {
        ExprKind::Literal(l) => Ok(read::literal_to_value(db, l)),
        ExprKind::Property(var, prop) => {
            if !property_deleted_var(rec, e) {
                match rec.get(text::field(var.as_str(), prop.as_str()).as_str()) {
                    Some(v) => {
                        return Ok(v.dup());
                    },
                    None => {},
                }
            }
            source::ask_eval(db, e, rec)
        },
        _ => source::ask_eval(db, e, rec),
    }
}

/// True when an expression reads a property of something that was deleted.
pub fn property_deleted_var(rec: &NamedRecord, e: &Expr) -> (r: bool)
    ensures
        r == project::reads_deleted(rec@, e@),
{
    match &e.kind {
        ExprKind::Property(var, _) => match rec.get(text::field(var.as_str(), "__deleted").as_str()) {
            Some(Value::Bool(true)) => true,
            _ => false,
        },
        _ => false,
    }
}

/// The value that a row by slots has for an item: the one that it holds already under the
/// expression's own name, or, where it is an aggregate, under the column's; else the computed
/// one.
pub open spec fn slot_item(rec: Row, e: ExprView, col: Seq<char>, own: Seq<char>, m: Model) -> Result<
    ValueView,
    ErrorView,
> {
    if project::reads_deleted(rec, e) {
        item_value(rec, e, m)
    } else {
        match assoc::lookup(rec, own) {
            Some(v) => Ok(v),
            None => match assoc::lookup(rec, col) {
                Some(v) if col != own && plan::aggregate_call(e) => Ok(v),
                _ => item_value(rec, e, m),
            },
        }
    }
}

/// The value that a row by slots has for an item.
fn find_slot_item<S: Source>(db: &S, rec: &NamedRecord, e: &Expr, col: &str, own: &str) -> (r: Result<
    Value,
    GraphError,
>)
    ensures
        source::steady(*db) ==> types::outcome(r) == slot_item(
            rec@,
            e@,
            col@,
            own@,
            source::model(*db),
        ),
{
    if property_deleted_var(rec, e) {
        return eval_project_item(db, rec, e);
    }
    match rec.get(own) {
        Some(v) => {
            return Ok(v.dup());
        },
        None => {},
    }
    if !text::same_str(col, own) && plan::is_aggregate_call(e) {
        match rec.get(col) {
            Some(v) => {
                return Ok(v.dup());
            },
            None => {},
        }
    }
    eval_project_item(db, rec, e)
}

/// The columns of the items that there are slots for.
pub open spec fn slot_columns(rec: Row, items: Seq<ReturnItemView>, out: Names, m: Model) -> Result<
    Row,
    ErrorView,
>
    decreases items.len(),
{
    if items.len() == 0 {
        Ok(Row::empty())
    } else {
        match slot_columns(rec, items.drop_last(), out, m) {
            Ok(p) => {
                let item = items.last();
                let col = item_column(item, m);
                if assoc::place(out, col) < out.len() {
                    match slot_item(rec, item.expr, col, (m.column_name)(item.expr), m) {
                        Ok(v) => Ok(assoc::put(p, col, v)),
                        Err(e) => Err(e),
                    }
                } else {
                    Ok(p)
                }
            },
            Err(e) => Err(e),
        }
    }
}

/// The first item that fails decides.
proof fn lemma_slot_columns_stops(
    rec: Row,
    items: Seq<ReturnItemView>,
    out: Names,
    m: Model,
    i: int,
)
    requires
        0 <= i <= items.len(),
        slot_columns(rec, items.take(i), out, m) is Err,
    ensures
        slot_columns(rec, items, out, m) == slot_columns(rec, items.take(i), out, m),
    decreases items.len(),
{
    if i < items.len() {
        assert(items.drop_last().take(i) =~= items.take(i));
        lemma_slot_columns_stops(rec, items.drop_last(), out, m, i);
    } else {
        assert(items.take(i) =~= items);
    }
}

/// The columns of the items that there are slots for.
fn find_slot_columns<S: Source>(
    db: &S,
    rec: &NamedRecord,
    items: &Vec<ReturnItem>,
    out: &RecordSchema,
) -> (r: Result<NamedRecord, GraphError>)
    ensures
        source::steady(*db) ==> project::row_told(r) == slot_columns(
            rec@,
            ast_model::return_items_view(items@),
            out@,
            source::model(*db),
        ),
{
    let ghost s = ast_model::return_items_view(items@);
    let ghost m = source::model(*db);
    let mut p = NamedRecord::new();
    let mut i: usize = 0;
    assert(s.take(0) =~= Seq::<ReturnItemView>::empty());
    while i < items.len()
        invariant
            i <= items.len(),
            s == ast_model::return_items_view(items@),
            m == source::model(*db),
            source::steady(*db) ==> slot_columns(rec@, s.take(i as int), out@, m) == Ok::<
                Row,
                ErrorView,
            >(p@),
        decreases items.len() - i,
    {
        broadcast use ast_model::group_list_views;

        assert(s.take(i + 1).drop_last() =~= s.take(i as int));
        assert(s.take(i + 1).last() == items@[i as int]@);
        let item = &items[i];
        let col = column_name_for_item(db, item);
        match out.slot(col.as_str()) {
            Some(_) => {
                let own = source::ask_column_name(db, &item.expr);
                match find_slot_item(db, rec, &item.expr, col.as_str(), own.as_str()) {
                    Ok(v) => {
                        p.set(col, v);
                    },
                    Err(e) => {
                        proof {
                            if source::steady(*db) {
                                lemma_slot_columns_stops(rec@, s, out@, m, i + 1);
                            }
                        }
                        return Err(e);
                    },
                }
            },
            None => {},
        }
        i = i + 1;
    }
    assert(s.take(s.len() as int) =~= s);
    Ok(p)
}

/// The row of the columns of the items that there are slots for.
pub open spec fn slot_projected(rec: Row, items: Seq<ReturnItemView>, out: Names, m: Model) -> Rows {
    match slot_columns(rec, items, out, m) {
        Ok(p) => Ok(seq![p]),
        Err(e) => Err(e),
    }
}

/// Yields the columns that the items of a RETURN or WITH give for the rows of its input.
pub struct ProjectSlotIter<'a, S, I: ?Sized> {
    pub input: Box<I>,
    pub items: &'a Vec<ReturnItem>,
    pub output_schema: RecordSchema,
    pub db: &'a S,
}

impl<'a, S, I: ?Sized> ProjectSlotIter<'a, S, I> {
    /// The columns of the items for the rows of an iterator.
    pub fn new(
        input: Box<I>,
        items: &'a Vec<ReturnItem>,
        output_schema: RecordSchema,
        db: &'a S,
    ) -> (r: ProjectSlotIter<'a, S, I>)
        ensures
            r == (ProjectSlotIter { input, items, output_schema, db }),
    {
        ProjectSlotIter { input, items, output_schema, db }
    }
}

impl<'a, S: Source> ProjectSlotIter<'a, S, dyn SlotRecordIter + 'a> {
    /// What the iterator still yields.
    pub open spec fn left(&self) -> Stream<Cells> {
        let items = ast_model::return_items_view(self.items@);
        let out = self.output_schema@;
        let m = source::model(*self.db);
        iter::streamed(
            Stream { rows: self.input.rows(), fault: self.input.fault() },
            reshaped(self.input.names(), out, |rec: Row| slot_projected(rec, items, out, m)),
        )
    }
}

impl<'a, S: Source> SlotRecordIter for ProjectSlotIter<'a, S, dyn SlotRecordIter + 'a> {
    open spec fn rows(&self) -> Seq<Cells> {
        self.left().rows
    }

    open spec fn fault(&self) -> Option<ErrorView> {
        self.left().fault
    }

    open spec fn names(&self) -> Names {
        self.output_schema@
    }

    open spec fn sound(&self) -> bool {
        self.input.sound() && source::steady(*self.db)
    }

    open spec fn bound(&self) -> nat {
        self.input.bound()
    }

    fn next_slot(&mut self) -> (r: Result<Option<SlotRecord>, GraphError>) {
        let ghost before = self.left();
        match self.input.next_slot() {
            Ok(Some(rec)) => {
                let named = record::materialize_named(self.input.schema(), &rec);
                match find_slot_columns(self.db, &named, self.items, &self.output_schema) {
                    Ok(p) => {
                        let out = record::named_to_slot(&self.output_schema, &p);
                        assert(laid_out(self.output_schema@, seq![p@]) =~= seq![out@]);
                        proof {
                            if old(self).sound() {
                                assert(before.rows =~= seq![out@] + self.left().rows);
                                assert(before.rows.drop_first() =~= self.left().rows);
                            }
                        }
                        Ok(Some(out))
                    },
                    Err(e) => Err(e),
                }
            },
            Ok(None) => Ok(None),
            Err(e) => Err(e),
        }
    }

    fn schema(&self) -> (r: &RecordSchema) {
        &self.output_schema
    }
}

/// The row with an item of a list bound to a variable. Like a node or a relationship, a map is
/// spread over its fields, so that each of them has its slot.
pub open spec fn slot_unwound_row(rec: Row, item: ValueView, alias: Seq<char>) -> Row {
    match item {
        ValueView::MapValue(entries) => record::put_all(
            assoc::put(rec, alias, item),
            record::fields_of(alias, entries),
        ),
        _ => read::unwound_row(rec, item, alias),
    }
}

/// The row with an item of a list bound to a variable.
fn slot_unwind_row(rec: &NamedRecord, item: &Value, alias: &str) -> (r: NamedRecord)
    ensures
        r@ == slot_unwound_row(rec@, item@, alias@),
{
    match item {
        Value::MapValue(entries) => {
            let mut out = rec.dup();
            out.set(text::owned(alias), item.dup());
            out.set_fields(alias, &entries.entries);
            out
        },
        _ => read::unwind_row(rec, item, alias),
    }
}

/// A row for each item of a list; none for null.
pub open spec fn slot_unwound(rec: Row, e: ExprView, alias: Seq<char>, m: Model) -> Rows {
    match (m.eval)(e, rec) {
        Ok(ValueView::List(items)) => Ok(
            Seq::new(items.len(), |i: int| slot_unwound_row(rec, items[i], alias)),
        ),
        Ok(v) => read::unwound(rec, v, alias, m),
        Err(e) => Err(e),
    }
}

/// A row for each item of a list; none for null.
fn slot_unwind<S: Source>(db: &S, rec: &NamedRecord, e: &Expr, alias: &str) -> (r: Outcome)
    ensures
        source::steady(*db) ==> flow::rows_told(r) == slot_unwound(
            rec@,
            e@,
            alias@,
            source::model(*db),
        ),
{
    match source::ask_eval(db, e, rec) {
        Ok(Value::List(items)) => {
            let ghost all = value::values_view(items@);
            let ghost whole = Seq::new(
                all.len(),
                |i: int| slot_unwound_row(rec@, all[i], alias@),
            );
            let mut out: Vec<NamedRecord> = Vec::new();
            let mut i: usize = 0;
            while i < items.len()
                invariant
                    i <= items.len(),
                    all == value::values_view(items@),
                    whole == Seq::new(
                        all.len(),
                        |i: int| slot_unwound_row(rec@, all[i], alias@),
                    ),
                    record::rows(out@) == whole.take(i as int),
                decreases items.len() - i,
            {
                let ghost before = record::rows(out@);
                let row = slot_unwind_row(rec, &items[i], alias);
                out.push(row);
                assert(record::rows(out@) =~= before.push(row@));
                assert(whole.take(i + 1) =~= whole.take(i as int).push(whole[i as int]));
                i = i + 1;
            }
            assert(whole.take(whole.len() as int) =~= whole);
            Ok(out)
        },
        Ok(v) => read::unwind_value(db, rec, &v, alias),
        Err(e) => Err(e),
    }
}

/// Yields a row for each item of the lists that an expression gives on the rows of its input.
pub struct UnwindSlotIter<'a, S, I: ?Sized> {
    pub input: Box<I>,
    pub expr: &'a Expr,
    pub alias: &'a str,
    pub output_schema: RecordSchema,
    pub db: &'a S,
    /// What is left of the rows for the last row of the input.
    pub pending: Queue<SlotRecord>,
}

impl<'a, S, I: ?Sized> UnwindSlotIter<'a, S, I> {
    /// The items of the lists that an expression gives on the rows of an iterator.
    pub fn new(
        input: Box<I>,
        expr: &'a Expr,
        alias: &'a str,
        output_schema: RecordSchema,
        db: &'a S,
    ) -> (r: UnwindSlotIter<'a, S, I>)
        ensures
            r.input == input,
            r.expr == expr,
            r.alias == alias,
            r.output_schema == output_schema,
            r.db == db,
            r.pending@ == Seq::<Cells>::empty(),
    {
        UnwindSlotIter { input, expr, alias, output_schema, db, pending: Queue::empty() }
    }
}

impl<'a, S: Source> UnwindSlotIter<'a, S, dyn SlotRecordIter + 'a> {
    /// What the iterator still yields once nothing is pending.
    pub open spec fn beyond(&self) -> Stream<Cells> {
        let e = self.expr@;
        let alias = self.alias@;
        let m = source::model(*self.db);
        iter::streamed(
            Stream { rows: self.input.rows(), fault: self.input.fault() },
            reshaped(
                self.input.names(),
                self.output_schema@,
                |rec: Row| slot_unwound(rec, e, alias, m),
            ),
        )
    }
}

impl<'a, S: Source> SlotRecordIter for UnwindSlotIter<'a, S, dyn SlotRecordIter + 'a> {
    open spec fn rows(&self) -> Seq<Cells> {
        self.pending@ + self.beyond().rows
    }

    open spec fn fault(&self) -> Option<ErrorView> {
        self.beyond().fault
    }

    open spec fn names(&self) -> Names {
        self.output_schema@
    }

    open spec fn sound(&self) -> bool {
        self.input.sound() && source::steady(*self.db)
    }

    open spec fn bound(&self) -> nat {
        (self.input.bound() * (usize::MAX + 1) + self.pending@.len()) as nat
    }

    fn next_slot(&mut self) -> (r: Result<Option<SlotRecord>, GraphError>) {
        loop
            invariant
                self.bound() <= old(self).bound(),
                old(self).sound() ==> {
                    &&& self.sound()
                    &&& self.rows() == old(self).rows()
                    &&& self.fault() == old(self).fault()
                    &&& self.names() == old(self).names()
                },
            decreases self.input.bound(),
        {
            let ghost before = self.rows();
            match self.pending.pop() {
                Some(rec) => {
                    assert(self.rows() =~= before.drop_first());
                    return Ok(Some(rec));
                },
                None => {},
            }
            assert(before =~= self.beyond().rows);
            let ghost after = self.beyond();
            let ghost waiting = self.input.bound();
            match self.input.next_slot() {
                Ok(Some(rec)) => {
                    let named = record::materialize_named(self.input.schema(), &rec);
                    match slot_unwind(self.db, &named, self.expr, self.alias) {
                        Ok(more) => {
                            let laid = lay_out(&self.output_schema, &more);
                            assert(old(self).sound() ==> after.rows =~= record::slot_rows(laid@)
                                + self.beyond().rows);
                            self.pending = queue_of(laid);
                            proof {
                                iter::lemma_round(waiting, self.input.bound(), self.pending@.len());
                            }
                        },
                        Err(e) => {
                            return Err(e);
                        },
                    }
                },
                Ok(None) => {
                    assert(old(self).sound() ==> self.rows() =~= Seq::<Cells>::empty());
                    return Ok(None);
                },
                Err(e) => {
                    return Err(e);
                },
            }
        }
    }

    fn schema(&self) -> (r: &RecordSchema) {
        &self.output_schema
    }
}

/// Groups the rows of its input and yields a row for each group.
pub struct AggregateSlotIter<'a, S, I: ?Sized> {
    pub input: Box<I>,
    pub group_keys: &'a Vec<Expr>,
    pub aggregates: &'a Vec<AggregateExpr>,
    pub output_schema: RecordSchema,
    pub db: &'a S,
    /// The rows that are left, once the input was read.
    pub results: Option<Queue<SlotRecord>>,
}

impl<'a, S, I: ?Sized> AggregateSlotIter<'a, S, I> {
    /// A row for each group of the rows of an iterator.
    pub fn new(
        input: Box<I>,
        group_keys: &'a Vec<Expr>,
        aggregates: &'a Vec<AggregateExpr>,
        output_schema: RecordSchema,
        db: &'a S,
    ) -> (r: AggregateSlotIter<'a, S, I>)
        ensures
            r == (AggregateSlotIter {
                input,
                group_keys,
                aggregates,
                output_schema,
                db,
                results: None,
            }),
    {
        AggregateSlotIter { input, group_keys, aggregates, output_schema, db, results: None }
    }
}

impl<'a, S: Source> AggregateSlotIter<'a, S, dyn SlotRecordIter + 'a> {
    /// What the input gives.
    pub open spec fn outcome(&self) -> Result<Seq<Cells>, ErrorView> {
        let rs = all_named(
            drained(self.input.rows(), self.input.fault()),
            self.input.names(),
        );
        match rs {
            Ok(rs) => match group::aggregated(
                rs,
                ast_model::exprs_view(self.group_keys@),
                self.aggregates@,
                false,
                source::model(*self.db),
            ) {
                Ok(rs) => Ok(laid_out(self.output_schema@, rs)),
                Err(e) => Err(e),
            },
            Err(e) => Err(e),
        }
    }

    /// Reads the input.
    fn materialize(&mut self) -> (r: Result<(), GraphError>)
        requires
            old(self).results is None,
        ensures
            r is Ok ==> final(self).results is Some && final(self).results->0@.len() <= usize::MAX,
            old(self).sound() ==> match r {
                Ok(_) => {
                    &&& final(self).names() == old(self).names()
                    &&& old(self).outcome() == Ok::<Seq<Cells>, ErrorView>(
                        final(self).results->0@,
                    )
                },
                Err(e) => old(self).outcome() == Err::<Seq<Cells>, ErrorView>(e@),
            },
    {
        match collect_to_named(&mut *self.input) {
            Ok(rs) => match group::aggregate_named_records(
                self.db,
                &rs,
                self.group_keys,
                self.aggregates,
                false,
            ) {
                Ok(rs) => {
                    self.results = Some(queue_of(lay_out(&self.output_schema, &rs)));
                    Ok(())
                },
                Err(e) => Err(e),
            },
            Err(e) => Err(e),
        }
    }
}

impl<'a, S: Source> SlotRecordIter for AggregateSlotIter<'a, S, dyn SlotRecordIter + 'a> {
    open spec fn rows(&self) -> Seq<Cells> {
        match self.results {
            Some(q) => q@,
            None => match self.outcome() {
                Ok(rs) => rs,
                Err(_) => Seq::empty(),
            },
        }
    }

    open spec fn fault(&self) -> Option<ErrorView> {
        match self.results {
            Some(_) => None,
            None => match self.outcome() {
                Ok(_) => None,
                Err(e) => Some(e),
            },
        }
    }

    open spec fn names(&self) -> Names {
        self.output_schema@
    }

    open spec fn sound(&self) -> bool {
        self.results is Some || (self.input.sound() && source::steady(*self.db))
    }

    open spec fn bound(&self) -> nat {
        match self.results {
            Some(q) => q@.len(),
            None => (usize::MAX + 1) as nat,
        }
    }

    fn next_slot(&mut self) -> (r: Result<Option<SlotRecord>, GraphError>) {
        let ghost before = self.rows();
        if self.results.is_none() {
            match self.materialize() {
                Ok(_) => {},
                Err(e) => {
                    return Err(e);
                },
            }
        }
        let mut left = None;
        std::mem::swap(&mut left, &mut self.results);
        match left {
            Some(q) => {
                let mut q = q;
                let r = q.pop();
                self.results = Some(q);
                Ok(r)
            },
            None => Ok(None),
        }
    }

    fn schema(&self) -> (r: &RecordSchema) {
        &self.output_schema
    }
}

/// Rows by slots are alike: the same values in all slots.
pub open spec fn cells_alike() -> spec_fn(Cells, Cells) -> bool {
    |a: Cells, b: Cells| order::same_list(a, b)
}

/// True when rows by slots have the same values in all slots.
pub fn slot_rows_equal(a: &SlotRecord, b: &SlotRecord) -> (r: bool)
    ensures
        r == cells_alike()(a@, b@),
{
    order::equal_lists(&a.slots, &b.slots)
}

/// The rows without repetitions.
fn unique_slots(rs: Vec<SlotRecord>) -> (r: Vec<SlotRecord>)
    ensures
        record::slot_rows(r@) == arrange::unique(record::slot_rows(rs@), cells_alike()),
{
    let ghost s = record::slot_rows(rs@);
    let mut out: Vec<SlotRecord> = Vec::new();
    let mut i: usize = 0;
    assert(s.take(0) =~= Seq::<Cells>::empty());
    assert(record::slot_rows(out@) =~= Seq::<Cells>::empty());
    while i < rs.len()
        invariant
            i <= rs.len(),
            s == record::slot_rows(rs@),
            record::slot_rows(out@) == arrange::unique(s.take(i as int), cells_alike()),
        decreases rs.len() - i,
    {
        assert(s.take(i + 1).drop_last() =~= s.take(i as int));
        assert(s.take(i + 1).last() == rs@[i as int]@);
        let ghost so_far = record::slot_rows(out@);
        let mut known = false;
        let mut j: usize = 0;
        while j < out.len() && !known
            invariant
                i < rs.len(),
                j <= out.len(),
                so_far == record::slot_rows(out@),
                !known ==> forall|k: int|
                    0 <= k < j ==> !cells_alike()(#[trigger] so_far[k], rs@[i as int]@),
                known ==> arrange::known(so_far, rs@[i as int]@, cells_alike()),
            decreases out.len() - j,
        {
            assert(so_far[j as int] == out@[j as int]@);
            known = slot_rows_equal(&out[j], &rs[i]);
            j = j + 1;
        }
        if !known {
            out.push(rs[i].dup());
            assert(record::slot_rows(out@) =~= so_far.push(rs@[i as int]@));
        }
        i = i + 1;
    }
    assert(s.take(s.len() as int) =~= s);
    out
}

/// Yields the rows of its input without repetitions.
pub struct DistinctSlotIter<I: ?Sized> {
    pub input: Box<I>,
    pub schema: RecordSchema,
    /// The rows that are left, once the input was read.
    pub results: Option<Queue<SlotRecord>>,
}

impl<'a> DistinctSlotIter<dyn SlotRecordIter + 'a> {
    /// What the input gives.
    pub open spec fn outcome(&self) -> Result<Seq<Cells>, ErrorView> {
        match drained(self.input.rows(), self.input.fault()) {
            Ok(rs) => Ok(arrange::unique(rs, cells_alike())),
            Err(e) => Err(e),
        }
    }

    /// Reads the input.
    fn materialize(&mut self) -> (r: Result<(), GraphError>)
        requires
            old(self).results is None,
        ensures
            r is Ok ==> final(self).results is Some && final(self).results->0@.len() <= usize::MAX,
            old(self).sound() ==> match r {
                Ok(_) => {
                    &&& final(self).names() == old(self).names()
                    &&& old(self).outcome() == Ok::<Seq<Cells>, ErrorView>(
                        final(self).results->0@,
                    )
                },
                Err(e) => old(self).outcome() == Err::<Seq<Cells>, ErrorView>(e@),
            },
    {
        match collect_slots(&mut *self.input) {
            Ok(rs) => {
                self.results = Some(queue_of(unique_slots(rs)));
                Ok(())
            },
            Err(e) => Err(e),
        }
    }
}

impl<'a> SlotRecordIter for DistinctSlotIter<dyn SlotRecordIter + 'a> {
    open spec fn rows(&self) -> Seq<Cells> {
        match self.results {
            Some(q) => q@,
            None => match self.outcome() {
                Ok(rs) => rs,
                Err(_) => Seq::empty(),
            },
        }
    }

    open spec fn fault(&self) -> Option<ErrorView> {
        match self.results {
            Some(_) => None,
            None => match self.outcome() {
                Ok(_) => None,
                Err(e) => Some(e),
            },
        }
    }

    open spec fn names(&self) -> Names {
        self.schema@
    }

    open spec fn sound(&self) -> bool {
        self.results is Some || self.input.sound()
    }

    open spec fn bound(&self) -> nat {
        match self.results {
            Some(q) => q@.len(),
            None => (usize::MAX + 1) as nat,
        }
    }

    fn next_slot(&mut self) -> (r: Result<Option<SlotRecord>, GraphError>) {
        let ghost before = self.rows();
        if self.results.is_none() {
            match self.materialize() {
                Ok(_) => {},
                Err(e) => {
                    return Err(e);
                },
            }
        }
        let mut left = None;
        std::mem::swap(&mut left, &mut self.results);
        match left {
            Some(q) => {
                let mut q = q;
                let r = q.pop();
                self.results = Some(q);
                Ok(r)
            },
            None => Ok(None),
        }
    }

    fn schema(&self) -> (r: &RecordSchema) {
        &self.schema
    }
}

impl<I: SlotRecordIter + ?Sized> DistinctSlotIter<I> {
    /// The rows of an iterator without repetitions.
    pub fn new(input: Box<I>) -> (r: DistinctSlotIter<I>)
        ensures
            r.input == input,
            r.schema@ == input.names(),
            r.results is None,
    {
        let schema = input.schema().dup();
        DistinctSlotIter { input, schema, results: None }
    }
}

/// The order of rows by slots.
pub open spec fn cells_before(names: Names, items: Seq<SortItemView>, m: Model) -> spec_fn(
    Cells,
    Cells,
) -> bool {
    arrange::key_before(
        |c: Cells| arrange::sort_keys(record::named(names, c), items, m),
        items,
        false,
    )
}

/// The rows in order.
fn sort_slots<S: Source>(
    db: &S,
    rs: Vec<SlotRecord>,
    schema: &RecordSchema,
    items: &Vec<SortItem>,
) -> (r: Vec<SlotRecord>)
    ensures
        source::steady(*db) ==> record::slot_rows(r@) == arrange::sorted(
            record::slot_rows(rs@),
            cells_before(schema@, ast_model::sort_items_view(items@), source::model(*db)),
        ),
{
    let ghost m = source::model(*db);
    let ghost its = ast_model::sort_items_view(items@);
    let ghost names = schema@;
    let ghost key = |c: Cells| arrange::sort_keys(record::named(names, c), its, m);
    let mut keys: Vec<Vec<Value>> = Vec::new();
    let mut i: usize = 0;
    while i < rs.len()
        invariant
            i <= rs.len(),
            keys.len() == i,
            m == source::model(*db),
            names == schema@,
            its == ast_model::sort_items_view(items@),
            forall|j: int| 0 <= j < keys@.len() ==> (#[trigger] keys@[j]).len() == items.len(),
            source::steady(*db) ==> forall|j: int|
                0 <= j < keys@.len() ==> value::values_view((#[trigger] keys@[j])@)
                    == arrange::sort_keys(record::named(names, rs@[j]@), its, m),
        decreases rs.len() - i,
    {
        let named = record::materialize_named(schema, &rs[i]);
        keys.push(arrange::find_sort_keys(db, &named, items));
        i = i + 1;
    }
    assert(flow::viewed(rs@) =~= record::slot_rows(rs@));
    let r = arrange::sort_keyed(rs, keys, items, false, Ghost(key), Ghost(source::steady(*db)));
    assert(flow::viewed(r@) =~= record::slot_rows(r@));
    r
}

/// Yields the rows of its input in order.
pub struct SortSlotIter<'a, S, I: ?Sized> {
    pub input: Box<I>,
    pub items: &'a Vec<SortItem>,
    pub db: &'a S,
    /// The rows that are left, once the input was read.
    pub results: Option<Queue<SlotRecord>>,
}

impl<'a, S, I: ?Sized> SortSlotIter<'a, S, I> {
    /// The rows of an iterator in order.
    pub fn new(input: Box<I>, items: &'a Vec<SortItem>, db: &'a S) -> (r: SortSlotIter<'a, S, I>)
        ensures
            r == (SortSlotIter { input, items, db, results: None }),
    {
        SortSlotIter { input, items, db, results: None }
    }
}

impl<'a, S: Source> SortSlotIter<'a, S, dyn SlotRecordIter + 'a> {
    /// What the input gives.
    pub open spec fn outcome(&self) -> Result<Seq<Cells>, ErrorView> {
        match drained(self.input.rows(), self.input.fault()) {
            Ok(rs) => Ok(
                arrange::sorted(
                    rs,
                    cells_before(
                        self.input.names(),
                        ast_model::sort_items_view(self.items@),
                        source::model(*self.db),
                    ),
                ),
            ),
            Err(e) => Err(e),
        }
    }

    /// Reads the input.
    fn materialize(&mut self) -> (r: Result<(), GraphError>)
        requires
            old(self).results is None,
        ensures
            r is Ok ==> final(self).results is Some && final(self).results->0@.len() <= usize::MAX,
            old(self).sound() ==> match r {
                Ok(_) => {
                    &&& final(self).names() == old(self).names()
                    &&& old(self).outcome() == Ok::<Seq<Cells>, ErrorView>(
                        final(self).results->0@,
                    )
                },
                Err(e) => old(self).outcome() == Err::<Seq<Cells>, ErrorView>(e@),
            },
    {
        match collect_slots(&mut *self.input) {
            Ok(rs) => {
                let sorted = sort_slots(self.db, rs, self.input.schema(), self.items);
                self.results = Some(queue_of(sorted));
                Ok(())
            },
            Err(e) => Err(e),
        }
    }
}

impl<'a, S: Source> SlotRecordIter for SortSlotIter<'a, S, dyn SlotRecordIter + 'a> {
    open spec fn rows(&self) -> Seq<Cells> {
        match self.results {
            Some(q) => q@,
            None => match self.outcome() {
                Ok(rs) => rs,
                Err(_) => Seq::empty(),
            },
        }
    }

    open spec fn fault(&self) -> Option<ErrorView> {
        match self.results {
            Some(_) => None,
            None => match self.outcome() {
                Ok(_) => None,
                Err(e) => Some(e),
            },
        }
    }

    open spec fn names(&self) -> Names {
        self.input.names()
    }

    open spec fn sound(&self) -> bool {
        self.results is Some || (self.input.sound() && source::steady(*self.db))
    }

    open spec fn bound(&self) -> nat {
        match self.results {
            Some(q) => q@.len(),
            None => (usize::MAX + 1) as nat,
        }
    }

    fn next_slot(&mut self) -> (r: Result<Option<SlotRecord>, GraphError>) {
        let ghost before = self.rows();
        if self.results.is_none() {
            match self.materialize() {
                Ok(_) => {},
                Err(e) => {
                    return Err(e);
                },
            }
        }
        let mut left = None;
        std::mem::swap(&mut left, &mut self.results);
        match left {
            Some(q) => {
                let mut q = q;
                let r = q.pop();
                self.results = Some(q);
                Ok(r)
            },
            None => Ok(None),
        }
    }

    fn schema(&self) -> (r: &RecordSchema) {
        self.input.schema()
    }
}

/// Yields the rows of an iterator over slots by names.
pub struct SlotToNamedAdapter<I: ?Sized> {
    pub input: Box<I>,
}

impl<I: SlotRecordIter + ?Sized> SlotToNamedAdapter<I> {
    /// Yields the rows of an iterator over slots by names.
    pub fn new(input: Box<I>) -> (r: SlotToNamedAdapter<I>)
        ensures
            r.input == input,
    {
        SlotToNamedAdapter { input }
    }
}

impl<'a> RecordIter for SlotToNamedAdapter<dyn SlotRecordIter + 'a> {
    open spec fn rows(&self) -> Seq<Row> {
        spelled_out(self.input.names(), self.input.rows())
    }

    open spec fn fault(&self) -> Option<ErrorView> {
        self.input.fault()
    }

    open spec fn sound(&self) -> bool {
        self.input.sound()
    }

    open spec fn bound(&self) -> nat {
        self.input.bound()
    }

    fn next_record(&mut self) -> (r: Result<Option<NamedRecord>, GraphError>) {
        let ghost before = self.rows();
        match self.input.next_slot() {
            Ok(Some(rec)) => {
                assert(old(self).sound() ==> self.rows() =~= before.drop_first());
                Ok(Some(record::materialize_named(self.input.schema(), &rec)))
            },
            Ok(None) => Ok(None),
            Err(e) => Err(e),
        }
    }
}

/// Yields the rows of an iterator over named rows by slots.
pub struct NamedToSlotAdapter<I: ?Sized> {
    pub input: Box<I>,
    pub schema: RecordSchema,
}

impl<I: RecordIter + ?Sized> NamedToSlotAdapter<I> {
    /// Yields the rows of an iterator by slots. What the schema has no slot for is left out.
    pub fn new(input: Box<I>, schema: RecordSchema) -> (r: NamedToSlotAdapter<I>)
        ensures
            r.input == input,
            r.schema == schema,
    {
        NamedToSlotAdapter { input, schema }
    }
}

impl<'a> SlotRecordIter for NamedToSlotAdapter<dyn RecordIter + 'a> {
    open spec fn rows(&self) -> Seq<Cells> {
        laid_out(self.schema@, self.input.rows())
    }

    open spec fn fault(&self) -> Option<ErrorView> {
        self.input.fault()
    }

    open spec fn names(&self) -> Names {
        self.schema@
    }

    open spec fn sound(&self) -> bool {
        self.input.sound()
    }

    open spec fn bound(&self) -> nat {
        self.input.bound()
    }

    fn next_slot(&mut self) -> (r: Result<Option<SlotRecord>, GraphError>) {
        let ghost before = self.rows();
        match self.input.next_record() {
            Ok(Some(rec)) => {
                assert(old(self).sound() ==> self.rows() =~= before.drop_first());
                Ok(Some(record::named_to_slot(&self.schema, &rec)))
            },
            Ok(None) => Ok(None),
            Err(e) => Err(e),
        }
    }

    fn schema(&self) -> (r: &RecordSchema) {
        &self.schema
    }
}

/// What an iterator over slots yields.
pub struct SlotFlow {
    pub names: Names,
    pub stream: Stream<Cells>,
}

/// What an iterator over slots yields, or why there is none.
pub type SlotFlows = Result<SlotFlow, ErrorView>;

/// An iterator over slots, or why there is none.
pub type SlotBuilt<'a> = Result<Box<dyn SlotRecordIter + 'a>, GraphError>;

/// What an iterator over slots yields, or why there is none.
pub open spec fn told<'a>(r: SlotBuilt<'a>) -> SlotFlows {
    match r {
        Ok(it) => Ok(
            SlotFlow {
                names: it.names(),
                stream: Stream { rows: it.rows(), fault: it.fault() },
            },
        ),
        Err(e) => Err(e@),
    }
}

/// What an iterator reads answers the same question the same way.
pub open spec fn is_sound<'a>(r: SlotBuilt<'a>) -> bool {
    match r {
        Ok(it) => it.sound(),
        Err(_) => true,
    }
}

/// Rows that are all there.
pub open spec fn at_once(names: Names, rows: Seq<Cells>) -> SlotFlow {
    SlotFlow { names, stream: Stream { rows, fault: None } }
}

/// The rows on which a predicate holds.
pub open spec fn kept(s: SlotFlows, predicate: ExprView, m: Model) -> SlotFlows {
    match s {
        Ok(s) => Ok(
            SlotFlow {
                names: s.names,
                stream: iter::streamed(s.stream, cells_kept(s.names, predicate, m)),
            },
        ),
        Err(e) => Err(e),
    }
}

/// The rows without the first ones.
pub open spec fn skipped(s: SlotFlows, n: u64) -> SlotFlows {
    match s {
        Ok(s) => Ok(
            SlotFlow {
                names: s.names,
                stream: Stream {
                    rows: arrange::skipped(s.stream.rows, n),
                    fault: s.stream.fault,
                },
            },
        ),
        Err(e) => Err(e),
    }
}

/// The first rows. A failure behind them is not reached.
pub open spec fn limited(s: SlotFlows, n: u64) -> SlotFlows {
    match s {
        Ok(s) => Ok(
            if n <= s.stream.rows.len() {
                at_once(s.names, s.stream.rows.take(n as int))
            } else {
                s
            },
        ),
        Err(e) => Err(e),
    }
}

/// The rows, up to a failure where there are more than the context allows.
pub open spec fn capped(s: SlotFlows, ctx: ExecContext) -> SlotFlows {
    match s {
        Ok(s) => Ok(
            if 0 < ctx.max_result_rows < s.stream.rows.len() {
                SlotFlow {
                    names: s.names,
                    stream: Stream {
                        rows: s.stream.rows.take(ctx.max_result_rows as int),
                        fault: Some(plan::too_many_rows(ctx.max_result_rows)),
                    },
                }
            } else {
                s
            },
        ),
        Err(e) => Err(e),
    }
}

/// What an operator on named rows makes of the rows, one by one.
pub open spec fn mapped(s: SlotFlows, out: Names, f: spec_fn(Row) -> Rows) -> SlotFlows {
    match s {
        Ok(s) => Ok(
            SlotFlow {
                names: out,
                stream: iter::streamed(s.stream, reshaped(s.names, out, f)),
            },
        ),
        Err(e) => Err(e),
    }
}

/// What an operator that needs all rows makes of them, when the first row is asked for.
pub open spec fn blocked(
    s: SlotFlows,
    out: Names,
    f: spec_fn(Names, Seq<Cells>) -> Result<Seq<Cells>, ErrorView>,
) -> SlotFlows {
    match s {
        Ok(s) => {
            let rs = match drained(s.stream.rows, s.stream.fault) {
                Ok(rs) => f(s.names, rs),
                Err(e) => Err(e),
            };
            Ok(
                match rs {
                    Ok(rs) => at_once(out, rs),
                    Err(e) => SlotFlow {
                        names: out,
                        stream: Stream { rows: Seq::empty(), fault: Some(e) },
                    },
                },
            )
        },
        Err(e) => Err(e),
    }
}

/// A row for each group.
pub open spec fn grouped(
    s: SlotFlows,
    keys: Seq<ExprView>,
    aggs: Seq<AggregateExpr>,
    out: Names,
    m: Model,
) -> SlotFlows {
    blocked(
        s,
        out,
        |names: Names, rs: Seq<Cells>|
            match group::aggregated(spelled_out(names, rs), keys, aggs, false, m) {
                Ok(rs) => Ok(laid_out(out, rs)),
                Err(e) => Err(e),
            },
    )
}

/// The names of a flow.
pub open spec fn names_of(s: SlotFlows) -> Names {
    match s {
        Ok(s) => s.names,
        Err(_) => Seq::empty(),
    }
}

/// The rows without repetitions.
pub open spec fn unrepeated(s: SlotFlows) -> SlotFlows {
    blocked(
        s,
        names_of(s),
        |names: Names, rs: Seq<Cells>| Ok(arrange::unique(rs, cells_alike())),
    )
}

/// The rows in order.
pub open spec fn ordered(s: SlotFlows, items: Seq<SortItemView>, m: Model) -> SlotFlows {
    blocked(
        s,
        names_of(s),
        |names: Names, rs: Seq<Cells>| Ok(arrange::sorted(rs, cells_before(names, items, m))),
    )
}

/// The names, each once.
pub open spec fn once(s: Names) -> Names
    decreases s.len(),
{
    if s.len() == 0 {
        s
    } else {
        let t = once(s.drop_last());
        if assoc::place(t, s.last()) < t.len() {
            t
        } else {
            t.push(s.last())
        }
    }
}

/// The schema of the rows of an operator in a plan.
pub fn schema_of<S: Source>(db: &S, whole: &LogicalOp, op: &LogicalOp) -> (r: RecordSchema)
    ensures
        source::steady(*db) ==> r@ == once((source::model(*db).slots)(*whole, *op)),
{
    let names = source::ask_slots(db, whole, op);
    let ghost s = ast_model::texts(names@);
    let mut r = RecordSchema::new();
    let mut i: usize = 0;
    assert(s.take(0) =~= Names::empty());
    while i < names.len()
        invariant
            i <= names.len(),
            s == ast_model::texts(names@),
            r@ == once(s.take(i as int)),
        decreases names.len() - i,
    {
        assert(s.take(i + 1).drop_last() =~= s.take(i as int));
        assert(s.take(i + 1).last() == names@[i as int]@);
        proof {
            assoc::lemma_place(r@, s[i as int]);
        }
        r.add_slot(names[i].as_str());
        i = i + 1;
    }
    assert(s.take(s.len() as int) =~= s);
    r
}

/// The rows of nodes by slots.
pub open spec fn node_cells(names: Names, nodes: Seq<NodeView>, alias: Seq<char>) -> Seq<Cells> {
    Seq::new(nodes.len(), |i: int| binding::node_slots(names, nodes[i], alias))
}

/// The rows of nodes by slots.
fn cells_of_nodes(schema: &RecordSchema, nodes: &Vec<Node>, alias: &str) -> (r: Vec<SlotRecord>)
    ensures
        record::slot_rows(r@) == node_cells(schema@, value::nodes_view(nodes@), alias@),
{
    let ghost whole = node_cells(schema@, value::nodes_view(nodes@), alias@);
    let mut out: Vec<SlotRecord> = Vec::new();
    let mut i: usize = 0;
    while i < nodes.len()
        invariant
            i <= nodes.len(),
            whole == node_cells(schema@, value::nodes_view(nodes@), alias@),
            record::slot_rows(out@) == whole.take(i as int),
        decreases nodes.len() - i,
    {
        let ghost before = record::slot_rows(out@);
        let rec = binding::node_to_slot_record(&nodes[i], alias, schema);
        out.push(rec);
        assert(record::slot_rows(out@) =~= before.push(rec@));
        assert(whole.take(i + 1) =~= whole.take(i as int).push(whole[i as int]));
        i = i + 1;
    }
    assert(whole.take(whole.len() as int) =~= whole);
    out
}

/// A node by its id, as a list.
pub open spec fn one_node(id: NodeId, m: Model) -> Result<Seq<NodeView>, ErrorView> {
    match (m.node)(id) {
        Ok(n) => Ok(seq![n]),
        Err(e) => Err(e),
    }
}

/// The nodes with some ids.
fn nodes_of_ids<S: Source>(db: &S, ids: &Vec<NodeId>) -> (r: Result<Vec<Node>, GraphError>)
    ensures
        source::steady(*db) ==> source::nodes_told(r) == flow::each(
            ids@,
            |id: NodeId| one_node(id, source::model(*db)),
        ),
{
    let ghost m = source::model(*db);
    let ghost f = |id: NodeId| one_node(id, m);
    let mut out: Vec<Node> = Vec::new();
    let mut i: usize = 0;
    assert(ids@.take(0) =~= Seq::<NodeId>::empty());
    assert(value::nodes_view(out@) =~= Seq::<NodeView>::empty());
    while i < ids.len()
        invariant
            i <= ids.len(),
            m == source::model(*db),
            f == (|id: NodeId| one_node(id, m)),
            source::steady(*db) ==> flow::each(ids@.take(i as int), f) == Ok::<
                Seq<NodeView>,
                ErrorView,
            >(value::nodes_view(out@)),
        decreases ids.len() - i,
    {
        proof {
            flow::lemma_each_step(ids@, f, i as int);
        }
        match source::ask_node(db, ids[i]) {
            Ok(n) => {
                let ghost before = value::nodes_view(out@);
                out.push(n);
                assert(value::nodes_view(out@) =~= before + seq![n@]);
            },
            Err(e) => {
                proof {
                    if source::steady(*db) {
                        flow::lemma_each_stops(ids@, f, i + 1);
                    }
                }
                return Err(e);
            },
        }
        i = i + 1;
    }
    assert(ids@.take(ids@.len() as int) =~= ids@);
    Ok(out)
}

/// The rows by slots of the nodes that an index gives.
pub open spec fn indexed(
    label: Seq<char>,
    alias: Seq<char>,
    properties: Names,
    keys: Row,
    names: Names,
    m: Model,
) -> SlotFlows {
    match (m.index_ids)(label, properties, keys) {
        Ok(ids) => match flow::each(ids, |id: NodeId| one_node(id, m)) {
            Ok(nodes) => Ok(at_once(names, node_cells(names, nodes, alias))),
            Err(e) => Err(e),
        },
        Err(e) => Err(e),
    }
}

/// Rows by names as a flow by slots.
pub open spec fn adapted(rs: Rows, names: Names) -> SlotFlows {
    match rs {
        Ok(rs) => Ok(at_once(names, laid_out(names, rs))),
        Err(e) => Err(e),
    }
}

/// What the iterator over slots for an operator of a plan yields, or why there is none. The slots
/// of each operator are those that the whole plan reads, and none yields more rows than the
/// context allows.
pub open spec fn slots_of(whole: LogicalOp, op: LogicalOp, ctx: ExecContext, m: Model) -> SlotFlows
    decreases op,
{
    let out = once((m.slots)(whole, op));
    let flows = match op {
        LogicalOp::EmptyRow => Ok(at_once(Names::empty(), seq![Cells::empty()])),
        LogicalOp::SingleRow => Ok(at_once(Names::empty(), seq![Cells::empty()])),
        LogicalOp::Scan { label, alias } => match (m.nodes_by_label)(label@) {
            Ok(nodes) => Ok(at_once(out, node_cells(out, nodes, alias@))),
            Err(e) => Err(e),
        },
        LogicalOp::IndexLookup { label, alias, index_properties, lookups, remaining_filters } => {
            let s = indexed(
                label@,
                alias@,
                ast_model::texts(index_properties@),
                read::lookup_keys(lookups@, m),
                out,
                m,
            );
            match remaining_filters {
                Some(p) => kept(s, p@, m),
                None => s,
            }
        },
        LogicalOp::Filter { input, predicate } => kept(slots_of(whole, *input, ctx, m), predicate@, m),
        LogicalOp::Expand { input, .. } => mapped(
            slots_of(whole, *input, ctx, m),
            out,
            |rec: Row|
                expand::expanded(rec, run::expansion(op, m), None, ctx.max_traversal_work, m),
        ),
        LogicalOp::Aggregate { input, group_keys, aggregates } => grouped(
            slots_of(whole, *input, ctx, m),
            ast_model::exprs_view(group_keys@),
            aggregates@,
            out,
            m,
        ),
        LogicalOp::Skip { input, count } => skipped(slots_of(whole, *input, ctx, m), count),
        LogicalOp::Limit { input, count } => limited(slots_of(whole, *input, ctx, m), count),
        LogicalOp::Distinct { input } => unrepeated(slots_of(whole, *input, ctx, m)),
        LogicalOp::Sort { input, items } => ordered(
            slots_of(whole, *input, ctx, m),
            ast_model::sort_items_view(items@),
            m,
        ),
        LogicalOp::Unwind { input, expr, alias } => mapped(
            slots_of(whole, *input, ctx, m),
            out,
            |rec: Row| slot_unwound(rec, expr@, alias@, m),
        ),
        LogicalOp::Project { input, items, .. } => mapped(
            slots_of(whole, *input, ctx, m),
            out,
            |rec: Row| slot_projected(rec, ast_model::return_items_view(items@), out, m),
        ),
        _ => adapted(run::rows_of(op, ctx, m), out),
    };
    capped(flows, ctx)
}

/// Taking rows by slots through an operator on named rows and back is taking them through it one
/// by one.
proof fn lemma_reshaped(s: Stream<Cells>, names: Names, out: Names, f: spec_fn(Row) -> Rows)
    ensures
        ({
            let t = iter::streamed(
                Stream { rows: spelled_out(names, s.rows), fault: s.fault },
                f,
            );
            iter::streamed(s, reshaped(names, out, f)) == (Stream {
                rows: laid_out(out, t.rows),
                fault: t.fault,
            })
        }),
    decreases s.rows.len(),
{
    let g = reshaped(names, out, f);
    let named = spelled_out(names, s.rows);
    let t = iter::streamed(Stream { rows: named, fault: s.fault }, f);
    if s.rows.len() == 0 {
        assert(laid_out(out, t.rows) =~= Seq::<Cells>::empty());
    } else {
        let rest = Stream { rows: s.rows.drop_first(), fault: s.fault };
        lemma_reshaped(rest, names, out, f);
        assert(named.drop_first() =~= spelled_out(names, s.rows.drop_first()));
        match f(named[0]) {
            Ok(more) => {
                let u = iter::streamed(
                    Stream { rows: named.drop_first(), fault: s.fault },
                    f,
                );
                assert(laid_out(out, more + u.rows) =~= laid_out(out, more) + laid_out(
                    out,
                    u.rows,
                ));
            },
            Err(_) => {
                assert(laid_out(out, t.rows) =~= Seq::<Cells>::empty());
            },
        }
    }
}

/// The rows on which a predicate holds.
fn keep<'a, S: Source>(
    input: SlotBuilt<'a>,
    predicate: &'a Expr,
    db: &'a S,
) -> (r: SlotBuilt<'a>)
    ensures
        is_sound(input) && source::steady(*db) ==> is_sound(r),
        told(r) == kept(told(input), predicate@, source::model(*db)),
{
    match input {
        Ok(input) => {
            let b = Box::new(FilterSlotIter { input, predicate, db });
            let it: Box<dyn SlotRecordIter + 'a> = b;
            let r = Ok(it);
            r
        },
        Err(e) => Err(e),
    }
}

/// The rows without the first ones.
fn without_first<'a>(
    input: SlotBuilt<'a>,
    n: u64,
) -> (r: SlotBuilt<'a>)
    ensures
        is_sound(input) ==> is_sound(r),
        told(r) == skipped(told(input), n),
{
    match input {
        Ok(input) => {
            let b = Box::new(SkipSlotIter { input, remaining_to_skip: n });
            let it: Box<dyn SlotRecordIter + 'a> = b;
            let r = Ok(it);
            r
        },
        Err(e) => Err(e),
    }
}

/// The first rows.
fn only_first<'a>(
    input: SlotBuilt<'a>,
    n: u64,
) -> (r: SlotBuilt<'a>)
    ensures
        is_sound(input) ==> is_sound(r),
        told(r) == limited(told(input), n),
{
    match input {
        Ok(input) => {
            let b = Box::new(LimitSlotIter { input, remaining: n });
            let it: Box<dyn SlotRecordIter + 'a> = b;
            let r = Ok(it);
            r
        },
        Err(e) => Err(e),
    }
}

/// The columns that items give.
fn project_items<'a, S: Source>(
    input: SlotBuilt<'a>,
    items: &'a Vec<ReturnItem>,
    output_schema: RecordSchema,
    db: &'a S,
) -> (r: SlotBuilt<'a>)
    ensures
        is_sound(input) && source::steady(*db) ==> is_sound(r),
        told(r) == mapped(
            told(input),
            output_schema@,
            |rec: Row|
                slot_projected(
                    rec,
                    ast_model::return_items_view(items@),
                    output_schema@,
                    source::model(*db),
                ),
        ),
{
    match input {
        Ok(input) => {
            let b = Box::new(ProjectSlotIter::new(input, items, output_schema, db));
            let it: Box<dyn SlotRecordIter + 'a> = b;
            let r = Ok(it);
            r
        },
        Err(e) => Err(e),
    }
}

/// A row for each item of a list.
fn unwind<'a, S: Source>(
    input: SlotBuilt<'a>,
    expr: &'a Expr,
    alias: &'a str,
    output_schema: RecordSchema,
    db: &'a S,
) -> (r: SlotBuilt<'a>)
    ensures
        is_sound(input) && source::steady(*db) ==> is_sound(r),
        told(r) == mapped(
            told(input),
            output_schema@,
            |rec: Row| slot_unwound(rec, expr@, alias@, source::model(*db)),
        ),
{
    match input {
        Ok(input) => {
            let x = UnwindSlotIter::new(input, expr, alias, output_schema, db);
            assert(x.rows() =~= x.beyond().rows);
            let b = Box::new(x);
            let it: Box<dyn SlotRecordIter + 'a> = b;
            let r = Ok(it);
            r
        },
        Err(e) => Err(e),
    }
}

/// A row for each group.
fn aggregate<'a, S: Source>(
    input: SlotBuilt<'a>,
    group_keys: &'a Vec<Expr>,
    aggregates: &'a Vec<AggregateExpr>,
    output_schema: RecordSchema,
    db: &'a S,
) -> (r: SlotBuilt<'a>)
    ensures
        is_sound(input) && source::steady(*db) ==> is_sound(r),
        told(r) == grouped(
            told(input),
            ast_model::exprs_view(group_keys@),
            aggregates@,
            output_schema@,
            source::model(*db),
        ),
{
    match input {
        Ok(input) => {
            let b = Box::new(AggregateSlotIter::new(input, group_keys, aggregates, output_schema, db));
            let it: Box<dyn SlotRecordIter + 'a> = b;
            let r = Ok(it);
            r
        },
        Err(e) => Err(e),
    }
}

/// The rows without repetitions.
fn distinct<'a>(
    input: SlotBuilt<'a>,
) -> (r: SlotBuilt<'a>)
    ensures
        is_sound(input) ==> is_sound(r),
        told(r) == unrepeated(told(input)),
{
    match input {
        Ok(input) => {
            let b = Box::new(DistinctSlotIter::new(input));
            let it: Box<dyn SlotRecordIter + 'a> = b;
            let r = Ok(it);
            r
        },
        Err(e) => Err(e),
    }
}

/// The rows in order.
fn sort<'a, S: Source>(
    input: SlotBuilt<'a>,
    items: &'a Vec<SortItem>,
    db: &'a S,
) -> (r: SlotBuilt<'a>)
    ensures
        is_sound(input) && source::steady(*db) ==> is_sound(r),
        told(r) == ordered(
            told(input),
            ast_model::sort_items_view(items@),
            source::model(*db),
        ),
{
    match input {
        Ok(input) => {
            let b = Box::new(SortSlotIter::new(input, items, db));
            let it: Box<dyn SlotRecordIter + 'a> = b;
            let r = Ok(it);
            r
        },
        Err(e) => Err(e),
    }
}

/// The rows that an expansion leads to.
fn expand_by<'a, S: Source>(
    input: SlotBuilt<'a>,
    expansion: Expansion,
    work: u64,
    output_schema: RecordSchema,
    db: &'a S,
) -> (r: SlotBuilt<'a>)
    ensures
        is_sound(input) && source::steady(*db) ==> is_sound(r),
        told(r) == mapped(
            told(input),
            output_schema@,
            |rec: Row| expand::expanded(rec, expansion@, None, work, source::model(*db)),
        ),
{
    match input {
        Ok(input) => {
            let ghost names = input.names();
            let ghost s = Stream { rows: input.rows(), fault: input.fault() };
            let ghost out = output_schema@;
            let ghost f = |rec: Row|
                expand::expanded(rec, expansion@, None, work, source::model(*db));
            let n = Box::new(SlotToNamedAdapter::new(input));
            let input: Box<dyn RecordIter + 'a> = n;
            let none: Vec<NamedRecord> = Vec::new();
            assert(record::rows(none@) =~= Seq::<Row>::empty());
            let buffer = VecIter::new(none);
            let x = ExpandIter { input, db, expansion, max_traversal_work: work, buffer };
            assert(x.rows() =~= x.beyond().rows);
            let n = Box::new(x);
            let input: Box<dyn RecordIter + 'a> = n;
            proof {
                lemma_reshaped(s, names, out, f);
            }
            let b = Box::new(NamedToSlotAdapter::new(input, output_schema));
            let it: Box<dyn SlotRecordIter + 'a> = b;
            let r = Ok(it);
            r
        },
        Err(e) => Err(e),
    }
}

/// The iterator over rows by slots that are all there.
fn over<'a>(rs: Vec<SlotRecord>, schema: RecordSchema) -> (r: SlotBuilt<'a>)
    ensures
        is_sound(r),
        told(r) == Ok::<SlotFlow, ErrorView>(at_once(schema@, record::slot_rows(rs@))),
{
    let b = Box::new(VecSlotIter::new(rs, schema));
    let it: Box<dyn SlotRecordIter + 'a> = b;
    let r = Ok(it);
    r
}

/// The iterator by slots over named rows that are all there.
fn adapt<'a>(rs: Outcome, schema: RecordSchema) -> (r: SlotBuilt<'a>)
    ensures
        is_sound(r),
        told(r) == adapted(flow::rows_told(rs), schema@),
{
    match rs {
        Ok(rs) => {
            let b = Box::new(MaterializedSlotIter::new(rs, schema));
            let it: Box<dyn SlotRecordIter + 'a> = b;
            let r = Ok(it);
            r
        },
        Err(e) => Err(e),
    }
}

/// The iterator over a single row without slots.
fn single<'a>() -> (r: SlotBuilt<'a>)
    ensures
        is_sound(r),
        told(r) == Ok::<SlotFlow, ErrorView>(at_once(Names::empty(), seq![Cells::empty()])),
{
    let b = Box::new(EmptyRowSlotIter::new());
    let it: Box<dyn SlotRecordIter + 'a> = b;
    let r = Ok(it);
    r
}

/// The iterator over the nodes with a label.
fn scan<'a, S: Source>(db: &'a S, label: &str, alias: &str, schema: RecordSchema) -> (r:
    SlotBuilt<'a>)
    ensures
        is_sound(r),
        source::steady(*db) ==> told(r) == (match (source::model(*db).nodes_by_label)(label@) {
            Ok(nodes) => Ok(at_once(schema@, node_cells(schema@, nodes, alias@))),
            Err(e) => Err(e),
        }),
{
    match source::ask_nodes_by_label(db, label) {
        Ok(nodes) => {
            let rs = cells_of_nodes(&schema, &nodes, alias);
            over(rs, schema)
        },
        Err(e) => Err(e),
    }
}

/// The iterator over the nodes that an index gives.
fn look_up<'a, S: Source>(
    db: &'a S,
    label: &str,
    alias: &str,
    properties: &Vec<String>,
    keys: &Vec<(String, Value)>,
    schema: RecordSchema,
) -> (r: SlotBuilt<'a>)
    ensures
        is_sound(r),
        source::steady(*db) ==> told(r) == indexed(
            label@,
            alias@,
            ast_model::texts(properties@),
            value::props_view(keys@),
            schema@,
            source::model(*db),
        ),
{
    match source::ask_index_ids(db, label, properties, keys) {
        Ok(ids) => match nodes_of_ids(db, &ids) {
            Ok(nodes) => {
                let rs = cells_of_nodes(&schema, &nodes, alias);
                over(rs, schema)
            },
            Err(e) => Err(e),
        },
        Err(e) => Err(e),
    }
}

/// The rows of an iterator, up to a failure where there are more than the context allows.
fn cap<'a>(input: SlotBuilt<'a>, ctx: &ExecContext) -> (r: SlotBuilt<'a>)
    ensures
        is_sound(input) ==> is_sound(r),
        told(r) == capped(told(input), *ctx),
{
    if ctx.max_result_rows == 0 {
        return input;
    }
    let max = ctx.max_result_rows;
    match input {
        Ok(input) => {
            let b = Box::new(CappedSlotIter { input, max, left: max });
            let it: Box<dyn SlotRecordIter + 'a> = b;
            let r = Ok(it);
            r
        },
        Err(e) => Err(e),
    }
}

/// Builds the iterator over slots for a plan that reads only.
pub fn build_slot_iter<'a, S: Source>(db: &'a S, plan: &'a LogicalOp, ctx: &ExecContext) -> (r:
    SlotBuilt<'a>)
    requires
        plan::slot_supported(*plan),
        plan::reads_only(*plan),
    ensures
        source::steady(*db) ==> {
            &&& is_sound(r)
            &&& told(r) == slots_of(*plan, *plan, *ctx, source::model(*db))
        },
{
    build_slot_iter_inner(db, plan, plan, ctx)
}

/// Builds the iterator over slots for an operator of a plan. The operators below a join are
/// executed here.
fn build_slot_iter_inner<'a, S: Source>(
    db: &'a S,
    whole: &'a LogicalOp,
    op: &'a LogicalOp,
    ctx: &ExecContext,
) -> (r: SlotBuilt<'a>)
    requires
        plan::slot_supported(*op),
        plan::reads_only(*op),
    ensures
        source::steady(*db) ==> {
            &&& is_sound(r)
            &&& told(r) == slots_of(*whole, *op, *ctx, source::model(*db))
        },
    decreases op,
{
    let built = match op {
        LogicalOp::EmptyRow => single(),
        LogicalOp::SingleRow => single(),
        LogicalOp::Scan { label, alias } => scan(
            db,
            label.as_str(),
            alias.as_str(),
            schema_of(db, whole, op),
        ),
        LogicalOp::IndexLookup { label, alias, index_properties, lookups, remaining_filters } => {
            let keys = read::resolve_lookups(db, lookups);
            let s = look_up(
                db,
                label.as_str(),
                alias.as_str(),
                index_properties,
                &keys,
                schema_of(db, whole, op),
            );
            match remaining_filters {
                Some(p) => keep(s, p, db),
                None => s,
            }
        },
        LogicalOp::Filter { input, predicate } => keep(
            build_slot_iter_inner(db, whole, input, ctx),
            predicate,
            db,
        ),
        LogicalOp::Expand { input, .. } => expand_by(
            build_slot_iter_inner(db, whole, input, ctx),
            run::build_expansion(db, op),
            ctx.max_traversal_work,
            schema_of(db, whole, op),
            db,
        ),
        LogicalOp::Aggregate { input, group_keys, aggregates } => aggregate(
            build_slot_iter_inner(db, whole, input, ctx),
            group_keys,
            aggregates,
            schema_of(db, whole, op),
            db,
        ),
        LogicalOp::Skip { input, count } => without_first(build_slot_iter_inner(db, whole, input, ctx), *count),
        LogicalOp::Limit { input, count } => only_first(build_slot_iter_inner(db, whole, input, ctx), *count),
        LogicalOp::Distinct { input } => distinct(build_slot_iter_inner(db, whole, input, ctx)),
        LogicalOp::Sort { input, items } => sort(build_slot_iter_inner(db, whole, input, ctx), items, db),
        LogicalOp::Unwind { input, expr, alias } => unwind(
            build_slot_iter_inner(db, whole, input, ctx),
            expr,
            alias.as_str(),
            schema_of(db, whole, op),
            db,
        ),
        LogicalOp::Project { input, items, .. } => project_items(
            build_slot_iter_inner(db, whole, input, ctx),
            items,
            schema_of(db, whole, op),
            db,
        ),
        _ => adapt(run::exec(db, op, ctx), schema_of(db, whole, op)),
    };
    cap(built, ctx)
}

} // verus!
