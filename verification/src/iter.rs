//! Pull-based iterators over rows.
//!
//! An operator that works row by row pulls from its input only what is asked of it; one that
//! needs all rows takes them in when it is built.
use crate::ast::{Expr, ReturnItem};
use crate::ast_model;
use crate::exec::arrange;
use crate::exec::expand;
use crate::exec::expand::Expansion;
use crate::exec::flow;
use crate::exec::flow::{Outcome, Rows};
use crate::exec::pull;
use crate::exec::read;
use crate::exec::run;
use crate::plan;
use crate::plan::{ExecContext, LogicalOp};
use crate::queue::Queue;
use crate::record;
use crate::record::{NamedRecord, Row};
use crate::source;
use crate::source::{Model, Source};
use crate::types::{ErrorView, GraphError};
use vstd::prelude::*;

verus! {

/// Yields one row at a time. Pulling can fail.
pub trait RecordIter {
    /// The rows that are still to come.
    spec fn rows(&self) -> Seq<Row>;

    /// The failure that comes after them, if one does.
    spec fn fault(&self) -> Option<ErrorView>;

    /// What the iterator reads answers the same question the same way.
    spec fn sound(&self) -> bool;

    /// No more rows than these come, whatever the iterator reads.
    spec fn bound(&self) -> nat;

    /// The next row, or nothing when there is none left.
    fn next_record(&mut self) -> (r: Result<Option<NamedRecord>, GraphError>)
        ensures
            r matches Ok(Some(_)) ==> final(self).bound() < old(self).bound(),
            old(self).sound() ==> yields(
                Stream { rows: old(self).rows(), fault: old(self).fault() },
                r,
                Stream { rows: final(self).rows(), fault: final(self).fault() },
            ) && (r is Ok ==> final(self).sound()),
    ;
}

/// A pull takes the first row of what is left, or tells how it ends.
pub open spec fn yields(
    before: Stream<Row>,
    r: Result<Option<NamedRecord>, GraphError>,
    after: Stream<Row>,
) -> bool {
    match r {
        Ok(Some(rec)) => {
            &&& before.rows.len() > 0
            &&& rec@ == before.rows[0]
            &&& after.rows == before.rows.drop_first()
            &&& after.fault == before.fault
        },
        Ok(None) => {
            &&& before.rows.len() == 0
            &&& before.fault is None
            &&& after.rows.len() == 0
            &&& after.fault is None
        },
        Err(e) => before.rows.len() == 0 && before.fault == Some(e@),
    }
}

/// What has come to an end stays there: no pull gives a row any more.
pub proof fn an_end_stays(
    before: Stream<Row>,
    r: Result<Option<NamedRecord>, GraphError>,
    after: Stream<Row>,
)
    requires
        yields(before, r, after),
        before.rows.len() == 0,
        before.fault is None,
    ensures
        r == Ok::<Option<NamedRecord>, GraphError>(None),
        after.rows.len() == 0,
        after.fault is None,
{
}

/// A row of the input and the rows made of it come to less than the row and those before it.
pub proof fn lemma_round(before: nat, after: nat, more: nat)
    by (nonlinear_arith)
    requires
        after < before,
        more <= usize::MAX,
    ensures
        after * (usize::MAX + 1) + more < before * (usize::MAX + 1),
{
}

/// Rows up to a failure, as one outcome.
pub open spec fn drained(rows: Seq<Row>, fault: Option<ErrorView>) -> Result<Seq<Row>, ErrorView> {
    match fault {
        Some(e) => Err(e),
        None => Ok(rows),
    }
}

/// All rows of an iterator, which has none left then.
pub fn collect_all<I: RecordIter + ?Sized>(iter: &mut I) -> (r: Result<Vec<NamedRecord>, GraphError>)
    ensures
        old(iter).sound() ==> (match r {
            Ok(v) => Ok(record::rows(v@)),
            Err(e) => Err(e@),
        }) == drained(old(iter).rows(), old(iter).fault()),
        old(iter).sound() && r is Ok ==> {
            &&& final(iter).sound()
            &&& final(iter).rows().len() == 0
            &&& final(iter).fault() is None
        },
{
    let mut out: Vec<NamedRecord> = Vec::new();
    let ghost all = iter.rows();
    let ghost end = iter.fault();
    assert(record::rows(out@) + iter.rows() =~= all);
    loop
        invariant
            all == old(iter).rows(),
            end == old(iter).fault(),
            old(iter).sound() ==> {
                &&& iter.sound()
                &&& iter.fault() == end
                &&& record::rows(out@) + iter.rows() == all
            },
        decreases iter.bound(),
    {
        let ghost before = iter.rows();
        let ghost held = record::rows(out@);
        match iter.next_record() {
            Ok(Some(rec)) => {
                out.push(rec);
                assert(record::rows(out@) =~= held.push(rec@));
                assert(old(iter).sound() ==> held.push(rec@) + before.drop_first() =~= held
                    + before);
            },
            Ok(None) => {
                assert(old(iter).sound() ==> record::rows(out@) =~= all);
                return Ok(out);
            },
            Err(e) => {
                return Err(e);
            },
        }
    }
}

/// Yields at most so many rows of its input.
pub struct LimitIter<I: ?Sized> {
    pub input: Box<I>,
    pub remaining: u64,
}

impl<'a> RecordIter for LimitIter<dyn RecordIter + 'a> {
    open spec fn rows(&self) -> Seq<Row> {
        if self.remaining <= self.input.rows().len() {
            self.input.rows().take(self.remaining as int)
        } else {
            self.input.rows()
        }
    }

    open spec fn fault(&self) -> Option<ErrorView> {
        if self.remaining <= self.input.rows().len() {
            None
        } else {
            self.input.fault()
        }
    }

    open spec fn sound(&self) -> bool {
        self.input.sound()
    }

    open spec fn bound(&self) -> nat {
        self.input.bound()
    }

    fn next_record(&mut self) -> (r: Result<Option<NamedRecord>, GraphError>) {
        if self.remaining == 0 {
            return Ok(None);
        }
        let ghost before = self.rows();
        match self.input.next_record() {
            Ok(Some(rec)) => {
                self.remaining = self.remaining - 1;
                assert(old(self).sound() ==> self.rows() =~= before.drop_first());
                Ok(Some(rec))
            },
            Ok(None) => Ok(None),
            Err(e) => Err(e),
        }
    }
}

/// Rows, and the failure that comes after them, if one does.
pub struct Stream<T> {
    pub rows: Seq<T>,
    pub fault: Option<ErrorView>,
}

/// The rows that those of a stream give, up to the first that fails.
pub open spec fn streamed<T, U>(
    s: Stream<T>,
    f: spec_fn(T) -> Result<Seq<U>, ErrorView>,
) -> Stream<U>
    decreases s.rows.len(),
{
    if s.rows.len() == 0 {
        Stream { rows: Seq::empty(), fault: s.fault }
    } else {
        match f(s.rows[0]) {
            Ok(more) => {
                let rest = streamed(Stream { rows: s.rows.drop_first(), fault: s.fault }, f);
                Stream { rows: more + rest.rows, fault: rest.fault }
            },
            Err(e) => Stream { rows: Seq::empty(), fault: Some(e) },
        }
    }
}

/// Yields rows that are there already.
pub struct VecIter {
    records: Queue<NamedRecord>,
}

impl VecIter {
    /// Yields the rows in order.
    pub fn new(records: Vec<NamedRecord>) -> (r: VecIter)
        ensures
            r.rows() == record::rows(records@),
            r.fault() is None,
            r.sound(),
            r.bound() == records.len(),
    {
        assert(flow::viewed(records@) =~= record::rows(records@));
        VecIter { records: Queue::new(records) }
    }
}

impl RecordIter for VecIter {
    closed spec fn rows(&self) -> Seq<Row> {
        self.records@
    }

    closed spec fn bound(&self) -> nat {
        self.records@.len()
    }

    open spec fn fault(&self) -> Option<ErrorView> {
        None
    }

    open spec fn sound(&self) -> bool {
        true
    }

    fn next_record(&mut self) -> (r: Result<Option<NamedRecord>, GraphError>) {
        Ok(self.records.pop())
    }
}

/// Yields a single empty row.
pub struct EmptyRowIter {
    done: bool,
}

impl EmptyRowIter {
    /// Yields a single empty row.
    pub fn new() -> (r: EmptyRowIter)
        ensures
            r.rows() == seq![Row::empty()],
            r.fault() is None,
            r.sound(),
    {
        EmptyRowIter { done: false }
    }
}

impl Default for EmptyRowIter {
    fn default() -> (r: EmptyRowIter)
        ensures
            r.rows() == seq![Row::empty()],
            r.fault() is None,
            r.sound(),
    {
        EmptyRowIter::new()
    }
}

impl RecordIter for EmptyRowIter {
    closed spec fn rows(&self) -> Seq<Row> {
        if self.done {
            Seq::empty()
        } else {
            seq![Row::empty()]
        }
    }

    closed spec fn bound(&self) -> nat {
        if self.done {
            0
        } else {
            1
        }
    }

    open spec fn fault(&self) -> Option<ErrorView> {
        None
    }

    open spec fn sound(&self) -> bool {
        true
    }

    fn next_record(&mut self) -> (r: Result<Option<NamedRecord>, GraphError>) {
        if self.done {
            Ok(None)
        } else {
            let ghost before = self.rows();
            self.done = true;
            assert(self.rows() =~= before.drop_first());
            Ok(Some(NamedRecord::new()))
        }
    }
}

/// Leaves out the first rows of its input.
pub struct SkipIter<I: ?Sized> {
    pub input: Box<I>,
    pub remaining_to_skip: u64,
}

impl<'a> RecordIter for SkipIter<dyn RecordIter + 'a> {
    open spec fn rows(&self) -> Seq<Row> {
        arrange::skipped(self.input.rows(), self.remaining_to_skip)
    }

    open spec fn fault(&self) -> Option<ErrorView> {
        self.input.fault()
    }

    open spec fn sound(&self) -> bool {
        self.input.sound()
    }

    open spec fn bound(&self) -> nat {
        self.input.bound()
    }

    fn next_record(&mut self) -> (r: Result<Option<NamedRecord>, GraphError>) {
        while self.remaining_to_skip > 0
            invariant
                self.bound() <= old(self).bound(),
                old(self).sound() ==> {
                    &&& self.sound()
                    &&& self.rows() == old(self).rows()
                    &&& self.fault() == old(self).fault()
                },
            decreases self.remaining_to_skip,
        {
            let ghost before = self.input.rows();
            let ghost n = self.remaining_to_skip;
            match self.input.next_record() {
                Ok(Some(_)) => {
                    self.remaining_to_skip = self.remaining_to_skip - 1;
                    assert(before.len() > 0 ==> arrange::skipped(
                        before.drop_first(),
                        (n - 1) as u64,
                    ) =~= arrange::skipped(before, n));
                },
                Ok(None) => {
                    return Ok(None);
                },
                Err(e) => {
                    return Err(e);
                },
            }
        }
        let ghost before = self.input.rows();
        assert(self.rows() =~= before);
        let r = self.input.next_record();
        proof {
            if r is Ok {
                assert(self.rows() =~= self.input.rows());
            }
        }
        r
    }
}

/// Yields the rows of its input on which a predicate holds.
pub struct FilterIter<'a, S, I: ?Sized> {
    pub input: Box<I>,
    pub predicate: &'a Expr,
    pub db: &'a S,
}

impl<'a, S: Source> FilterIter<'a, S, dyn RecordIter + 'a> {
    /// What the iterator still yields.
    pub open spec fn left(&self) -> Stream<Row> {
        let p = self.predicate@;
        let m = source::model(*self.db);
        streamed(
            Stream { rows: self.input.rows(), fault: self.input.fault() },
            |rec: Row| read::kept(rec, p, m),
        )
    }
}

impl<'a, S: Source> RecordIter for FilterIter<'a, S, dyn RecordIter + 'a> {
    open spec fn rows(&self) -> Seq<Row> {
        self.left().rows
    }

    open spec fn fault(&self) -> Option<ErrorView> {
        self.left().fault
    }

    open spec fn sound(&self) -> bool {
        self.input.sound() && source::steady(*self.db)
    }

    open spec fn bound(&self) -> nat {
        self.input.bound()
    }

    fn next_record(&mut self) -> (r: Result<Option<NamedRecord>, GraphError>) {
        loop
            invariant
                self.bound() <= old(self).bound(),
                old(self).sound() ==> self.sound() && self.left() == old(self).left(),
                self.db == old(self).db,
                self.predicate == old(self).predicate,
            decreases self.input.bound(),
        {
            let ghost before = self.left();
            match self.input.next_record() {
                Ok(Some(rec)) => match source::ask_holds(self.db, self.predicate, &rec) {
                    Ok(true) => {
                        proof {
                            if old(self).sound() {
                                assert(before.rows =~= seq![rec@] + self.left().rows);
                                assert(before.rows.drop_first() =~= self.left().rows);
                            }
                        }
                        return Ok(Some(rec));
                    },
                    Ok(false) => {
                        assert(old(self).sound() ==> before.rows =~= self.left().rows);
                    },
                    Err(e) => {
                        return Err(e);
                    },
                },
                Ok(None) => {
                    return Ok(None);
                },
                Err(e) => {
                    return Err(e);
                },
            }
        }
    }
}

/// Yields the columns that the items of a RETURN or WITH give for the rows of its input.
pub struct ProjectIter<'a, S, I: ?Sized> {
    pub input: Box<I>,
    pub items: &'a Vec<ReturnItem>,
    pub emit_compound: bool,
    pub db: &'a S,
}

impl<'a, S: Source> ProjectIter<'a, S, dyn RecordIter + 'a> {
    /// What the iterator still yields.
    pub open spec fn left(&self) -> Stream<Row> {
        let items = ast_model::return_items_view(self.items@);
        let emit = self.emit_compound;
        let m = source::model(*self.db);
        streamed(
            Stream { rows: self.input.rows(), fault: self.input.fault() },
            |rec: Row| pull::projected_one(rec, items, emit, m),
        )
    }
}

impl<'a, S: Source> RecordIter for ProjectIter<'a, S, dyn RecordIter + 'a> {
    open spec fn rows(&self) -> Seq<Row> {
        self.left().rows
    }

    open spec fn fault(&self) -> Option<ErrorView> {
        self.left().fault
    }

    open spec fn sound(&self) -> bool {
        self.input.sound() && source::steady(*self.db)
    }

    open spec fn bound(&self) -> nat {
        self.input.bound()
    }

    fn next_record(&mut self) -> (r: Result<Option<NamedRecord>, GraphError>) {
        let ghost before = self.left();
        match self.input.next_record() {
            Ok(Some(rec)) => match pull::project_record(
                self.db,
                &rec,
                self.items,
                self.emit_compound,
            ) {
                Ok(p) => {
                    proof {
                        if old(self).sound() {
                            assert(before.rows =~= seq![p@] + self.left().rows);
                            assert(before.rows.drop_first() =~= self.left().rows);
                        }
                    }
                    Ok(Some(p))
                },
                Err(e) => Err(e),
            },
            Ok(None) => Ok(None),
            Err(e) => Err(e),
        }
    }
}

/// Yields the rows that those of its input expand to.
pub struct ExpandIter<'a, S, I: ?Sized> {
    pub input: Box<I>,
    pub db: &'a S,
    pub expansion: Expansion,
    pub max_traversal_work: u64,
    /// What is left of the rows that the last row of the input expanded to.
    pub buffer: VecIter,
}

impl<'a, S: Source> ExpandIter<'a, S, dyn RecordIter + 'a> {
    /// What the iterator still yields once the buffer is empty.
    pub open spec fn beyond(&self) -> Stream<Row> {
        let x = self.expansion@;
        let work = self.max_traversal_work;
        let m = source::model(*self.db);
        streamed(
            Stream { rows: self.input.rows(), fault: self.input.fault() },
            |rec: Row| expand::expanded(rec, x, None, work, m),
        )
    }
}

impl<'a, S: Source> RecordIter for ExpandIter<'a, S, dyn RecordIter + 'a> {
    open spec fn rows(&self) -> Seq<Row> {
        self.buffer.rows() + self.beyond().rows
    }

    open spec fn fault(&self) -> Option<ErrorView> {
        self.beyond().fault
    }

    open spec fn sound(&self) -> bool {
        self.input.sound() && source::steady(*self.db)
    }

    open spec fn bound(&self) -> nat {
        (self.input.bound() * (usize::MAX + 1) + self.buffer.bound()) as nat
    }

    fn next_record(&mut self) -> (r: Result<Option<NamedRecord>, GraphError>) {
        loop
            invariant
                self.bound() <= old(self).bound(),
                old(self).sound() ==> {
                    &&& self.sound()
                    &&& self.rows() == old(self).rows()
                    &&& self.fault() == old(self).fault()
                },
            decreases self.input.bound(),
        {
            let ghost before = self.rows();
            let ghost buffered = self.buffer.rows();
            match self.buffer.next_record() {
                Ok(Some(rec)) => {
                    assert(self.rows() =~= before.drop_first());
                    return Ok(Some(rec));
                },
                _ => {},
            }
            assert(before =~= self.beyond().rows);
            let ghost after = self.beyond();
            let ghost waiting = self.input.bound();
            match self.input.next_record() {
                Ok(Some(rec)) => match expand::expand_record(
                    self.db,
                    &rec,
                    &self.expansion,
                    None,
                    self.max_traversal_work,
                ) {
                    Ok(more) => {
                        assert(old(self).sound() ==> after.rows =~= record::rows(more@)
                            + self.beyond().rows);
                        proof {
                            lemma_round(waiting, self.input.bound(), more.len() as nat);
                        }
                        self.buffer = VecIter::new(more);
                    },
                    Err(e) => {
                        return Err(e);
                    },
                },
                Ok(None) => {
                    assert(old(self).sound() ==> self.rows() =~= Seq::<Row>::empty());
                    return Ok(None);
                },
                Err(e) => {
                    return Err(e);
                },
            }
        }
    }
}

/// A result of the rows that are all there.
pub open spec fn all_at_once(rs: Rows) -> Flow {
    match rs {
        Ok(rows) => Ok(Stream { rows, fault: None }),
        Err(e) => Err(e),
    }
}

/// The context of a query without limits.
pub open spec fn free_context() -> ExecContext {
    ExecContext {
        max_result_rows: 0,
        max_traversal_depth: 0,
        max_traversal_work: 10_000_000,
        require_read_only: false,
    }
}

/// A stream, or why there is none.
pub type Flow = Result<Stream<Row>, ErrorView>;

/// What the rows of a flow give, row by row.
pub open spec fn mapped(s: Flow, f: spec_fn(Row) -> Rows) -> Flow {
    match s {
        Ok(s) => Ok(streamed(s, f)),
        Err(e) => Err(e),
    }
}

/// A flow without its first rows.
pub open spec fn skipped(s: Flow, n: u64) -> Flow {
    match s {
        Ok(s) => Ok(Stream { rows: arrange::skipped(s.rows, n), fault: s.fault }),
        Err(e) => Err(e),
    }
}

/// The first rows of a flow. A failure behind them is not reached.
pub open spec fn limited(s: Flow, n: u64) -> Flow {
    match s {
        Ok(s) => Ok(
            if n <= s.rows.len() {
                Stream { rows: s.rows.take(n as int), fault: None }
            } else {
                s
            },
        ),
        Err(e) => Err(e),
    }
}

/// All rows of a flow.
pub open spec fn gathered(s: Flow) -> Rows {
    match s {
        Ok(s) => drained(s.rows, s.fault),
        Err(e) => Err(e),
    }
}

/// What an operator that needs all rows of its input makes of them.
pub open spec fn rearranged(s: Flow, f: spec_fn(Seq<Row>) -> Seq<Row>) -> Flow {
    match gathered(s) {
        Ok(rs) => Ok(Stream { rows: f(rs), fault: None }),
        Err(e) => Err(e),
    }
}

/// What the iterator for a plan yields, or why there is none. Sorting and the removal of
/// repetitions need all rows, so that a failure of their input comes up at once. Rows are
/// sorted in the plain order, and a projection takes what a row holds under a column's name.
pub open spec fn stream_of(op: LogicalOp, work: u64, m: Model) -> Flow
    decreases op,
{
    match op {
        LogicalOp::EmptyRow => Ok(Stream { rows: seq![Row::empty()], fault: None }),
        LogicalOp::Scan { label, alias } => match (m.nodes_by_label)(label@) {
            Ok(nodes) => Ok(Stream { rows: read::node_rows(nodes, alias@), fault: None }),
            Err(e) => Err(e),
        },
        LogicalOp::Filter { input, predicate } => mapped(
            stream_of(*input, work, m),
            |rec: Row| read::kept(rec, predicate@, m),
        ),
        LogicalOp::Skip { input, count } => skipped(stream_of(*input, work, m), count),
        LogicalOp::Limit { input, count } => limited(stream_of(*input, work, m), count),
        LogicalOp::Project { input, items, emit_compound } => mapped(
            stream_of(*input, work, m),
            |rec: Row|
                pull::projected_one(
                    rec,
                    ast_model::return_items_view(items@),
                    emit_compound,
                    m,
                ),
        ),
        LogicalOp::Expand { input, .. } => mapped(
            stream_of(*input, work, m),
            |rec: Row| expand::expanded(rec, run::expansion(op, m), None, work, m),
        ),
        LogicalOp::Distinct { input } => rearranged(
            stream_of(*input, work, m),
            |rs: Seq<Row>| arrange::unique(rs, arrange::alike(true)),
        ),
        LogicalOp::Sort { input, items } => rearranged(
            stream_of(*input, work, m),
            |rs: Seq<Row>|
                arrange::sorted(
                    rs,
                    arrange::row_plainly_before(ast_model::sort_items_view(items@), m),
                ),
        ),
        _ => all_at_once(run::rows_of(op, free_context(), m)),
    }
}

/// An iterator, or why there is none.
pub type Built<'a> = Result<Box<dyn RecordIter + 'a>, GraphError>;

/// What an iterator yields, or why there is none.
pub open spec fn told<'a>(r: Built<'a>) -> Flow {
    match r {
        Ok(it) => Ok(Stream { rows: it.rows(), fault: it.fault() }),
        Err(e) => Err(e@),
    }
}

/// What an iterator reads answers the same question the same way.
pub open spec fn is_sound<'a>(r: Built<'a>) -> bool {
    match r {
        Ok(it) => it.sound(),
        Err(_) => true,
    }
}

/// The iterator over rows that are all there.
fn over<'a>(rs: Outcome) -> (r: Built<'a>)
    ensures
        is_sound(r),
        told(r) == all_at_once(flow::rows_told(rs)),
{
    match rs {
        Ok(rs) => {
            let b = Box::new(VecIter::new(rs));
            let it: Box<dyn RecordIter + 'a> = b;
            let r = Ok(it);
            r
        },
        Err(e) => Err(e),
    }
}

/// All rows of an iterator.
fn all_of<'a>(input: Built<'a>) -> (r: Outcome)
    ensures
        is_sound(input) ==> flow::rows_told(r) == gathered(told(input)),
{
    match input {
        Ok(input) => {
            let mut input = input;
            collect_all(&mut *input)
        },
        Err(e) => Err(e),
    }
}

/// The rows on which a predicate holds.
fn filtered<'a, S: Source>(input: Built<'a>, predicate: &'a Expr, db: &'a S) -> (r: Built<'a>)
    ensures
        is_sound(input) && source::steady(*db) ==> is_sound(r),
        told(r) == mapped(
            told(input),
            |rec: Row| read::kept(rec, predicate@, source::model(*db)),
        ),
{
    match input {
        Ok(input) => {
            let b = Box::new(FilterIter { input, predicate, db });
            let it: Box<dyn RecordIter + 'a> = b;
            let r = Ok(it);
            r
        },
        Err(e) => Err(e),
    }
}

/// An iterator without its first rows.
fn without_first<'a>(input: Built<'a>, n: u64) -> (r: Built<'a>)
    ensures
        is_sound(input) ==> is_sound(r),
        told(r) == skipped(told(input), n),
{
    match input {
        Ok(input) => {
            let b = Box::new(SkipIter { input, remaining_to_skip: n });
            let it: Box<dyn RecordIter + 'a> = b;
            let r = Ok(it);
            r
        },
        Err(e) => Err(e),
    }
}

/// The first rows of an iterator.
fn only_first<'a>(input: Built<'a>, n: u64) -> (r: Built<'a>)
    ensures
        is_sound(input) ==> is_sound(r),
        told(r) == limited(told(input), n),
{
    match input {
        Ok(input) => {
            let b = Box::new(LimitIter { input, remaining: n });
            let it: Box<dyn RecordIter + 'a> = b;
            let r = Ok(it);
            r
        },
        Err(e) => Err(e),
    }
}

/// The columns that items give.
fn projected<'a, S: Source>(input: Built<'a>, items: &'a Vec<ReturnItem>, emit_compound: bool, db: &'a S) -> (r: Built<'a>)
    ensures
        is_sound(input) && source::steady(*db) ==> is_sound(r),
        told(r) == mapped(
            told(input),
            |rec: Row|
                pull::projected_one(
                    rec,
                    ast_model::return_items_view(items@),
                    emit_compound,
                    source::model(*db),
                ),
        ),
{
    match input {
        Ok(input) => {
            let b = Box::new(ProjectIter { input, items, emit_compound, db });
            let it: Box<dyn RecordIter + 'a> = b;
            let r = Ok(it);
            r
        },
        Err(e) => Err(e),
    }
}

/// The rows that an expansion leads to.
fn expanded<'a, S: Source>(input: Built<'a>, expansion: Expansion, work: u64, db: &'a S) -> (r: Built<'a>)
    ensures
        is_sound(input) && source::steady(*db) ==> is_sound(r),
        told(r) == mapped(
            told(input),
            |rec: Row| expand::expanded(rec, expansion@, None, work, source::model(*db)),
        ),
{
    match input {
        Ok(input) => {
            let none: Vec<NamedRecord> = Vec::new();
            assert(record::rows(none@) =~= Seq::<Row>::empty());
            let buffer = VecIter::new(none);
            let x = ExpandIter { input, db, expansion, max_traversal_work: work, buffer };
            assert(x.rows() =~= x.beyond().rows);
            let b = Box::new(x);
            let it: Box<dyn RecordIter + 'a> = b;
            let r = Ok(it);
            r
        },
        Err(e) => Err(e),
    }
}

/// Builds the iterator for a plan that reads only. Where a label is scanned or an index is
/// asked, that is done here; a plan that has no iterator of its own is executed here.
pub fn build_iter<'a, S: Source>(db: &'a S, op: &'a LogicalOp, max_traversal_work: u64) -> (r:
    Built<'a>)
    requires
        plan::reads_only(*op),
    ensures
        source::steady(*db) ==> {
            &&& is_sound(r)
            &&& told(r) == stream_of(*op, max_traversal_work, source::model(*db))
        },
    decreases op,
{
    let work = max_traversal_work;
    match op {
        LogicalOp::EmptyRow => over(Ok(read::one_row(NamedRecord::new()))),
        LogicalOp::Scan { label, alias } => match source::ask_nodes_by_label(db, label.as_str()) {
            Ok(nodes) => over(Ok(read::rows_of_nodes(&nodes, alias.as_str()))),
            Err(e) => Err(e),
        },
        LogicalOp::Filter { input, predicate } => filtered(
            build_iter(db, input, work),
            predicate,
            db,
        ),
        LogicalOp::Skip { input, count } => without_first(build_iter(db, input, work), *count),
        LogicalOp::Limit { input, count } => only_first(build_iter(db, input, work), *count),
        LogicalOp::Project { input, items, emit_compound } => projected(
            build_iter(db, input, work),
            items,
            *emit_compound,
            db,
        ),
        LogicalOp::Expand { input, .. } => expanded(
            build_iter(db, input, work),
            run::build_expansion(db, op),
            work,
            db,
        ),
        LogicalOp::Distinct { input } => match all_of(build_iter(db, input, work)) {
            Ok(rs) => over(Ok(arrange::unique_rows(rs, true))),
            Err(e) => Err(e),
        },
        LogicalOp::Sort { input, items } => match all_of(build_iter(db, input, work)) {
            Ok(rs) => over(Ok(arrange::sort_rows(db, rs, items, true))),
            Err(e) => Err(e),
        },
        _ => over(run::exec(db, op, &ExecContext::default())),
    }
}

} // verus!
