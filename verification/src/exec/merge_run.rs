//! MERGE after other clauses, row by row: what to do next, and what to go on with.
use crate::ast::{NodePattern, Pattern, PatternElement, RelPattern, SetItem};
use crate::exec::change;
use crate::exec::change::{Change, ChangeView};
use crate::exec::merge;
use crate::exec::merge::{Found, FoundView};
use crate::exec::merge_rel;
use crate::exec::merge_rel::{Hit, RelFound, RelFoundView, Shape};
use crate::exec::merge_set;
use crate::exec::merge_set::{Owner, OwnerView};
use crate::record;
use crate::record::{NamedRecord, Row};
use crate::source;
use crate::source::{Model, Source};
use crate::text;
use crate::types;
use crate::types::{ErrorView, GraphError, NodeId};
use vstd::prelude::*;

verus! {

/// One thing to do for a row once it is known what was found or created for it.
#[derive(Clone, Copy, Debug, PartialEq, Eq, Structural)]
pub enum Todo {
    /// An item of ON CREATE or ON MATCH, for one of the things found.
    Item { owner: usize, item: usize },
    /// The row for one of the things found.
    Bind { owner: usize },
}

/// The items for the things from `from` on, all of them in turn.
pub open spec fn items_for(owner: int, items: nat) -> Seq<Todo> {
    Seq::new(items, |k: int| Todo::Item { owner: owner as usize, item: k as usize })
}

/// What is to be done for nodes: for each of them its items, and then its row.
pub open spec fn node_todo(owners: nat, items: nat) -> Seq<Todo>
    decreases owners,
{
    if owners == 0 {
        Seq::empty()
    } else {
        (node_todo((owners - 1) as nat, items) + items_for(owners - 1, items)).push(
            Todo::Bind { owner: (owners - 1) as usize },
        )
    }
}

/// The items for relationships.
pub open spec fn all_items(owners: nat, items: nat) -> Seq<Todo>
    decreases owners,
{
    if owners == 0 {
        Seq::empty()
    } else {
        all_items((owners - 1) as nat, items) + items_for(owners - 1, items)
    }
}

/// What is to be done for relationships: the items for all of them, and then their rows.
pub open spec fn edge_todo(owners: nat, items: nat) -> Seq<Todo> {
    all_items(owners, items) + Seq::new(owners, |i: int| Todo::Bind { owner: i as usize })
}

/// What is to be done for what was found.
pub open spec fn todo(nodes: bool, owners: nat, items: nat) -> Seq<Todo> {
    if nodes {
        node_todo(owners, items)
    } else {
        edge_todo(owners, items)
    }
}

/// Appends the items for one of the things found.
fn push_items(out: &mut Vec<Todo>, owner: usize, items: usize)
    ensures
        final(out)@ == old(out)@ + items_for(owner as int, items as nat),
{
    let ghost first = out@;
    let ghost whole = items_for(owner as int, items as nat);
    let mut k: usize = 0;
    assert(first + whole.take(0) =~= first);
    while k < items
        invariant
            k <= items,
            whole == items_for(owner as int, items as nat),
            out@ == first + whole.take(k as int),
        decreases items - k,
    {
        out.push(Todo::Item { owner, item: k });
        assert(first + whole.take(k + 1) =~= (first + whole.take(k as int)).push(whole[k as int]));
        k = k + 1;
    }
    assert(whole.take(whole.len() as int) =~= whole);
}

/// What is to be done for what was found.
fn make_todo(nodes: bool, owners: usize, items: usize) -> (r: Vec<Todo>)
    ensures
        r@ == todo(nodes, owners as nat, items as nat),
{
    let mut out: Vec<Todo> = Vec::new();
    let mut i: usize = 0;
    while i < owners
        invariant
            i <= owners,
            nodes ==> out@ == node_todo(i as nat, items as nat),
            !nodes ==> out@ == all_items(i as nat, items as nat),
        decreases owners - i,
    {
        push_items(&mut out, i, items);
        if nodes {
            out.push(Todo::Bind { owner: i });
        }
        i = i + 1;
    }
    if !nodes {
        let ghost first = out@;
        let ghost binds = Seq::new(owners as nat, |i: int| Todo::Bind { owner: i as usize });
        let mut j: usize = 0;
        assert(first + binds.take(0) =~= first);
        while j < owners
            invariant
                j <= owners,
                binds == Seq::new(owners as nat, |i: int| Todo::Bind { owner: i as usize }),
                out@ == first + binds.take(j as int),
            decreases owners - j,
        {
            out.push(Todo::Bind { owner: j });
            assert(first + binds.take(j + 1) =~= (first + binds.take(j as int)).push(
                binds[j as int],
            ));
            j = j + 1;
        }
        assert(binds.take(binds.len() as int) =~= binds);
    }
    out
}

/// Where a MERGE stands on a row.
pub enum Phase {
    /// Nothing was looked for yet.
    Find,
    /// A node is being created.
    Await,
    /// It is known what was found or created.
    Act { owners: Vec<Owner>, fresh: bool, todo: Vec<Todo>, at: usize },
}

/// What a [`Phase`] says.
pub enum PhaseView {
    Find,
    Await,
    Act { owners: Seq<OwnerView>, fresh: bool, todo: Seq<Todo>, at: int },
}

/// What a list of things found says.
pub open spec fn owners_view(s: Seq<Owner>) -> Seq<OwnerView> {
    Seq::new(s.len(), |i: int| s[i]@)
}

impl View for Phase {
    type V = PhaseView;

    open spec fn view(&self) -> PhaseView {
        match self {
            Phase::Find => PhaseView::Find,
            Phase::Await => PhaseView::Await,
            Phase::Act { owners, fresh, todo, at } => PhaseView::Act {
                owners: owners_view(owners@),
                fresh: *fresh,
                todo: todo@,
                at: *at as int,
            },
        }
    }
}

/// A MERGE on its way through the rows.
pub struct MergeRun {
    pub rows: Vec<NamedRecord>,
    /// The row that comes next.
    pub row: usize,
    pub phase: Phase,
    /// The rows that are done.
    pub done: Vec<NamedRecord>,
}

/// What a [`MergeRun`] says.
pub struct MergeRunView {
    pub rows: Seq<Row>,
    pub row: int,
    pub phase: PhaseView,
    pub done: Seq<Row>,
}

impl View for MergeRun {
    type V = MergeRunView;

    open spec fn view(&self) -> MergeRunView {
        MergeRunView {
            rows: record::rows(self.rows@),
            row: self.row as int,
            phase: self.phase@,
            done: record::rows(self.done@),
        }
    }
}

/// A MERGE clause: its pattern, and what it sets.
pub struct Clause<'a> {
    pub pattern: &'a Pattern,
    pub on_create: &'a Vec<SetItem>,
    pub on_match: &'a Vec<SetItem>,
    /// The clause stands on its own, so that its node carries all labels of the pattern.
    pub alone: bool,
}

impl<'a> Clause<'a> {
    /// The items that are set.
    pub open spec fn items(&self, fresh: bool) -> Seq<SetItem> {
        if fresh {
            self.on_create@
        } else {
            self.on_match@
        }
    }
}

/// The name of a node's variable; one of the library's own where the pattern has none.
pub open spec fn node_alias(p: NodePattern) -> Seq<char> {
    match p.variable {
        Some(v) => v@,
        None => "_merge"@,
    }
}

/// A name, or nothing.
pub open spec fn var_of(p: NodePattern) -> Seq<char> {
    match p.variable {
        Some(v) => v@,
        None => ""@,
    }
}

/// What is found, ready to be acted on.
pub open spec fn acting(owners: Seq<OwnerView>, fresh: bool, nodes: bool, items: nat) -> PhaseView {
    PhaseView::Act { owners, fresh, todo: todo(nodes, owners.len(), items), at: 0 }
}

/// The relationships that were found.
pub open spec fn hit_owners(hits: Seq<Hit>, label: Seq<char>) -> Seq<OwnerView> {
    Seq::new(
        hits.len(),
        |i: int|
            OwnerView::Edge { src: hits[i].0, dst: hits[i].1, label, seq: Some(hits[i].2) },
    )
}

/// The nodes that were found.
pub open spec fn id_owners(ids: Seq<NodeId>) -> Seq<OwnerView> {
    Seq::new(ids.len(), |i: int| OwnerView::Node(ids[i]))
}

/// The changes to make, and the run after them.
pub struct StepView {
    pub changes: Seq<ChangeView>,
    pub run: MergeRunView,
}

impl MergeRunView {
    /// The run in another phase of the same row.
    pub open spec fn in_phase(self, phase: PhaseView) -> MergeRunView {
        MergeRunView { phase, ..self }
    }

    /// The run at the next row.
    pub open spec fn next_row(self) -> MergeRunView {
        MergeRunView { row: self.row + 1, phase: PhaseView::Find, ..self }
    }

    /// Nothing is left to do.
    pub open spec fn finished(self) -> bool {
        self.row >= self.rows.len()
    }

    /// What is looked for on a row comes to this.
    pub open spec fn found(self, c: Clause, m: Model) -> Result<StepView, ErrorView> {
        let s = c.pattern.elements@;
        let rec = self.rows[self.row];
        match s[0] {
            PatternElement::Node(p) => if s.len() == 1 {
                let f = if c.alone {
                    merge::node_merged(p, m)
                } else {
                    merge::row_merged(p, rec, m)
                };
                match f {
                    Err(e) => Err(e),
                    Ok(FoundView::Missing(change)) => Ok(
                        StepView { changes: seq![change], run: self.in_phase(PhaseView::Await) },
                    ),
                    Ok(FoundView::Nodes(ids)) => Ok(
                        StepView {
                            changes: Seq::empty(),
                            run: self.in_phase(
                                acting(id_owners(ids), false, true, c.on_match@.len()),
                            ),
                        },
                    ),
                }
            } else {
                match (s[1], s[2]) {
                    (PatternElement::Relationship(rel), PatternElement::Node(q)) =>
                    self.rel_found(c, p, rel, q, m),
                    _ => arbitrary(),
                }
            },
            _ => arbitrary(),
        }
    }

    /// What is looked for on a row comes to this, for a relationship.
    pub open spec fn rel_found(
        self,
        c: Clause,
        p: NodePattern,
        rel: RelPattern,
        q: NodePattern,
        m: Model,
    ) -> Result<StepView, ErrorView> {
        let label = merge_rel::rel_type(rel);
        match merge_rel::row_rel_merged(self.rows[self.row], var_of(p), rel, var_of(q), m) {
            Err(e) => Err(e),
            Ok(RelFoundView::NoEnds) => Ok(
                StepView { changes: Seq::empty(), run: self.next_row() },
            ),
            Ok(RelFoundView::Missing(change)) => Ok(
                StepView {
                    changes: seq![change],
                    run: match change {
                        ChangeView::AddEdge { src, dst, .. } => self.in_phase(
                            acting(
                                seq![OwnerView::Edge { src, dst, label, seq: None }],
                                true,
                                false,
                                c.on_create@.len(),
                            ),
                        ),
                        _ => arbitrary(),
                    },
                },
            ),
            Ok(RelFoundView::Edges(hits)) => Ok(
                StepView {
                    changes: Seq::empty(),
                    run: self.in_phase(
                        acting(hit_owners(hits, label), false, false, c.on_match@.len()),
                    ),
                },
            ),
        }
    }

    /// One of the things to do is done.
    pub open spec fn acted(
        self,
        c: Clause,
        owners: Seq<OwnerView>,
        fresh: bool,
        todo: Seq<Todo>,
        at: int,
        m: Model,
    ) -> Result<StepView, ErrorView> {
        let rec = self.rows[self.row];
        let next = self.in_phase(PhaseView::Act { owners, fresh, todo, at: at + 1 });
        match todo[at] {
            Todo::Item { owner, item } => match set_by(
                c.items(fresh)[item as int],
                owners[owner as int],
                rec,
                m,
            ) {
                Ok(changes) => Ok(StepView { changes, run: next }),
                Err(e) => Err(e),
            },
            Todo::Bind { owner } => match bound_row(*c.pattern, owners[owner as int], rec, m) {
                Ok(row) => Ok(
                    StepView {
                        changes: Seq::empty(),
                        run: MergeRunView { done: next.done.push(row), ..next },
                    },
                ),
                Err(e) => Err(e),
            },
        }
    }

    /// The next changes, and the run after them; `id` is the id of a node that was created.
    pub open spec fn stepped(self, c: Clause, id: NodeId, m: Model) -> Result<StepView, ErrorView> {
        match self.phase {
            PhaseView::Find => self.found(c, m),
            PhaseView::Await => Ok(
                StepView {
                    changes: Seq::empty(),
                    run: self.in_phase(
                        acting(seq![OwnerView::Node(id)], true, true, c.on_create@.len()),
                    ),
                },
            ),
            PhaseView::Act { owners, fresh, todo, at } => if at >= todo.len() {
                Ok(StepView { changes: Seq::empty(), run: self.next_row() })
            } else {
                self.acted(c, owners, fresh, todo, at, m)
            },
        }
    }

    /// The run stands where the clause can go on from.
    pub open spec fn fits(self, c: Clause) -> bool {
        &&& 0 <= self.row <= self.rows.len()
        &&& match self.phase {
            PhaseView::Act { owners, fresh, todo, at } => {
                &&& 0 <= at <= todo.len()
                &&& forall|i: int|
                    0 <= i < owners.len() ==> ((#[trigger] owners[i]) is Edge
                        ==> c.pattern.elements@.len() == 3)
                &&& forall|i: int|
                    0 <= i < todo.len() ==> within(
                        #[trigger] todo[i],
                        owners.len(),
                        c.items(fresh).len(),
                    )
            },
            _ => true,
        }
    }
}

/// A thing to do is about one of the things found and one of the items.
pub open spec fn within(t: Todo, owners: nat, items: nat) -> bool {
    match t {
        Todo::Item { owner, item } => owner < owners && item < items,
        Todo::Bind { owner } => owner < owners,
    }
}

/// What is to be done for what was found is about what was found.
proof fn lemma_todo_within(nodes: bool, owners: nat, items: nat)
    requires
        owners <= usize::MAX,
        items <= usize::MAX,
    ensures
        forall|i: int|
            0 <= i < todo(nodes, owners, items).len() ==> within(
                #[trigger] todo(nodes, owners, items)[i],
                owners,
                items,
            ),
{
    lemma_items_within(owners, owners, items);
    assert forall|i: int| 0 <= i < todo(nodes, owners, items).len() implies within(
        #[trigger] todo(nodes, owners, items)[i],
        owners,
        items,
    ) by {
        if nodes {
            assert(within(node_todo(owners, items)[i], owners, items));
        } else if i < all_items(owners, items).len() {
            assert(within(all_items(owners, items)[i], owners, items));
        }
    }
}

/// The first things to do are about the first things found.
proof fn lemma_items_within(n: nat, owners: nat, items: nat)
    requires
        n <= owners <= usize::MAX,
        items <= usize::MAX,
    ensures
        forall|i: int|
            0 <= i < node_todo(n, items).len() ==> within(
                #[trigger] node_todo(n, items)[i],
                owners,
                items,
            ),
        forall|i: int|
            0 <= i < all_items(n, items).len() ==> within(
                #[trigger] all_items(n, items)[i],
                owners,
                items,
            ),
    decreases n,
{
    if n > 0 {
        let k = (n - 1) as nat;
        lemma_items_within(k, owners, items);
        assert forall|i: int| 0 <= i < node_todo(n, items).len() implies within(
            #[trigger] node_todo(n, items)[i],
            owners,
            items,
        ) by {
            if i < node_todo(k, items).len() {
                assert(node_todo(n, items)[i] == node_todo(k, items)[i]);
            }
        }
        assert forall|i: int| 0 <= i < all_items(n, items).len() implies within(
            #[trigger] all_items(n, items)[i],
            owners,
            items,
        ) by {
            if i < all_items(k, items).len() {
                assert(all_items(n, items)[i] == all_items(k, items)[i]);
            }
        }
    }
}

/// What an item does to one of the things found.
pub open spec fn set_by(item: SetItem, owner: OwnerView, rec: Row, m: Model) -> Result<
    Seq<ChangeView>,
    ErrorView,
> {
    match owner {
        OwnerView::Node(id) => merge_set::node_set(item, id, rec, m),
        OwnerView::Edge { src, dst, label, seq } => merge_set::edge_set(
            item,
            src,
            dst,
            label,
            seq,
            rec,
            m,
        ),
    }
}

/// The row for one of the things found.
pub open spec fn bound_row(p: Pattern, owner: OwnerView, rec: Row, m: Model) -> Result<
    Row,
    ErrorView,
> {
    match owner {
        OwnerView::Node(id) => match p.elements@[0] {
            PatternElement::Node(n) => merge_rel::merged_row(
                rec,
                node_alias(n),
                id,
                p.path_variable,
                m,
            ),
            _ => arbitrary(),
        },
        OwnerView::Edge { src, dst, label, seq } => match p.elements@[1] {
            PatternElement::Relationship(rel) => merge_rel::rel_row(
                rec,
                rel,
                p.path_variable,
                src,
                dst,
                seq,
                m,
            ),
            _ => arbitrary(),
        },
    }
}

/// The relationships that were found.
fn owners_of_hits(hits: &Vec<Hit>, label: &str) -> (r: Vec<Owner>)
    ensures
        owners_view(r@) == hit_owners(hits@, label@),
{
    let ghost whole = hit_owners(hits@, label@);
    let mut out: Vec<Owner> = Vec::new();
    let mut i: usize = 0;
    while i < hits.len()
        invariant
            i <= hits.len(),
            whole == hit_owners(hits@, label@),
            owners_view(out@) == whole.take(i as int),
        decreases hits.len() - i,
    {
        let ghost before = owners_view(out@);
        let o = Owner::Edge {
            src: hits[i].0,
            dst: hits[i].1,
            label: text::owned(label),
            seq: Some(hits[i].2),
        };
        out.push(o);
        assert(owners_view(out@) =~= before.push(o@));
        assert(whole.take(i + 1) =~= whole.take(i as int).push(whole[i as int]));
        i = i + 1;
    }
    assert(whole.take(whole.len() as int) =~= whole);
    out
}

/// The nodes that were found.
fn owners_of_ids(ids: &Vec<NodeId>) -> (r: Vec<Owner>)
    ensures
        owners_view(r@) == id_owners(ids@),
{
    let ghost whole = id_owners(ids@);
    let mut out: Vec<Owner> = Vec::new();
    let mut i: usize = 0;
    while i < ids.len()
        invariant
            i <= ids.len(),
            whole == id_owners(ids@),
            owners_view(out@) == whole.take(i as int),
        decreases ids.len() - i,
    {
        let ghost before = owners_view(out@);
        let o = Owner::Node(ids[i]);
        out.push(o);
        assert(owners_view(out@) =~= before.push(o@));
        assert(whole.take(i + 1) =~= whole.take(i as int).push(whole[i as int]));
        i = i + 1;
    }
    assert(whole.take(whole.len() as int) =~= whole);
    out
}

/// A list with one thing.
fn one_owner(o: Owner) -> (r: Vec<Owner>)
    ensures
        owners_view(r@) == seq![o@],
{
    let mut r: Vec<Owner> = Vec::new();
    r.push(o);
    assert(owners_view(r@) =~= seq![o@]);
    r
}

/// What is found, ready to be acted on.
fn act_on(owners: Vec<Owner>, fresh: bool, nodes: bool, items: usize) -> (r: Phase)
    ensures
        r@ == acting(owners_view(owners@), fresh, nodes, items as nat),
        forall|i: int|
            0 <= i < todo(nodes, owners@.len(), items as nat).len() ==> within(
                #[trigger] todo(nodes, owners@.len(), items as nat)[i],
                owners@.len(),
                items as nat,
            ),
{
    let n = owners.len();
    proof {
        lemma_todo_within(nodes, n as nat, items as nat);
    }
    let todo = make_todo(nodes, n, items);
    Phase::Act { owners, fresh, todo, at: 0 }
}

/// What an item does to one of the things found.
fn plan_set<S: Source>(db: &S, item: &SetItem, owner: &Owner, rec: &NamedRecord) -> (r: Result<
    Vec<Change>,
    GraphError,
>)
    ensures
        source::steady(*db) ==> merge_set::changes_told(r) == set_by(
            *item,
            owner@,
            rec@,
            source::model(*db),
        ),
{
    match owner {
        Owner::Node(id) => merge_set::apply_merge_set_item_node(db, item, *id, rec),
        Owner::Edge { src, dst, label, seq } => merge_set::apply_merge_set_item_edge(
            db,
            item,
            *src,
            *dst,
            label.as_str(),
            *seq,
            rec,
        ),
    }
}

/// The row for one of the things found.
fn make_row<S: Source>(db: &S, p: &Pattern, after: bool, owner: &Owner, rec: &NamedRecord) -> (r: Result<
    NamedRecord,
    GraphError,
>)
    requires
        merge_rel::pattern_fault(*p, after) is None,
        owner@ is Edge ==> p.elements@.len() == 3,
    ensures
        source::steady(*db) ==> types::outcome(r) == bound_row(
            *p,
            owner@,
            rec@,
            source::model(*db),
        ),
{
    match (owner, merge_rel::merge_shape(p, after)) {
        (Owner::Node(id), Ok(Shape::Node(n))) => merge_rel::bind_merged_node(
            db,
            rec,
            alias_of(n).as_str(),
            *id,
            &p.path_variable,
        ),
        (Owner::Node(id), Ok(Shape::Relationship { src, .. })) => merge_rel::bind_merged_node(
            db,
            rec,
            alias_of(src).as_str(),
            *id,
            &p.path_variable,
        ),
        (
            Owner::Edge { src, dst, seq, .. },
            Ok(Shape::Relationship { rel, .. }),
        ) => merge_rel::bind_merged_edge(db, rec, rel, &p.path_variable, *src, *dst, *seq),
        _ => Ok(rec.dup()),
    }
}

/// The name of a node's variable.
fn alias_of(p: &NodePattern) -> (r: String)
    ensures
        r@ == node_alias(*p),
{
    match &p.variable {
        Some(v) => v.clone(),
        None => text::owned("_merge"),
    }
}

/// A name, or nothing.
fn variable_of(p: &NodePattern) -> (r: String)
    ensures
        r@ == var_of(*p),
{
    match &p.variable {
        Some(v) => v.clone(),
        None => text::owned(""),
    }
}

/// The clause is one that a run can follow: its pattern is in order, and on its own it merges a
/// node.
pub open spec fn runs(c: Clause) -> bool {
    &&& merge_rel::pattern_fault(*c.pattern, !c.alone) is None
    &&& c.alone ==> c.pattern.elements@.len() == 1
}

impl MergeRun {
    /// A run through the rows.
    pub fn new(rows: Vec<NamedRecord>) -> (r: MergeRun)
        ensures
            r@ == (MergeRunView {
                rows: record::rows(rows@),
                row: 0,
                phase: PhaseView::Find,
                done: Seq::empty(),
            }),
    {
        let done: Vec<NamedRecord> = Vec::new();
        assert(record::rows(done@) =~= Seq::<Row>::empty());
        MergeRun { rows, row: 0, phase: Phase::Find, done }
    }

    /// Looks for a node on a row.
    fn find_node<S: Source>(&mut self, db: &S, c: &Clause, p: &NodePattern) -> (r: Result<
        Vec<Change>,
        GraphError,
    >)
        requires
            old(self)@.fits(*c),
            !old(self)@.finished(),
            c.pattern.elements@.len() == 1,
            c.pattern.elements@[0] == PatternElement::Node(*p),
        ensures
            r is Ok ==> final(self)@.fits(*c),
            source::steady(*db) ==> step_told(r, final(self)@, old(self)@.found(*c, source::model(*db))),
    {
        let f = if c.alone {
            merge::plan_node_merge(db, p)
        } else {
            merge::plan_row_merge(db, p, &self.rows[self.row])
        };
        match f {
            Err(e) => Err(e),
            Ok(Found::Missing(change)) => {
                self.phase = Phase::Await;
                Ok(change::one_change(change))
            },
            Ok(Found::Nodes(ids)) => {
                self.phase = act_on(owners_of_ids(&ids), false, true, c.on_match.len());
                Ok(change::no_changes())
            },
        }
    }

    /// Looks for a relationship on a row.
    fn find_rel<S: Source>(
        &mut self,
        db: &S,
        c: &Clause,
        p: &NodePattern,
        rel: &RelPattern,
        q: &NodePattern,
    ) -> (r: Result<Vec<Change>, GraphError>)
        requires
            old(self)@.fits(*c),
            !old(self)@.finished(),
            c.pattern.elements@.len() == 3,
        ensures
            r is Ok ==> final(self)@.fits(*c),
            source::steady(*db) ==> step_told(
                r,
                final(self)@,
                old(self)@.rel_found(*c, *p, *rel, *q, source::model(*db)),
            ),
    {
        let label = merge_rel::merged_type(rel);
        match merge_rel::plan_row_rel_merge(
            db,
            &self.rows[self.row],
            variable_of(p).as_str(),
            rel,
            variable_of(q).as_str(),
        ) {
            Err(e) => Err(e),
            Ok(RelFound::NoEnds) => {
                assert(self.row < self.rows.len());
                self.row = self.row + 1;
                self.phase = Phase::Find;
                Ok(change::no_changes())
            },
            Ok(RelFound::Missing(change)) => {
                let (src, dst) = match &change {
                    Change::AddEdge { src, dst, .. } => (*src, *dst),
                    _ => (NodeId(0), NodeId(0)),
                };
                let owners = one_owner(Owner::Edge { src, dst, label, seq: None });
                self.phase = act_on(owners, true, false, c.on_create.len());
                Ok(change::one_change(change))
            },
            Ok(RelFound::Edges(hits)) => {
                let owners = owners_of_hits(&hits, label.as_str());
                self.phase = act_on(owners, false, false, c.on_match.len());
                Ok(change::no_changes())
            },
        }
    }

    /// The next changes to make; nothing once the run is finished. `id` is the id of the node
    /// that was created by the last changes, if one was.
    pub fn step<S: Source>(&mut self, db: &S, c: &Clause, id: NodeId) -> (r: Result<
        Option<Vec<Change>>,
        GraphError,
    >)
        requires
            old(self)@.fits(*c),
            runs(*c),
        ensures
            r is Ok ==> final(self)@.fits(*c),
            old(self)@.finished() ==> r == Ok::<Option<Vec<Change>>, GraphError>(None)
                && final(self)@ == old(self)@,
            source::steady(*db) && !old(self)@.finished() ==> (match old(self)@.stepped(
                *c,
                id,
                source::model(*db),
            ) {
                Ok(s) => {
                    &&& r matches Ok(Some(changes))
                    &&& change::changes_view(changes@) == s.changes
                    &&& final(self)@ == s.run
                },
                Err(e) => r matches Err(f) && f@ == e,
            }),
    {
        if self.row >= self.rows.len() {
            return Ok(None);
        }
        let mut phase = Phase::Find;
        std::mem::swap(&mut phase, &mut self.phase);
        let out = match phase {
            Phase::Find => match merge_rel::merge_shape(c.pattern, !c.alone) {
                Ok(Shape::Node(p)) => self.find_node(db, c, p),
                Ok(Shape::Relationship { src, rel, dst }) => self.find_rel(db, c, src, rel, dst),
                Err(e) => Err(e),
            },
            Phase::Await => {
                self.phase = act_on(one_owner(Owner::Node(id)), true, true, c.on_create.len());
                Ok(change::no_changes())
            },
            Phase::Act { owners, fresh, todo, at } => {
                if at >= todo.len() {
                    self.row = self.row + 1;
                    Ok(change::no_changes())
                } else {
                    let outcome = match todo[at] {
                        Todo::Item { owner, item } => {
                            let items = if fresh {
                                c.on_create
                            } else {
                                c.on_match
                            };
                            plan_set(db, &items[item], &owners[owner], &self.rows[self.row])
                        },
                        Todo::Bind { owner } => match make_row(
                            db,
                            c.pattern,
                            !c.alone,
                            &owners[owner],
                            &self.rows[self.row],
                        ) {
                            Ok(rec) => {
                                let ghost before = record::rows(self.done@);
                                self.done.push(rec);
                                assert(record::rows(self.done@) =~= before.push(rec@));
                                Ok(change::no_changes())
                            },
                            Err(e) => Err(e),
                        },
                    };
                    self.phase = Phase::Act { owners, fresh, todo, at: at + 1 };
                    outcome
                }
            },
        };
        match out {
            Ok(changes) => Ok(Some(changes)),
            Err(e) => Err(e),
        }
    }
}

/// A step comes to what is said of it.
pub open spec fn step_told(
    r: Result<Vec<Change>, GraphError>,
    run: MergeRunView,
    s: Result<StepView, ErrorView>,
) -> bool {
    match s {
        Ok(s) => {
            &&& r matches Ok(changes)
            &&& change::changes_view(changes@) == s.changes
            &&& run == s.run
        },
        Err(e) => r matches Err(f) && f@ == e,
    }
}

} // verus!
