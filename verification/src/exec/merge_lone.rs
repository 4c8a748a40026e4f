//! MERGE of a relationship on its own: its ends are found or created first, then the
//! relationship.
use crate::assoc;
use crate::ast::{NodePattern, RelPattern, SetItem};
use crate::exec::change;
use crate::exec::change::{Change, ChangeView};
use crate::exec::merge;
use crate::exec::merge::{Found, FoundView};
use crate::exec::merge_rel;
use crate::exec::merge_set;
use crate::record::{NamedRecord, Row};
use crate::source;
use crate::source::{Model, Source};
use crate::types::{ErrorView, GraphError, NodeId};
use vstd::prelude::*;

verus! {

/// A MERGE clause with a relationship.
pub struct LoneClause<'a> {
    pub src: &'a NodePattern,
    pub rel: &'a RelPattern,
    pub dst: &'a NodePattern,
    pub path_variable: &'a Option<String>,
    pub on_create: &'a Vec<SetItem>,
    pub on_match: &'a Vec<SetItem>,
}

impl<'a> LoneClause<'a> {
    /// The items that are set.
    pub open spec fn items(&self, fresh: bool) -> Seq<SetItem> {
        if fresh {
            self.on_create@
        } else {
            self.on_match@
        }
    }
}

/// A MERGE of a relationship on its way.
#[derive(Debug, PartialEq)]
pub struct LoneRun {
    pub src: Option<NodeId>,
    pub dst: Option<NodeId>,
    /// A node is being created.
    pub awaiting: bool,
    /// Whether the relationship was created, once that is known.
    pub fresh: Option<bool>,
    /// The item that comes next.
    pub item: usize,
    /// The row, once it is done.
    pub done: Option<NamedRecord>,
}

/// What a [`LoneRun`] says.
pub struct LoneRunView {
    pub src: Option<NodeId>,
    pub dst: Option<NodeId>,
    pub awaiting: bool,
    pub fresh: Option<bool>,
    pub item: int,
    pub done: Option<Row>,
}

impl View for LoneRun {
    type V = LoneRunView;

    open spec fn view(&self) -> LoneRunView {
        LoneRunView {
            src: self.src,
            dst: self.dst,
            awaiting: self.awaiting,
            fresh: self.fresh,
            item: self.item as int,
            done: match self.done {
                Some(rec) => Some(rec@),
                None => None,
            },
        }
    }
}

/// The changes to make, and the run after them.
pub struct LoneStepView {
    pub changes: Seq<ChangeView>,
    pub run: LoneRunView,
}

/// The row of a relationship that was merged on its own: its ends, and the path where the
/// pattern has a variable for it.
pub open spec fn lone_row(c: LoneClause, src: NodeId, dst: NodeId, m: Model) -> Result<
    Row,
    ErrorView,
> {
    let ends = merge_rel::ends_row(*c.src, *c.dst, src, dst);
    match *c.path_variable {
        None => Ok(ends),
        Some(p) => match merge_rel::edge_path(src, dst, merge_rel::rel_type(*c.rel), None, m) {
            Ok(v) => Ok(assoc::put(ends, p@, v)),
            Err(e) => Err(e),
        },
    }
}

impl LoneRunView {
    /// The id of an end is known.
    pub open spec fn with_end(self, id: NodeId) -> LoneRunView {
        if self.src is None {
            LoneRunView { src: Some(id), awaiting: false, ..self }
        } else {
            LoneRunView { dst: Some(id), awaiting: false, ..self }
        }
    }

    /// An end is looked for.
    pub open spec fn end_found(self, p: NodePattern, m: Model) -> Result<LoneStepView, ErrorView> {
        match merge::end_merged(p, m) {
            Err(e) => Err(e),
            Ok(FoundView::Missing(change)) => Ok(
                LoneStepView {
                    changes: seq![change],
                    run: LoneRunView { awaiting: true, ..self },
                },
            ),
            Ok(FoundView::Nodes(ids)) => Ok(
                LoneStepView { changes: Seq::empty(), run: self.with_end(ids[0]) },
            ),
        }
    }

    /// The next changes, and the run after them; `id` is the id of a node that was created.
    pub open spec fn stepped(self, c: LoneClause, id: NodeId, m: Model) -> Result<
        LoneStepView,
        ErrorView,
    > {
        if self.awaiting {
            Ok(LoneStepView { changes: Seq::empty(), run: self.with_end(id) })
        } else {
            match (self.src, self.dst) {
                (None, _) => self.end_found(*c.src, m),
                (_, None) => self.end_found(*c.dst, m),
                (Some(src), Some(dst)) => match self.fresh {
                    None => match merge_rel::edge_merged(*c.rel, src, dst, m) {
                        Err(e) => Err(e),
                        Ok(Some(change)) => Ok(
                            LoneStepView {
                                changes: seq![change],
                                run: LoneRunView { fresh: Some(true), ..self },
                            },
                        ),
                        Ok(None) => Ok(
                            LoneStepView {
                                changes: Seq::empty(),
                                run: LoneRunView { fresh: Some(false), ..self },
                            },
                        ),
                    },
                    Some(fresh) => if self.item < c.items(fresh).len() {
                        match merge_set::edge_set(
                            c.items(fresh)[self.item],
                            src,
                            dst,
                            merge_rel::rel_type(*c.rel),
                            None,
                            merge_rel::ends_row(*c.src, *c.dst, src, dst),
                            m,
                        ) {
                            Err(e) => Err(e),
                            Ok(changes) => Ok(
                                LoneStepView {
                                    changes,
                                    run: LoneRunView { item: self.item + 1, ..self },
                                },
                            ),
                        }
                    } else {
                        match lone_row(c, src, dst, m) {
                            Err(e) => Err(e),
                            Ok(row) => Ok(
                                LoneStepView {
                                    changes: Seq::empty(),
                                    run: LoneRunView { done: Some(row), ..self },
                                },
                            ),
                        }
                    },
                },
            }
        }
    }
}

/// A step comes to what is said of it.
pub open spec fn step_told(
    r: Result<Vec<Change>, GraphError>,
    run: LoneRunView,
    s: Result<LoneStepView, ErrorView>,
) -> bool {
    match s {
        Ok(s) => {
            &&& r matches Ok(changes)
            &&& change::changes_view(changes@) == s.changes
            &&& run == s.run
        },
        Err(e) => r matches Err(f) && f@ == e,
    }
}

impl LoneRun {
    /// The run has not begun.
    pub fn new() -> (r: LoneRun)
        ensures
            r@ == (LoneRunView {
                src: None,
                dst: None,
                awaiting: false,
                fresh: None,
                item: 0,
                done: None,
            }),
    {
        LoneRun { src: None, dst: None, awaiting: false, fresh: None, item: 0, done: None }
    }

    /// The id of an end is known.
    fn set_end(&mut self, id: NodeId)
        ensures
            final(self)@ == old(self)@.with_end(id),
    {
        if self.src.is_none() {
            self.src = Some(id);
        } else {
            self.dst = Some(id);
        }
        self.awaiting = false;
    }

    /// Looks for an end.
    fn find_end<S: Source>(&mut self, db: &S, p: &NodePattern) -> (r: Result<
        Vec<Change>,
        GraphError,
    >)
        ensures
            source::steady(*db) ==> step_told(
                r,
                final(self)@,
                old(self)@.end_found(*p, source::model(*db)),
            ),
            final(self)@.done == old(self)@.done,
    {
        match merge::find_or_create_merge_node(db, p) {
            Err(e) => Err(e),
            Ok(Found::Missing(change)) => {
                self.awaiting = true;
                Ok(change::one_change(change))
            },
            Ok(Found::Nodes(ids)) => {
                if ids.len() > 0 {
                    self.set_end(ids[0]);
                }
                Ok(change::no_changes())
            },
        }
    }

    /// The next changes to make. `id` is the id of the node that was created by the last
    /// changes, if one was. The run is finished once its row is there.
    pub fn step<S: Source>(&mut self, db: &S, c: &LoneClause, id: NodeId) -> (r: Result<
        Vec<Change>,
        GraphError,
    >)
        requires
            old(self)@.done is None,
        ensures
            source::steady(*db) ==> step_told(
                r,
                final(self)@,
                old(self)@.stepped(*c, id, source::model(*db)),
            ),
    {
        if self.awaiting {
            self.set_end(id);
            return Ok(change::no_changes());
        }
        let src = match self.src {
            Some(id) => id,
            None => {
                return self.find_end(db, c.src);
            },
        };
        let dst = match self.dst {
            Some(id) => id,
            None => {
                return self.find_end(db, c.dst);
            },
        };
        match self.fresh {
            None => match merge_rel::plan_edge_merge(db, c.rel, src, dst) {
                Err(e) => Err(e),
                Ok(Some(change)) => {
                    self.fresh = Some(true);
                    Ok(change::one_change(change))
                },
                Ok(None) => {
                    self.fresh = Some(false);
                    Ok(change::no_changes())
                },
            },
            Some(fresh) => {
                let items = if fresh {
                    c.on_create
                } else {
                    c.on_match
                };
                let ends = merge_rel::bind_ends(c.src, c.dst, src, dst);
                if self.item < items.len() {
                    match merge_set::apply_merge_set_item_edge(
                        db,
                        &items[self.item],
                        src,
                        dst,
                        merge_rel::merged_type(c.rel).as_str(),
                        None,
                        &ends,
                    ) {
                        Err(e) => Err(e),
                        Ok(changes) => {
                            self.item = self.item + 1;
                            Ok(changes)
                        },
                    }
                } else {
                    match c.path_variable {
                        None => {
                            self.done = Some(ends);
                            Ok(change::no_changes())
                        },
                        Some(p) => match merge_rel::find_edge_path(
                            db,
                            src,
                            dst,
                            merge_rel::merged_type(c.rel).as_str(),
                            None,
                        ) {
                            Ok(v) => {
                                let mut row = ends;
                                row.set(p.clone(), v);
                                self.done = Some(row);
                                Ok(change::no_changes())
                            },
                            Err(e) => Err(e),
                        },
                    }
                }
            },
        }
    }
}

} // verus!
