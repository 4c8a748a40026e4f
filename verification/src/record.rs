//! Records: rows of a result, by name and by slot.
use crate::assoc;
use crate::assoc::AssocList;
use crate::ast_model;
use crate::order;
use crate::text;
use crate::value;
use crate::value::{Value, ValueView};
use vstd::prelude::*;

verus! {

/// What a row says: its fields and their values, in order.
pub type Row = Seq<(Seq<char>, ValueView)>;

/// A row of a result: a value for each field name.
#[derive(Debug, PartialEq)]
pub struct NamedRecord {
    pub fields: AssocList<Value>,
}

impl View for NamedRecord {
    type V = Row;

    open spec fn view(&self) -> Row {
        value::props_view(self.fields.entries@)
    }
}

/// What an optional value says.
pub open spec fn seen(o: Option<&Value>) -> Option<ValueView> {
    match o {
        Some(v) => Some(v@),
        None => None,
    }
}

/// What a list of rows says.
pub open spec fn rows(s: Seq<NamedRecord>) -> Seq<Row> {
    Seq::new(s.len(), |i: int| s[i]@)
}

/// A row with all of the entries bound, one after the other.
pub open spec fn put_all(base: Row, s: Row) -> Row
    decreases s.len(),
{
    if s.len() == 0 {
        base
    } else {
        assoc::put(put_all(base, s.drop_last()), s.last().0, s.last().1)
    }
}

/// A row with those entries bound whose keys are free.
pub open spec fn filled(base: Row, s: Row) -> Row
    decreases s.len(),
{
    if s.len() == 0 {
        base
    } else {
        let so_far = filled(base, s.drop_last());
        if assoc::lookup(so_far, s.last().0) is Some {
            so_far
        } else {
            assoc::put(so_far, s.last().0, s.last().1)
        }
    }
}

/// The entries as fields of a variable.
pub open spec fn fields_of(var: Seq<char>, s: Row) -> Row {
    Seq::new(s.len(), |i: int| (text::dotted(var, s[i].0), s[i].1))
}

/// The entries whose keys begin with `from`, with `to` in its place.
pub open spec fn carried(s: Row, from: Seq<char>, to: Seq<char>) -> Row
    decreases s.len(),
{
    if s.len() == 0 {
        Seq::empty()
    } else {
        let so_far = carried(s.drop_last(), from, to);
        match text::after(s.last().0, from) {
            Some(rest) => so_far.push((to + rest, s.last().1)),
            None => so_far,
        }
    }
}

impl NamedRecord {
    /// A row without fields.
    pub fn new() -> (r: NamedRecord)
        ensures
            r@ == Row::empty(),
    {
        let r = NamedRecord { fields: AssocList::new() };
        assert(r@ =~= Row::empty());
        r
    }

    /// A copy that says the same.
    pub fn dup(&self) -> (r: NamedRecord)
        ensures
            r@ == self@,
    {
        NamedRecord { fields: AssocList { entries: value::dup_props(&self.fields.entries) } }
    }

    /// The value of a field.
    pub fn get(&self, key: &str) -> (r: Option<&Value>)
        ensures
            seen(r) == assoc::lookup(self@, key@),
    {
        proof {
            assoc::lemma_same_keys(self.fields.entries@, self@);
        }
        self.fields.get(key)
    }

    /// True when the field is bound.
    pub fn has(&self, key: &str) -> (r: bool)
        ensures
            r == (assoc::lookup(self@, key@) is Some),
    {
        proof {
            assoc::lemma_same_keys(self.fields.entries@, self@);
        }
        self.fields.contains_key(key)
    }

    /// Binds a field.
    pub fn set(&mut self, key: String, value: Value)
        ensures
            final(self)@ == assoc::put(old(self)@, key@, value@),
    {
        proof {
            assoc::lemma_same_keys(self.fields.entries@, self@);
            assoc::lemma_place(assoc::keys(self@), key@);
        }
        let ghost before = self@;
        self.fields.insert(key, value);
        assert(self@ =~= assoc::put(before, key@, value@));
    }

    /// Unbinds a field.
    pub fn remove(&mut self, key: &str)
        ensures
            final(self)@ == assoc::swapped_out(old(self)@, key@),
    {
        proof {
            assoc::lemma_same_keys(self.fields.entries@, self@);
        }
        let ghost before = self@;
        self.fields.swap_remove(key);
        assert(self@ =~= assoc::swapped_out(before, key@));
    }

    /// Binds all of the entries, one after the other.
    pub fn set_all(&mut self, entries: &Vec<(String, Value)>)
        ensures
            final(self)@ == put_all(old(self)@, value::props_view(entries@)),
    {
        let ghost all = value::props_view(entries@);
        let ghost base = self@;
        let mut i: usize = 0;
        assert(all.take(0) =~= Row::empty());
        while i < entries.len()
            invariant
                i <= entries.len(),
                all == value::props_view(entries@),
                self@ == put_all(base, all.take(i as int)),
            decreases entries.len() - i,
        {
            assert(all.take(i + 1).drop_last() =~= all.take(i as int));
            self.set(entries[i].0.clone(), entries[i].1.dup());
            i = i + 1;
        }
        assert(all.take(all.len() as int) =~= all);
    }

    /// Binds those entries whose keys are free.
    pub fn fill(&mut self, entries: &Vec<(String, Value)>)
        ensures
            final(self)@ == filled(old(self)@, value::props_view(entries@)),
    {
        let ghost all = value::props_view(entries@);
        let ghost base = self@;
        let mut i: usize = 0;
        assert(all.take(0) =~= Row::empty());
        while i < entries.len()
            invariant
                i <= entries.len(),
                all == value::props_view(entries@),
                self@ == filled(base, all.take(i as int)),
            decreases entries.len() - i,
        {
            assert(all.take(i + 1).drop_last() =~= all.take(i as int));
            if !self.has(entries[i].0.as_str()) {
                self.set(entries[i].0.clone(), entries[i].1.dup());
            }
            i = i + 1;
        }
        assert(all.take(all.len() as int) =~= all);
    }

    /// Binds the entries as fields of a variable.
    pub fn set_fields(&mut self, var: &str, entries: &Vec<(String, Value)>)
        ensures
            final(self)@ == put_all(old(self)@, fields_of(var@, value::props_view(entries@))),
    {
        let ghost all = fields_of(var@, value::props_view(entries@));
        let ghost base = self@;
        let mut i: usize = 0;
        assert(all.take(0) =~= Row::empty());
        while i < entries.len()
            invariant
                i <= entries.len(),
                all == fields_of(var@, value::props_view(entries@)),
                self@ == put_all(base, all.take(i as int)),
            decreases entries.len() - i,
        {
            assert(all.take(i + 1).drop_last() =~= all.take(i as int));
            self.set(text::field(var, entries[i].0.as_str()), entries[i].1.dup());
            i = i + 1;
        }
        assert(all.take(all.len() as int) =~= all);
    }

    /// Binds the entries whose keys begin with `from`, with `to` in its place. True when there
    /// was such an entry.
    pub fn carry(&mut self, entries: &Vec<(String, Value)>, from: &str, to: &str) -> (r: bool)
        ensures
            final(self)@ == put_all(old(self)@, carried(value::props_view(entries@), from@, to@)),
            r == (carried(value::props_view(entries@), from@, to@).len() > 0),
    {
        let ghost all = value::props_view(entries@);
        let ghost base = self@;
        let mut any = false;
        let mut i: usize = 0;
        assert(all.take(0) =~= Row::empty());
        while i < entries.len()
            invariant
                i <= entries.len(),
                all == value::props_view(entries@),
                self@ == put_all(base, carried(all.take(i as int), from@, to@)),
                any == (carried(all.take(i as int), from@, to@).len() > 0),
            decreases entries.len() - i,
        {
            assert(all.take(i + 1).drop_last() =~= all.take(i as int));
            let ghost so_far = carried(all.take(i as int), from@, to@);
            match text::strip_prefix(entries[i].0.as_str(), from) {
                Some(rest) => {
                    self.set(text::cat(to, rest.as_str()), entries[i].1.dup());
                    any = true;
                    proof {
                        let next = carried(all.take(i + 1), from@, to@);
                        assert(next.drop_last() =~= so_far);
                    }
                },
                None => {},
            }
            i = i + 1;
        }
        assert(all.take(all.len() as int) =~= all);
        any
    }
}

/// A copy of the rows that says the same.
pub fn dup_rows(v: &Vec<NamedRecord>) -> (r: Vec<NamedRecord>)
    ensures
        rows(r@) == rows(v@),
{
    let mut out: Vec<NamedRecord> = Vec::new();
    let mut i: usize = 0;
    while i < v.len()
        invariant
            i <= v.len(),
            rows(out@) == rows(v@).take(i as int),
        decreases v.len() - i,
    {
        let ghost before = rows(out@);
        out.push(v[i].dup());
        assert(rows(out@) =~= before.push(v@[i as int]@));
        assert(rows(v@).take(i + 1) =~= rows(v@).take(i as int).push(v@[i as int]@));
        i = i + 1;
    }
    assert(rows(v@).take(v@.len() as int) =~= rows(v@));
    out
}

/// True when the rows bind the same fields to equal values.
pub fn same_row(a: &NamedRecord, b: &NamedRecord) -> (r: bool)
    ensures
        r == order::same_entries(a@, b@),
{
    order::equal_entries(&a.fields.entries, &b.fields.entries)
}

/// The place of a value in a slot record.
#[derive(Clone, Copy, Debug, PartialEq, Eq, Structural)]
pub struct SlotId(pub usize);

/// The field names of slot records: the name of each slot. No name occurs twice.
#[derive(Debug, PartialEq)]
pub struct RecordSchema {
    names: Vec<String>,
}

impl View for RecordSchema {
    type V = Seq<Seq<char>>;

    closed spec fn view(&self) -> Seq<Seq<char>> {
        ast_model::texts(self.names@)
    }
}

impl RecordSchema {
    #[verifier::type_invariant]
    spec fn distinct_names(self) -> bool {
        assoc::distinct(self@)
    }

    /// A schema without slots.
    pub fn new() -> (r: RecordSchema)
        ensures
            r@ == Seq::<Seq<char>>::empty(),
    {
        let names: Vec<String> = Vec::new();
        assert(ast_model::texts(names@) =~= Seq::<Seq<char>>::empty());
        RecordSchema { names }
    }

    /// A copy that says the same.
    pub fn dup(&self) -> (r: RecordSchema)
        ensures
            r@ == self@,
    {
        proof {
            use_type_invariant(self);
        }
        let names = crate::ast_copy::dup_texts(&self.names);
        RecordSchema { names }
    }

    /// How many slots there are.
    pub fn len(&self) -> (r: usize)
        ensures
            r == self@.len(),
    {
        self.names.len()
    }

    /// The name of a slot.
    pub fn name(&self, i: usize) -> (r: &String)
        requires
            i < self@.len(),
        ensures
            r@ == self@[i as int],
    {
        &self.names[i]
    }

    /// The slot of a name.
    pub fn slot(&self, name: &str) -> (r: Option<SlotId>)
        ensures
            match r {
                Some(s) => s.0 == assoc::place(self@, name@) && s.0 < self@.len(),
                None => assoc::place(self@, name@) == self@.len(),
            },
    {
        let ghost ks = self@;
        let mut i: usize = 0;
        while i < self.names.len()
            invariant
                i <= self.names.len(),
                ks == self@,
                forall|j: int| 0 <= j < i ==> #[trigger] ks[j] != name@,
            decreases self.names.len() - i,
        {
            if text::same_str(self.names[i].as_str(), name) {
                proof {
                    assoc::lemma_place_is(ks, name@, i as int);
                }
                return Some(SlotId(i));
            }
            i = i + 1;
        }
        proof {
            assoc::lemma_place_is(ks, name@, i as int);
        }
        None
    }

    /// The slot of a name, which is added where it is new.
    pub fn add_slot(&mut self, name: &str) -> (r: SlotId)
        ensures
            r.0 == assoc::place(old(self)@, name@),
            final(self)@ == (if assoc::place(old(self)@, name@) < old(self)@.len() {
                old(self)@
            } else {
                old(self)@.push(name@)
            }),
    {
        match self.slot(name) {
            Some(s) => s,
            None => {
                let at = self.names.len();
                let ghost before = self@;
                proof {
                    use_type_invariant(&*self);
                    assoc::lemma_place(before, name@);
                }
                let mut names: Vec<String> = Vec::new();
                std::mem::swap(&mut names, &mut self.names);
                names.push(name.to_owned());
                assert(ast_model::texts(names@) =~= before.push(name@));
                self.names = names;
                SlotId(at)
            },
        }
    }
}

/// A row by slots.
#[derive(Debug, PartialEq)]
pub struct SlotRecord {
    pub slots: Vec<Value>,
}

impl View for SlotRecord {
    type V = Seq<ValueView>;

    open spec fn view(&self) -> Seq<ValueView> {
        value::values_view(self.slots@)
    }
}

/// The value in a slot; a slot beyond the end holds nothing.
pub open spec fn slot_at(s: Seq<ValueView>, i: int) -> ValueView {
    if 0 <= i < s.len() {
        s[i]
    } else {
        ValueView::Null
    }
}

/// The slots, with as many empty ones behind them as make `n`.
pub open spec fn padded(s: Seq<ValueView>, n: int) -> Seq<ValueView> {
    Seq::new(
        if n > s.len() { n as nat } else { s.len() },
        |i: int| slot_at(s, i),
    )
}

/// The slots with one of them set.
pub open spec fn slot_put(s: Seq<ValueView>, i: int, v: ValueView) -> Seq<ValueView> {
    padded(s, i + 1).update(i, v)
}

/// `n` empty slots.
pub open spec fn blank(n: int) -> Seq<ValueView> {
    padded(Seq::empty(), n)
}

impl SlotRecord {
    /// A row without slots.
    pub fn new() -> (r: SlotRecord)
        ensures
            r@ == Seq::<ValueView>::empty(),
    {
        let r = SlotRecord { slots: Vec::new() };
        assert(r@ =~= Seq::<ValueView>::empty());
        r
    }

    /// A row of `n` empty slots.
    pub fn with_capacity(n: usize) -> (r: SlotRecord)
        ensures
            r@ == blank(n as int),
    {
        let mut r = SlotRecord::new();
        r.grow(n);
        r
    }

    /// A copy that says the same.
    pub fn dup(&self) -> (r: SlotRecord)
        ensures
            r@ == self@,
    {
        SlotRecord { slots: value::dup_values(&self.slots) }
    }

    /// How many slots there are.
    pub fn len(&self) -> (r: usize)
        ensures
            r == self@.len(),
    {
        self.slots.len()
    }

    /// Adds empty slots until there are `n`.
    fn grow(&mut self, n: usize)
        ensures
            final(self)@ == padded(old(self)@, n as int),
    {
        let ghost before = self@;
        while self.slots.len() < n
            invariant
                before.len() <= self@.len(),
                self@.len() <= n || self@ == before,
                self@ == padded(before, self@.len() as int),
            decreases n - self.slots.len(),
        {
            let ghost now = self@;
            self.slots.push(Value::Null);
            assert(self@ =~= now.push(ValueView::Null));
            assert(self@ =~= padded(before, self@.len() as int));
        }
        assert(self@ =~= padded(before, n as int));
    }

    /// The value in a slot.
    pub fn get(&self, slot: SlotId) -> (r: Value)
        ensures
            r@ == slot_at(self@, slot.0 as int),
    {
        if slot.0 < self.slots.len() {
            self.slots[slot.0].dup()
        } else {
            Value::Null
        }
    }

    /// Sets a slot.
    pub fn set(&mut self, slot: SlotId, value: Value)
        requires
            slot.0 < usize::MAX,
        ensures
            final(self)@ == slot_put(old(self)@, slot.0 as int, value@),
    {
        let ghost before = self@;
        self.grow(slot.0 + 1);
        let ghost grown = self@;
        assert(grown.len() == self.slots@.len());
        self.slots.set(slot.0, value);
        assert(self@ =~= grown.update(slot.0 as int, value@));
    }
}

/// What a list of slot records says.
pub open spec fn slot_rows(s: Seq<SlotRecord>) -> Seq<Seq<ValueView>> {
    Seq::new(s.len(), |i: int| s[i]@)
}

/// The slots by their names.
pub open spec fn named(names: Seq<Seq<char>>, s: Seq<ValueView>) -> Row {
    Seq::new(names.len(), |i: int| (names[i], slot_at(s, i)))
}

/// The values of the named fields; a field that is not bound gives an empty slot.
pub open spec fn slotted(names: Seq<Seq<char>>, row: Row) -> Seq<ValueView> {
    Seq::new(
        names.len(),
        |i: int|
            match assoc::lookup(row, names[i]) {
                Some(v) => v,
                None => ValueView::Null,
            },
    )
}

/// A new key goes to the end.
proof fn lemma_put_new(s: Row, k: Seq<char>, v: ValueView)
    requires
        forall|j: int| 0 <= j < s.len() ==> (#[trigger] s[j]).0 != k,
    ensures
        assoc::put(s, k, v) == s.push((k, v)),
{
    assert forall|j: int| 0 <= j < s.len() implies #[trigger] assoc::keys(s)[j] != k by {
        assert(s[j].0 != k);
    }
    assoc::lemma_place_is(assoc::keys(s), k, s.len() as int);
}

/// The row that a slot record stands for.
pub fn materialize_named(schema: &RecordSchema, rec: &SlotRecord) -> (r: NamedRecord)
    ensures
        r@ == named(schema@, rec@),
{
    let mut nr = NamedRecord::new();
    let mut i: usize = 0;
    proof {
        use_type_invariant(schema);
    }
    assert(named(schema@, rec@).take(0) =~= Row::empty());
    while i < schema.len()
        invariant
            assoc::distinct(schema@),
            i <= schema@.len(),
            nr@ == named(schema@, rec@).take(i as int),
        decreases schema@.len() - i,
    {
        let v = rec.get(SlotId(i));
        proof {
            let whole = named(schema@, rec@);
            assert forall|j: int| 0 <= j < nr@.len() implies (#[trigger] nr@[j]).0
                != schema@[i as int] by {
                assert(nr@[j] == whole[j]);
                assert(schema@[j] != schema@[i as int]);
            }
            lemma_put_new(nr@, schema@[i as int], v@);
            assert(whole.take(i + 1) =~= whole.take(i as int).push(whole[i as int]));
        }
        nr.set(schema.name(i).clone(), v);
        i = i + 1;
    }
    assert(named(schema@, rec@).take(schema@.len() as int) =~= named(schema@, rec@));
    nr
}

/// The slots that a row fills.
pub fn named_to_slot(schema: &RecordSchema, named: &NamedRecord) -> (r: SlotRecord)
    ensures
        r@ == slotted(schema@, named@),
{
    let mut slots: Vec<Value> = Vec::new();
    let mut i: usize = 0;
    while i < schema.len()
        invariant
            i <= schema@.len(),
            value::values_view(slots@) == slotted(schema@, named@).take(i as int),
        decreases schema@.len() - i,
    {
        let v = match named.get(schema.name(i).as_str()) {
            Some(v) => v.dup(),
            None => Value::Null,
        };
        let ghost before = value::values_view(slots@);
        slots.push(v);
        proof {
            let whole = slotted(schema@, named@);
            assert(value::values_view(slots@) =~= before.push(v@));
            assert(whole.take(i + 1) =~= whole.take(i as int).push(whole[i as int]));
        }
        i = i + 1;
    }
    assert(slotted(schema@, named@).take(schema@.len() as int) =~= slotted(schema@, named@));
    SlotRecord { slots }
}

/// Slots filled from a row and read back by name give the values of the row.
pub proof fn slots_keep_values(names: Seq<Seq<char>>, row: Row, i: int)
    requires
        assoc::distinct(names),
        0 <= i < names.len(),
    ensures
        assoc::lookup(named(names, slotted(names, row)), names[i]) == Some(
            match assoc::lookup(row, names[i]) {
                Some(v) => v,
                None => ValueView::Null,
            },
        ),
{
    let back = named(names, slotted(names, row));
    assert(assoc::keys(back) =~= names);
    assoc::lemma_place_is(names, names[i], i);
}

} // verus!
