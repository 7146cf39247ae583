//! The insert builder: collects a record's values column by column and
//! refuses to finish until every mandatory column has one.

use vstd::prelude::*;

use crate::column::{ColumnDescriptor, SqlType};
use crate::connection::{reported, Issued};
use crate::database::Database;
use crate::error::Error;
use crate::model::{has_column_named, ModelDescriptor};
use crate::schema::SchemaHas;
use crate::text::{decimal, join, joined, push_decimal, texts};
use crate::value::Value;

verus! {

/// The pending values after `value` is supplied for the column named `name`:
/// that column's slot holds it, every other slot is unchanged.
pub open spec fn supplied(
    cols: Seq<ColumnDescriptor>,
    pending: Seq<Option<Value>>,
    name: Seq<char>,
    value: Value,
) -> Seq<Option<Value>> {
    Seq::new(
        pending.len(),
        |j: int|
            if cols[j].name@ == name {
                Some(value)
            } else {
                pending[j]
            },
    )
}

/// A value suits a column: `NULL` only if the column is nullable, otherwise
/// a value of the column's storage type.
pub open spec fn fits(c: ColumnDescriptor, v: Value) -> bool {
    match v {
        Value::Null => c.nullable,
        Value::Integer(_) => c.sql_type == SqlType::Integer,
        Value::Text(_) => c.sql_type == SqlType::Text,
    }
}

/// Every column named `name` accepts `value`.
pub open spec fn accepts(cols: Seq<ColumnDescriptor>, name: Seq<char>, value: Value) -> bool {
    forall|j: int| 0 <= j < cols.len() && cols[j].name@ == name ==> fits(cols[j], value)
}

fn fits_exec(c: &ColumnDescriptor, v: &Value) -> (r: bool)
    ensures
        r == fits(*c, *v),
{
    match v {
        Value::Null => c.nullable,
        Value::Integer(_) => c.sql_type == SqlType::Integer,
        Value::Text(_) => c.sql_type == SqlType::Text,
    }
}

/// Every mandatory column has a value.
pub open spec fn complete(cols: Seq<ColumnDescriptor>, pending: Seq<Option<Value>>) -> bool {
    forall|j: int| 0 <= j < cols.len() && (#[trigger] cols[j]).mandatory() ==> pending[j] is Some
}

/// The names of the columns that have a value, in declaration order.
pub open spec fn supplied_columns(
    cols: Seq<ColumnDescriptor>,
    pending: Seq<Option<Value>>,
) -> Seq<Seq<char>>
    decreases pending.len(),
{
    if pending.len() == 0 {
        Seq::empty()
    } else {
        let prev = supplied_columns(cols, pending.drop_last());
        if pending.last() is Some {
            prev.push(cols[pending.len() - 1].name@)
        } else {
            prev
        }
    }
}

/// The values that are present, in declaration order of their columns.
pub open spec fn supplied_values(pending: Seq<Option<Value>>) -> Seq<Value>
    decreases pending.len(),
{
    if pending.len() == 0 {
        Seq::empty()
    } else {
        let prev = supplied_values(pending.drop_last());
        match pending.last() {
            Some(v) => prev.push(v),
            None => prev,
        }
    }
}

/// The placeholders `?1, ?2, ..., ?n`.
pub open spec fn placeholders(n: nat) -> Seq<Seq<char>> {
    Seq::new(n, |i: int| "?"@ + decimal((i + 1) as nat))
}

/// `INSERT INTO <table> (<c1>,<c2>,...) VALUES (?1, ?2, ...)`.
pub open spec fn insert_sql(table: Seq<char>, cols: Seq<Seq<char>>) -> Seq<char> {
    "INSERT INTO "@ + table + " ("@ + joined(cols, ","@) + ") VALUES ("@ + joined(
        placeholders(cols.len()),
        ", "@,
    ) + ")"@
}

/// The pending values after each `(column name, value)` of `sets` is supplied
/// in turn to a record that started with no value.
pub open spec fn after_sets(cols: Seq<ColumnDescriptor>, sets: Seq<(Seq<char>, Value)>) -> Seq<
    Option<Value>,
>
    decreases sets.len(),
{
    if sets.len() == 0 {
        Seq::new(cols.len(), |j: int| None::<Value>)
    } else {
        supplied(cols, after_sets(cols, sets.drop_last()), sets.last().0, sets.last().1)
    }
}

/// Some call of `sets` names the column `name`.
pub open spec fn named(sets: Seq<(Seq<char>, Value)>, name: Seq<char>) -> bool {
    exists|k: int| 0 <= k < sets.len() && sets[k].0 == name
}

/// After a series of setter calls, a column holds a value exactly when some
/// call named it.
pub proof fn lemma_slots_after_sets(cols: Seq<ColumnDescriptor>, sets: Seq<(Seq<char>, Value)>)
    ensures
        after_sets(cols, sets).len() == cols.len(),
        forall|j: int|
            0 <= j < cols.len() ==> ((#[trigger] after_sets(cols, sets)[j]) is Some <==> named(
                sets,
                cols[j].name@,
            )),
    decreases sets.len(),
{
    if sets.len() > 0 {
        let prev = sets.drop_last();
        lemma_slots_after_sets(cols, prev);
        assert forall|j: int| 0 <= j < cols.len() implies ((#[trigger] after_sets(
            cols,
            sets,
        )[j]) is Some <==> named(sets, cols[j].name@)) by {
            if named(prev, cols[j].name@) {
                let k = choose|k: int| 0 <= k < prev.len() && prev[k].0 == cols[j].name@;
                assert(sets[k] == prev[k]);
            }
            if named(sets, cols[j].name@) && sets.last().0 != cols[j].name@ {
                let k = choose|k: int| 0 <= k < sets.len() && sets[k].0 == cols[j].name@;
                assert(k != sets.len() - 1);
                assert(prev[k] == sets[k]);
            }
            if sets.last().0 == cols[j].name@ {
                assert(sets[sets.len() - 1].0 == cols[j].name@);
            }
        }
    }
}

/// A record can be finished exactly when every mandatory column was named by
/// at least one setter call: until then finishing is refused, and once it
/// holds, the order of the calls, repeated calls and calls for optional
/// columns make no difference.
pub proof fn lemma_complete_iff_mandatory_named(
    cols: Seq<ColumnDescriptor>,
    sets: Seq<(Seq<char>, Value)>,
)
    ensures
        complete(cols, after_sets(cols, sets)) <==> forall|j: int|
            0 <= j < cols.len() && (#[trigger] cols[j]).mandatory() ==> named(sets, cols[j].name@),
{
    lemma_slots_after_sets(cols, sets);
    let p = after_sets(cols, sets);
    if complete(cols, p) {
        assert forall|j: int| 0 <= j < cols.len() && (#[trigger] cols[j]).mandatory() implies named(
            sets,
            cols[j].name@,
        ) by {
            assert(p[j] is Some);
        }
    }
    if forall|j: int|
        0 <= j < cols.len() && (#[trigger] cols[j]).mandatory() ==> named(sets, cols[j].name@) {
        assert forall|j: int| 0 <= j < cols.len() && (#[trigger] cols[j]).mandatory() implies p[j] is Some by {
            assert(named(sets, cols[j].name@));
        }
    }
}

/// Two series of setter calls that name the same columns, in whatever order
/// and however often, leave a record equally finishable.
pub proof fn lemma_order_irrelevant(
    cols: Seq<ColumnDescriptor>,
    first: Seq<(Seq<char>, Value)>,
    second: Seq<(Seq<char>, Value)>,
)
    requires
        forall|name: Seq<char>| named(first, name) <==> named(second, name),
    ensures
        complete(cols, after_sets(cols, first)) == complete(cols, after_sets(cols, second)),
{
    lemma_complete_iff_mandatory_named(cols, first);
    lemma_complete_iff_mandatory_named(cols, second);
    assert forall|j: int| 0 <= j < cols.len() implies named(first, (#[trigger] cols[j]).name@)
        == named(second, cols[j].name@) by {}
}

/// No two calls of `sets` name the same column.
pub open spec fn distinct_calls(sets: Seq<(Seq<char>, Value)>) -> bool {
    forall|a: int, b: int| 0 <= a < b < sets.len() ==> sets[a].0 != sets[b].0
}

/// When no two calls name the same column, the column a call names holds
/// exactly that call's value.
pub proof fn lemma_slot_of_call(
    cols: Seq<ColumnDescriptor>,
    sets: Seq<(Seq<char>, Value)>,
    j: int,
    k: int,
)
    requires
        distinct_calls(sets),
        0 <= j < cols.len(),
        0 <= k < sets.len(),
        sets[k].0 == cols[j].name@,
    ensures
        after_sets(cols, sets)[j] == Some(sets[k].1),
    decreases sets.len(),
{
    lemma_slots_after_sets(cols, sets);
    let prev = sets.drop_last();
    lemma_slots_after_sets(cols, prev);
    if k < sets.len() - 1 {
        assert(sets.last().0 != cols[j].name@);
        assert(prev[k] == sets[k]);
        lemma_slot_of_call(cols, prev, j, k);
    }
}

/// Two series of setter calls on pairwise distinct columns that make the same
/// calls in different orders leave every column with the same value.
pub proof fn lemma_distinct_calls_commute(
    cols: Seq<ColumnDescriptor>,
    first: Seq<(Seq<char>, Value)>,
    second: Seq<(Seq<char>, Value)>,
)
    requires
        distinct_calls(first),
        distinct_calls(second),
        forall|call: (Seq<char>, Value)| first.contains(call) <==> second.contains(call),
    ensures
        after_sets(cols, first) == after_sets(cols, second),
{
    lemma_slots_after_sets(cols, first);
    lemma_slots_after_sets(cols, second);
    assert forall|j: int| 0 <= j < cols.len() implies after_sets(cols, first)[j] == after_sets(
        cols,
        second,
    )[j] by {
        let name = cols[j].name@;
        if named(first, name) {
            let k = choose|k: int| 0 <= k < first.len() && first[k].0 == name;
            assert(first.contains(first[k]));
            let k2 = choose|k2: int| 0 <= k2 < second.len() && second[k2] == first[k];
            lemma_slot_of_call(cols, first, j, k);
            lemma_slot_of_call(cols, second, j, k2);
        } else if named(second, name) {
            let k = choose|k: int| 0 <= k < second.len() && second[k].0 == name;
            assert(second.contains(second[k]));
            let k1 = choose|k1: int| 0 <= k1 < first.len() && first[k1] == second[k];
            assert(first[k1].0 == name);
        }
    }
    assert(after_sets(cols, first) =~= after_sets(cols, second));
}

/// A record under construction for one model.
pub struct InsertBuilder<'a> {
    model: &'a ModelDescriptor,
    pending: Vec<Option<Value>>,
    calls: Ghost<Seq<(Seq<char>, Value)>>,
}

/// A finished record: the columns that received a value and those values.
pub struct InsertStatement<'a> {
    model: &'a ModelDescriptor,
    columns: Vec<String>,
    values: Vec<Value>,
}

impl<'a> InsertBuilder<'a> {
    /// The model the record belongs to.
    pub closed spec fn model(&self) -> ModelDescriptor {
        *self.model
    }

    /// The value supplied so far for each column, by column position.
    pub closed spec fn pending(&self) -> Seq<Option<Value>> {
        self.pending@
    }

    /// The successful setter calls so far, oldest first: column name and value.
    pub closed spec fn calls(&self) -> Seq<(Seq<char>, Value)> {
        self.calls@
    }

    #[verifier::type_invariant]
    spec fn aligned(&self) -> bool {
        &&& self.pending@.len() == self.model.cols().len()
        &&& self.pending@ == after_sets(self.model.cols(), self.calls@)
    }

    /// Starts a record for `model` with no value supplied.
    pub fn new(model: &'a ModelDescriptor) -> (r: InsertBuilder<'a>)
        ensures
            r.model() == *model,
            r.calls() == Seq::<(Seq<char>, Value)>::empty(),
            r.pending() == after_sets(r.model().cols(), r.calls()),
            r.pending() == Seq::new(model.cols().len(), |j: int| None::<Value>),
    {
        let n = model.columns().len();
        let mut pending: Vec<Option<Value>> = Vec::new();
        let mut i: usize = 0;
        while i < n
            invariant
                n == model.cols().len(),
                i <= n,
                pending@ =~= Seq::new(i as nat, |j: int| None::<Value>),
            decreases n - i,
        {
            pending.push(None);
            i += 1;
        }
        InsertBuilder { model, pending, calls: Ghost(Seq::empty()) }
    }

    /// Supplies `value` for the column named `column`, replacing any earlier
    /// value for it.
    ///
    /// Fails with `UnknownColumn` when the model has no such column, and with
    /// `TypeMismatch` when the value does not suit it (`NULL` for a column
    /// that is not nullable, or the other storage type).
    pub fn set(self, column: &str, value: Value) -> (r: Result<InsertBuilder<'a>, Error>)
        ensures
            has_column_named(self.model().cols(), column@) && !accepts(
                self.model().cols(),
                column@,
                value,
            ) ==> match r {
                Err(Error::TypeMismatch(s)) => s@ == column@,
                _ => false,
            },
            has_column_named(self.model().cols(), column@) && accepts(
                self.model().cols(),
                column@,
                value,
            ) ==> r is Ok && r->Ok_0.model()
                == self.model() && r->Ok_0.calls() == self.calls().push((column@, value))
                && r->Ok_0.pending() == after_sets(r->Ok_0.model().cols(), r->Ok_0.calls())
                && r->Ok_0.pending() == supplied(
                self.model().cols(),
                self.pending(),
                column@,
                value,
            ),
            !has_column_named(self.model().cols(), column@) ==> match r {
                Err(Error::UnknownColumn(s)) => s@ == column@,
                _ => false,
            },
    {
        proof {
            use_type_invariant(&self);
            use_type_invariant(self.model);
        }
        let model = self.model;
        let mut pending = self.pending;
        let ghost calls = self.calls@;
        let ghost start = pending@;
        let cols = model.columns();
        let mut j: usize = 0;
        while j < cols.len()
            invariant
                start == self.pending(),
                start == after_sets(model.cols(), calls),
                calls == self.calls(),
                pending@ == start,
                *model == self.model(),
                cols@ == model.cols(),
                model.wf(),
                pending@.len() == cols@.len(),
                j <= cols.len(),
                forall|k: int| 0 <= k < j ==> cols@[k].name@ != column@,
            decreases cols.len() - j,
        {
            if same_name(&cols[j].name, column) {
                if !fits_exec(&cols[j], &value) {
                    proof {
                        assert(cols@[j as int].name@ == column@);
                        assert(has_column_named(cols@, column@));
                    }
                    return Err(Error::TypeMismatch(String::from_str(column)));
                }
                proof {
                    assert(accepts(cols@, column@, value)) by {
                        assert forall|k: int|
                            0 <= k < cols@.len() && cols@[k].name@ == column@ implies fits(
                            cols@[k],
                            value,
                        ) by {
                            if k != j {
                                assert(cols@[j as int].name@ == column@);
                            }
                        }
                    }
                }
                let ghost before = pending@;
                pending.set(j, Some(value));
                proof {
                    assert(cols@[j as int].name@ == column@);
                    assert(has_column_named(cols@, column@));
                    assert(pending@ =~= supplied(cols@, before, column@, value));
                    assert(calls.push((column@, value)).drop_last() =~= calls);
                }
                return Ok(InsertBuilder { model, pending, calls: Ghost(calls.push((column@, value))) });
            }
            j += 1;
        }
        Err(Error::UnknownColumn(String::from_str(column)))
    }

    /// Whether every mandatory column has a value.
    pub fn is_complete(&self) -> (r: bool)
        ensures
            r == complete(self.model().cols(), self.pending()),
    {
        proof {
            use_type_invariant(self);
        }
        let cols = self.model.columns();
        let mut j: usize = 0;
        while j < cols.len()
            invariant
                cols@ == self.model().cols(),
                self.pending@.len() == cols@.len(),
                j <= cols.len(),
                forall|k: int|
                    0 <= k < j && (#[trigger] cols@[k]).mandatory() ==> self.pending@[k] is Some,
            decreases cols.len() - j,
        {
            if cols[j].is_mandatory() && self.pending[j].is_none() {
                return false;
            }
            j += 1;
        }
        true
    }

    /// Finishes the record: the columns that have a value, in declaration
    /// order, with their values.
    ///
    /// Fails with `IncompleteRecord` while a mandatory column has no value.
    pub fn build(self) -> (r: Result<InsertStatement<'a>, Error>)
        ensures
            !complete(self.model().cols(), self.pending()) ==> r == Err::<InsertStatement<'a>, Error>(
                Error::IncompleteRecord,
            ),
            complete(self.model().cols(), self.pending()) ==> r is Ok && r->Ok_0.model()
                == self.model() && r->Ok_0.column_names() == supplied_columns(
                self.model().cols(),
                self.pending(),
            ) && r->Ok_0.params() == supplied_values(self.pending()),
    {
        proof {
            use_type_invariant(&self);
        }
        if !self.is_complete() {
            return Err(Error::IncompleteRecord);
        }
        let model = self.model;
        let mut pending = self.pending;
        let ghost orig = pending@;
        let cols = model.columns();
        let n = pending.len();
        let mut columns: Vec<String> = Vec::new();
        let mut values: Vec<Value> = Vec::new();
        let mut i: usize = 0;
        while i < n
            invariant
                cols@ == model.cols(),
                n == orig.len(),
                n == cols@.len(),
                i <= n,
                pending@ == orig.subrange(i as int, n as int),
                texts(columns@) == supplied_columns(cols@, orig.take(i as int)),
                values@ == supplied_values(orig.take(i as int)),
            decreases n - i,
        {
            let slot = pending.remove(0);
            proof {
                assert(slot == orig[i as int]);
                assert(orig.take(i + 1).drop_last() =~= orig.take(i as int));
                assert(orig.take(i + 1).last() == orig[i as int]);
                assert(pending@ =~= orig.subrange(i + 1, n as int));
            }
            match slot {
                Some(v) => {
                    let name = cols[i].name.clone();
                    columns.push(name);
                    values.push(v);
                    proof {
                        assert(texts(columns@) =~= supplied_columns(cols@, orig.take(i as int)).push(
                            cols@[i as int].name@,
                        ));
                    }
                },
                None => {},
            }
            i += 1;
        }
        proof {
            assert(orig.take(n as int) =~= orig);
        }
        Ok(InsertStatement { model, columns, values })
    }

    /// Finishes the record and inserts it into `db`.
    ///
    /// Fails with `IncompleteRecord` while a mandatory column has no value and
    /// with `SchemaMismatch` when `db`'s schema does not admit the model, in
    /// both cases sending nothing. Otherwise sends
    /// `INSERT INTO <table> (<supplied columns>) VALUES (?1, ...)` with the
    /// supplied values and returns the number of rows added. A statement that
    /// fails to prepare gives `StatementError` and is not executed; a failure
    /// to bind or execute it, such as a taken primary key, gives `InsertError`.
    pub fn finish(self, db: &mut Database) -> (r: Result<usize, Error>)
        ensures
            final(db).declared() == old(db).declared(),
            !complete(self.model().cols(), self.pending()) ==> r == Err::<usize, Error>(
                Error::IncompleteRecord,
            ) && final(db).history() == old(db).history(),
            complete(self.model().cols(), self.pending()) && !old(db).declared().admits(
                self.model(),
            ) ==> r == Err::<usize, Error>(Error::SchemaMismatch) && final(db).history() == old(
                db,
            ).history(),
            complete(self.model().cols(), self.pending()) && old(db).declared().admits(
                self.model(),
            ) ==> final(db).history() == old(db).history().push(
                Issued {
                    sql: insert_sql(
                        self.model().table(),
                        supplied_columns(self.model().cols(), self.pending()),
                    ),
                    params: supplied_values(self.pending()),
                    prepared: final(db).history().last().prepared,
                    accepted: r is Ok,
                },
            ) && reported(r, final(db).history().last()),
    {
        match self.build() {
            Err(e) => Err(e),
            Ok(record) => db.insert(&record),
        }
    }
}

fn same_name(a: &String, b: &str) -> (r: bool)
    ensures
        r == (a@ == b@),
{
    crate::text::same_text(a.as_str(), b)
}

impl<'a> InsertStatement<'a> {
    /// The model the record belongs to.
    pub closed spec fn model(&self) -> ModelDescriptor {
        *self.model
    }

    /// The names of the columns that receive a value, in order.
    pub closed spec fn column_names(&self) -> Seq<Seq<char>> {
        texts(self.columns@)
    }

    /// The values, in the order of `column_names`.
    pub closed spec fn params(&self) -> Seq<Value> {
        self.values@
    }

    /// The model the record belongs to.
    pub fn model_descriptor(&self) -> (r: &'a ModelDescriptor)
        ensures
            *r == self.model(),
    {
        self.model
    }

    /// The names of the columns that receive a value, in order.
    pub fn columns(&self) -> (r: &Vec<String>)
        ensures
            texts(r@) == self.column_names(),
    {
        &self.columns
    }

    /// The values, in the order of the columns.
    pub fn values(&self) -> (r: &Vec<Value>)
        ensures
            r@ == self.params(),
    {
        &self.values
    }

    /// Renders `INSERT INTO <table> (<cols>) VALUES (?1, ..., ?n)`.
    pub fn sql(&self) -> (r: String)
        ensures
            r@ == insert_sql(self.model().table(), self.column_names()),
    {
        let n = self.columns.len();
        let mut marks: Vec<String> = Vec::new();
        let mut i: usize = 0;
        while i < n
            invariant
                n == self.columns@.len(),
                i <= n,
                texts(marks@) =~= placeholders(i as nat),
            decreases n - i,
        {
            let mut m = String::from_str("?");
            push_decimal(&mut m, i + 1);
            proof {
                assert(texts(marks@.push(m)) =~= placeholders(i as nat).push(m@));
                assert(placeholders((i + 1) as nat) =~= placeholders(i as nat).push(m@));
            }
            marks.push(m);
            i += 1;
        }
        let mut r = String::from_str("INSERT INTO ");
        r.append(self.model.table_name());
        r.append(" (");
        let names = join(&self.columns, ",");
        r.append(names.as_str());
        r.append(") VALUES (");
        let marked = join(&marks, ", ");
        r.append(marked.as_str());
        r.append(")");
        r
    }
}

} // verus!
