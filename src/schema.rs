//! Schemas: the ordered models of one database, and their table creation.

use vstd::prelude::*;

use crate::column::ColumnDescriptor;
use crate::connection::{Issued, Store};
use crate::error::Error;
use crate::model::{create_sql, ModelDescriptor};
use crate::text::same_text;

verus! {

/// Two columns agree in name, storage type and every flag.
pub open spec fn same_column(a: ColumnDescriptor, b: ColumnDescriptor) -> bool {
    &&& a.name@ == b.name@
    &&& a.sql_type == b.sql_type
    &&& a.nullable == b.nullable
    &&& a.is_primary_key == b.is_primary_key
    &&& a.is_unique == b.is_unique
    &&& a.is_auto_increment == b.is_auto_increment
}

/// Two models describe the same table: same name, same columns in the same order.
pub open spec fn same_model(a: ModelDescriptor, b: ModelDescriptor) -> bool {
    &&& a.table() == b.table()
    &&& a.cols().len() == b.cols().len()
    &&& forall|j: int| 0 <= j < a.cols().len() ==> same_column(a.cols()[j], b.cols()[j])
}

/// No two models share a table name.
pub open spec fn distinct_tables(models: Seq<ModelDescriptor>) -> bool {
    forall|i: int, j: int| 0 <= i < j < models.len() ==> models[i].table() != models[j].table()
}

/// The `CREATE TABLE` statements of a list of models, in order.
pub open spec fn create_statements(models: Seq<ModelDescriptor>) -> Seq<Seq<char>> {
    models.map_values(|m: ModelDescriptor| create_sql(m.table(), m.cols()))
}

/// `issued` is a run of `stmts` that stops at the first refusal: it sends
/// them in order, each without parameters, all accepted but perhaps the last,
/// and `ok` holds exactly when all were sent and accepted.
pub open spec fn stops_at_first_failure(stmts: Seq<Seq<char>>, issued: Seq<Issued>, ok: bool) -> bool {
    &&& issued.len() <= stmts.len()
    &&& forall|i: int|
        0 <= i < issued.len() ==> (#[trigger] issued[i]).sql == stmts[i] && issued[i].params
            == Seq::<crate::value::Value>::empty()
    &&& forall|i: int| 0 <= i < issued.len() - 1 ==> (#[trigger] issued[i]).accepted
    &&& ok <==> (issued.len() == stmts.len() && forall|i: int|
        0 <= i < issued.len() ==> (#[trigger] issued[i]).accepted)
    &&& !ok ==> issued.len() > 0 && !issued.last().accepted
}

/// Every statement that table creation sends begins with
/// `CREATE TABLE IF NOT EXISTS`, and depends on the schema alone: a second
/// run sends the statements of the first, none of which touches a table
/// that already exists.
pub proof fn lemma_create_guarded(models: Seq<ModelDescriptor>)
    ensures
        forall|i: int|
            0 <= i < models.len() ==> (#[trigger] create_statements(models)[i]).subrange(
                0,
                "CREATE TABLE IF NOT EXISTS "@.len() as int,
            ) == "CREATE TABLE IF NOT EXISTS "@,
{
    assert forall|i: int| 0 <= i < models.len() implies (#[trigger] create_statements(
        models,
    )[i]).subrange(0, "CREATE TABLE IF NOT EXISTS "@.len() as int)
        == "CREATE TABLE IF NOT EXISTS "@ by {
        let m = models[i];
        let rest = m.table() + "("@ + crate::text::joined(crate::model::definitions(m.cols()), ", "@)
            + ")"@;
        assert(create_statements(models)[i] =~= "CREATE TABLE IF NOT EXISTS "@ + rest);
        assert(("CREATE TABLE IF NOT EXISTS "@ + rest).subrange(
            0,
            "CREATE TABLE IF NOT EXISTS "@.len() as int,
        ) =~= "CREATE TABLE IF NOT EXISTS "@);
    }
}

/// The capability test: whether a schema admits records of a model.
pub trait SchemaHas {
    /// The schema admits records of `model`.
    spec fn admits(&self, model: ModelDescriptor) -> bool;

    /// Tests whether the schema admits records of `model`.
    fn has(&self, model: &ModelDescriptor) -> (r: bool)
        ensures
            r == self.admits(*model),
    ;
}

/// The ordered models of one database; their table names are distinct.
pub struct Schema {
    models: Vec<ModelDescriptor>,
}

fn same_column_exec(a: &ColumnDescriptor, b: &ColumnDescriptor) -> (r: bool)
    ensures
        r == same_column(*a, *b),
{
    same_text(a.name.as_str(), b.name.as_str()) && a.sql_type == b.sql_type && a.nullable
        == b.nullable && a.is_primary_key == b.is_primary_key && a.is_unique == b.is_unique
        && a.is_auto_increment == b.is_auto_increment
}

fn same_model_exec(a: &ModelDescriptor, b: &ModelDescriptor) -> (r: bool)
    ensures
        r == same_model(*a, *b),
{
    if !same_text(a.table_name(), b.table_name()) {
        return false;
    }
    let ca = a.columns();
    let cb = b.columns();
    if ca.len() != cb.len() {
        return false;
    }
    let mut j: usize = 0;
    while j < ca.len()
        invariant
            ca@ == a.cols(),
            cb@ == b.cols(),
            ca@.len() == cb@.len(),
            j <= ca.len(),
            forall|k: int| 0 <= k < j ==> same_column(ca@[k], cb@[k]),
        decreases ca.len() - j,
    {
        if !same_column_exec(&ca[j], &cb[j]) {
            return false;
        }
        j += 1;
    }
    true
}

impl Schema {
    /// The models in declaration order.
    pub closed spec fn members(&self) -> Seq<ModelDescriptor> {
        self.models@
    }

    #[verifier::type_invariant]
    spec fn tables_distinct(&self) -> bool {
        distinct_tables(self.models@)
    }

    /// Composes a schema from `models`, whose order is the order of table creation.
    ///
    /// Fails with `DuplicateTable` when two models share a table name, naming
    /// the first model, in order, whose table an earlier model already has.
    pub fn new(models: Vec<ModelDescriptor>) -> (r: Result<Schema, Error>)
        ensures
            distinct_tables(models@) ==> r is Ok && r->Ok_0.members() == models@,
            !distinct_tables(models@) ==> match r {
                Err(Error::DuplicateTable(s)) => exists|i: int, j: int|
                    0 <= i < j < models@.len() && models@[i].table() == models@[j].table()
                        && distinct_tables(models@.take(j)) && s@ == models@[j].table(),
                _ => false,
            },
    {
        let mut j: usize = 0;
        while j < models.len()
            invariant
                j <= models.len(),
                forall|a: int, b: int|
                    0 <= a < b < j ==> models@[a].table() != models@[b].table(),
            decreases models.len() - j,
        {
            let mut i: usize = 0;
            while i < j
                invariant
                    j < models.len(),
                    i <= j,
                    forall|a: int, b: int|
                        0 <= a < b < j ==> models@[a].table() != models@[b].table(),
                    forall|a: int| 0 <= a < i ==> models@[a].table() != models@[j as int].table(),
                decreases j - i,
            {
                if same_text(models[i].table_name(), models[j].table_name()) {
                    proof {
                        let head = models@.take(j as int);
                        assert forall|a: int, b: int| 0 <= a < b < head.len() implies head[a].table()
                            != head[b].table() by {
                            assert(head[a] == models@[a] && head[b] == models@[b]);
                        }
                    }
                    return Err(Error::DuplicateTable(String::from_str(models[j].table_name())));
                }
                i += 1;
            }
            j += 1;
        }
        Ok(Schema { models })
    }

    /// The models in declaration order.
    pub fn models(&self) -> (r: &Vec<ModelDescriptor>)
        ensures
            r@ == self.members(),
    {
        &self.models
    }

    /// Renders the `CREATE TABLE` statement of every model, in order.
    pub fn statements(&self) -> (r: Vec<String>)
        ensures
            crate::text::texts(r@) == create_statements(self.members()),
    {
        let mut r: Vec<String> = Vec::new();
        let mut i: usize = 0;
        while i < self.models.len()
            invariant
                i <= self.models.len(),
                crate::text::texts(r@) =~= create_statements(self.members().take(i as int)),
            decreases self.models.len() - i,
        {
            let s = self.models[i].create_table_sql();
            proof {
                assert(create_statements(self.members().take(i + 1)) =~= create_statements(
                    self.members().take(i as int),
                ).push(s@));
            }
            r.push(s);
            i += 1;
        }
        assert(self.members().take(self.models.len() as int) =~= self.members());
        r
    }

    /// Creates, in declaration order, each table that does not exist yet.
    ///
    /// Stops at the first statement the engine refuses and returns
    /// `SchemaError` with its message; tables created before it remain.
    pub fn create(&self, store: &mut Store) -> (r: Result<(), Error>)
        ensures
            final(store).history().len() >= old(store).history().len(),
            final(store).history().take(old(store).history().len() as int) == old(
                store,
            ).history(),
            stops_at_first_failure(
                create_statements(self.members()),
                final(store).history().skip(old(store).history().len() as int),
                r is Ok,
            ),
            r is Err ==> r->Err_0 is SchemaError,
    {
        let ghost start = store.history();
        let ghost stmts = create_statements(self.members());
        let mut i: usize = 0;
        while i < self.models.len()
            invariant
                i <= self.models.len(),
                stmts == create_statements(self.members()),
                start == old(store).history(),
                store.history().len() == start.len() + i,
                store.history().take(start.len() as int) == start,
                forall|k: int|
                    0 <= k < i ==> (#[trigger] store.history()[start.len() + k]).sql == stmts[k]
                        && store.history()[start.len() + k].params == Seq::<
                        crate::value::Value,
                    >::empty() && store.history()[start.len() + k].accepted,
            decreases self.models.len() - i,
        {
            let sql = self.models[i].create_table_sql();
            let ghost before = store.history();
            let outcome = store.execute(sql.as_str());
            proof {
                assert(store.history().take(start.len() as int) =~= before.take(start.len() as int));
                assert forall|k: int| 0 <= k < i implies (#[trigger] store.history()[start.len()
                    + k]).sql == stmts[k] && store.history()[start.len() + k].params == Seq::<
                    crate::value::Value,
                >::empty() && store.history()[start.len() + k].accepted by {
                    assert(store.history()[start.len() + k] == before[start.len() + k]);
                }
            }
            match outcome {
                Ok(_) => {},
                Err(msg) => {
                    proof {
                        let run = store.history().skip(start.len() as int);
                        assert forall|k: int| 0 <= k < run.len() implies (#[trigger] run[k]).sql
                            == stmts[k] && run[k].params == Seq::<crate::value::Value>::empty() by {
                            assert(run[k] == store.history()[start.len() + k]);
                        }
                        assert forall|k: int| 0 <= k < run.len() - 1 implies (
                        #[trigger] run[k]).accepted by {
                            assert(run[k] == store.history()[start.len() + k]);
                        }
                        assert(!run.last().accepted);
                        assert(store.history().len() >= start.len());
                        assert(store.history().take(start.len() as int) == start);
                    }
                    return Err(Error::SchemaError(msg));
                },
            }
            i += 1;
        }
        proof {
            let run = store.history().skip(start.len() as int);
            assert forall|k: int| 0 <= k < run.len() implies (#[trigger] run[k]).sql == stmts[k]
                && run[k].params == Seq::<crate::value::Value>::empty() && run[k].accepted by {
                assert(run[k] == store.history()[start.len() + k]);
            }
        }
        Ok(())
    }
}

impl SchemaHas for Schema {
    open spec fn admits(&self, model: ModelDescriptor) -> bool {
        exists|i: int| 0 <= i < self.members().len() && same_model(self.members()[i], model)
    }

    fn has(&self, model: &ModelDescriptor) -> (r: bool) {
        let mut i: usize = 0;
        while i < self.models.len()
            invariant
                i <= self.models.len(),
                forall|k: int| 0 <= k < i ==> !same_model(self.members()[k], *model),
            decreases self.models.len() - i,
        {
            if same_model_exec(&self.models[i], model) {
                assert(same_model(self.members()[i as int], *model));
                return true;
            }
            i += 1;
        }
        false
    }
}

} // verus!
