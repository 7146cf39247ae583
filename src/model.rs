//! Model descriptors: a table name and the ordered columns of one record type.

use vstd::prelude::*;

use crate::column::{
    derive_column, derived_column, lemma_constraint_flags, optional_inner, ColumnDescriptor,
    Constraint, FieldDecl,
};
use crate::error::Error;
use crate::text::{join, joined, texts};

verus! {

/// What `str::to_lowercase` returns for a text.
pub uninterp spec fn lower_of(s: Seq<char>) -> Seq<char>;

/// Relies on `str::to_lowercase`: the result depends on the characters alone.
#[verifier::external_body]
fn lowercase(s: &str) -> (r: String)
    ensures
        r@ == lower_of(s@),
{
    s.to_lowercase()
}

/// No two columns share a name.
pub open spec fn distinct_names(cols: Seq<ColumnDescriptor>) -> bool {
    forall|i: int, j: int| 0 <= i < j < cols.len() ==> cols[i].name@ != cols[j].name@
}

/// Some column has the name `name`.
pub open spec fn has_column_named(cols: Seq<ColumnDescriptor>, name: Seq<char>) -> bool {
    exists|j: int| 0 <= j < cols.len() && cols[j].name@ == name
}

/// The columns derived from `fields` in declaration order, or the error of the
/// first field that cannot be derived or repeats an earlier name.
pub open spec fn derived_columns(fields: Seq<FieldDecl>) -> Result<Seq<ColumnDescriptor>, Error>
    decreases fields.len(),
{
    if fields.len() == 0 {
        Ok(Seq::empty())
    } else {
        match derived_columns(fields.drop_last()) {
            Err(e) => Err(e),
            Ok(cols) => match derived_column(fields.last()) {
                None => Err(Error::UnsupportedFieldType(fields.last().name)),
                Some(c) => {
                    if has_column_named(cols, c.name@) {
                        Err(Error::DuplicateColumn(c.name))
                    } else {
                        Ok(cols.push(c))
                    }
                },
            },
        }
    }
}

/// The table of a record type: the declared name if there is one, else the
/// type's name in lower case.
pub open spec fn table_name_for(record_name: Seq<char>, declared: Option<Seq<char>>) -> Seq<char> {
    match declared {
        Some(t) => t,
        None => lower_of(record_name),
    }
}

/// The definitions of a list of columns.
pub open spec fn definitions(cols: Seq<ColumnDescriptor>) -> Seq<Seq<char>> {
    cols.map_values(|c: ColumnDescriptor| c.definition())
}

/// `CREATE TABLE IF NOT EXISTS <table>(<col> <type+constraints>, ...)`.
pub open spec fn create_sql(table: Seq<char>, cols: Seq<ColumnDescriptor>) -> Seq<char> {
    "CREATE TABLE IF NOT EXISTS "@ + table + "("@ + joined(definitions(cols), ", "@) + ")"@
}

/// Table name and columns of one record type.
#[derive(Debug)]
pub struct ModelDescriptor {
    table_name: String,
    columns: Vec<ColumnDescriptor>,
}

/// Chooses the table name of a record type named `record_name`.
pub fn table_name(record_name: &str, declared: Option<&str>) -> (r: String)
    ensures
        r@ == table_name_for(
            record_name@,
            match declared {
                Some(t) => Some(t@),
                None => None,
            },
        ),
{
    match declared {
        Some(t) => String::from_str(t),
        None => lowercase(record_name),
    }
}

proof fn lemma_error_persists(fields: Seq<FieldDecl>, i: int)
    requires
        0 <= i <= fields.len(),
        derived_columns(fields.take(i)) is Err,
    ensures
        derived_columns(fields) == derived_columns(fields.take(i)),
    decreases fields.len(),
{
    if i == fields.len() {
        assert(fields.take(i) =~= fields);
    } else {
        assert(fields.drop_last().take(i) =~= fields.take(i));
        lemma_error_persists(fields.drop_last(), i);
    }
}

/// Derived columns are valid and carry distinct names.
pub proof fn lemma_derived_columns_wf(fields: Seq<FieldDecl>)
    requires
        derived_columns(fields) is Ok,
    ensures
        distinct_names(derived_columns(fields)->Ok_0),
        forall|i: int|
            0 <= i < derived_columns(fields)->Ok_0.len() ==> (
            #[trigger] derived_columns(fields)->Ok_0[i]).valid(),
        derived_columns(fields)->Ok_0.len() == fields.len(),
    decreases fields.len(),
{
    if fields.len() > 0 {
        lemma_derived_columns_wf(fields.drop_last());
    }
}

/// Each derived column is the column derived from the field at its position.
pub proof fn lemma_derived_pointwise(fields: Seq<FieldDecl>)
    requires
        derived_columns(fields) is Ok,
    ensures
        derived_columns(fields)->Ok_0.len() == fields.len(),
        forall|i: int|
            0 <= i < fields.len() ==> derived_column(#[trigger] fields[i]) == Some(
                derived_columns(fields)->Ok_0[i],
            ),
    decreases fields.len(),
{
    if fields.len() > 0 {
        lemma_derived_pointwise(fields.drop_last());
        assert forall|i: int| 0 <= i < fields.len() implies derived_column(#[trigger] fields[i])
            == Some(derived_columns(fields)->Ok_0[i]) by {
            if i < fields.len() - 1 {
                assert(fields[i] == fields.drop_last()[i]);
            }
        }
    }
}

/// In every model, a field of optional type maps to a nullable column whose
/// clause lacks `NOT NULL`, and every other field maps to a column whose
/// clause has `NOT NULL`.
pub proof fn lemma_nullable_fields(fields: Seq<FieldDecl>)
    requires
        derived_columns(fields) is Ok,
    ensures
        forall|i: int|
            0 <= i < fields.len() ==> {
                let c = #[trigger] derived_columns(fields)->Ok_0[i];
                &&& (optional_inner(fields[i].ty) is Some <==> c.nullable)
                &&& (c.constraints().contains(Constraint::NotNull) <==> !c.nullable)
            },
{
    lemma_derived_pointwise(fields);
    assert forall|i: int| 0 <= i < fields.len() implies {
        let c = #[trigger] derived_columns(fields)->Ok_0[i];
        &&& (optional_inner(fields[i].ty) is Some <==> c.nullable)
        &&& (c.constraints().contains(Constraint::NotNull) <==> !c.nullable)
    } by {
        assert(derived_column(fields[i]) == Some(derived_columns(fields)->Ok_0[i]));
        lemma_constraint_flags(derived_columns(fields)->Ok_0[i]);
    }
}

/// In every model, a field marked `auto_increment` maps to a column whose
/// clause has both `PRIMARY KEY` and `AUTOINCREMENT`, and which is never
/// mandatory, whatever its nullability.
pub proof fn lemma_auto_increment_fields(fields: Seq<FieldDecl>)
    requires
        derived_columns(fields) is Ok,
    ensures
        forall|i: int|
            0 <= i < fields.len() && fields[i].auto_increment ==> {
                let c = #[trigger] derived_columns(fields)->Ok_0[i];
                &&& c.is_primary_key
                &&& c.constraints().contains(Constraint::PrimaryKey)
                &&& c.constraints().contains(Constraint::AutoIncrement)
                &&& !c.mandatory()
            },
{
    lemma_derived_pointwise(fields);
    assert forall|i: int| 0 <= i < fields.len() && fields[i].auto_increment implies {
        let c = #[trigger] derived_columns(fields)->Ok_0[i];
        &&& c.is_primary_key
        &&& c.constraints().contains(Constraint::PrimaryKey)
        &&& c.constraints().contains(Constraint::AutoIncrement)
        &&& !c.mandatory()
    } by {
        assert(derived_column(fields[i]) == Some(derived_columns(fields)->Ok_0[i]));
        lemma_constraint_flags(derived_columns(fields)->Ok_0[i]);
    }
}

impl ModelDescriptor {
    /// The table name.
    pub closed spec fn table(&self) -> Seq<char> {
        self.table_name@
    }

    /// The columns in declaration order.
    pub closed spec fn cols(&self) -> Seq<ColumnDescriptor> {
        self.columns@
    }

    /// Columns are valid and their names distinct.
    #[verifier::type_invariant]
    pub open spec fn wf(&self) -> bool {
        &&& distinct_names(self.cols())
        &&& forall|i: int| 0 <= i < self.cols().len() ==> (#[trigger] self.cols()[i]).valid()
    }

    /// Describes the record type `record_name` with the fields `fields`.
    ///
    /// The table is `table_name` when given, else `record_name` in lower case.
    /// Fails with `UnsupportedFieldType` or `DuplicateColumn` for the first
    /// field, in declaration order, that has no storage type or repeats a name.
    pub fn new(record_name: &str, table_name: Option<&str>, fields: &Vec<FieldDecl>) -> (r: Result<
        ModelDescriptor,
        Error,
    >)
        ensures
            match derived_columns(fields@) {
                Ok(cols) => r is Ok && r->Ok_0.cols() == cols && r->Ok_0.table()
                    == table_name_for(
                    record_name@,
                    match table_name {
                        Some(t) => Some(t@),
                        None => None,
                    },
                ),
                Err(e) => r == Err::<ModelDescriptor, Error>(e),
            },
    {
        let mut columns: Vec<ColumnDescriptor> = Vec::new();
        let mut i: usize = 0;
        while i < fields.len()
            invariant
                i <= fields.len(),
                derived_columns(fields@.take(i as int)) == Ok::<Seq<ColumnDescriptor>, Error>(
                    columns@,
                ),
            decreases fields.len() - i,
        {
            proof {
                assert(fields@.take(i + 1).drop_last() =~= fields@.take(i as int));
                assert(fields@.take(i + 1).last() == fields@[i as int]);
            }
            let c = match derive_column(&fields[i]) {
                Ok(c) => c,
                Err(e) => {
                    proof {
                        lemma_error_persists(fields@, i + 1);
                    }
                    return Err(e);
                },
            };
            let mut j: usize = 0;
            while j < columns.len()
                invariant
                    i < fields.len(),
                    j <= columns.len(),
                    derived_columns(fields@.take(i as int)) == Ok::<
                        Seq<ColumnDescriptor>,
                        Error,
                    >(columns@),
                    derived_column(fields@[i as int]) == Some(c),
                    fields@.take(i + 1).drop_last() == fields@.take(i as int),
                    fields@.take(i + 1).last() == fields@[i as int],
                    forall|k: int| 0 <= k < j ==> columns@[k].name@ != c.name@,
                decreases columns.len() - j,
            {
                if columns[j].name == c.name {
                    proof {
                        assert(has_column_named(columns@, c.name@));
                        lemma_error_persists(fields@, i + 1);
                    }
                    return Err(Error::DuplicateColumn(c.name));
                }
                j += 1;
            }
            proof {
                assert(!has_column_named(columns@, c.name@));
            }
            columns.push(c);
            i += 1;
        }
        assert(fields@.take(fields.len() as int) =~= fields@);
        proof {
            lemma_derived_columns_wf(fields@);
        }
        let name = crate::model::table_name(record_name, table_name);
        Ok(ModelDescriptor { table_name: name, columns })
    }

    /// The table name.
    pub fn table_name(&self) -> (r: &str)
        ensures
            r@ == self.table(),
    {
        self.table_name.as_str()
    }

    /// The columns in declaration order.
    pub fn columns(&self) -> (r: &Vec<ColumnDescriptor>)
        ensures
            r@ == self.cols(),
    {
        &self.columns
    }

    /// Renders the statement that creates the model's table if it is missing.
    pub fn create_table_sql(&self) -> (r: String)
        ensures
            r@ == create_sql(self.table(), self.cols()),
    {
        let mut defs: Vec<String> = Vec::new();
        let mut i: usize = 0;
        while i < self.columns.len()
            invariant
                i <= self.columns.len(),
                texts(defs@) =~= definitions(self.cols().take(i as int)),
            decreases self.columns.len() - i,
        {
            let d = self.columns[i].definition_sql();
            proof {
                assert(definitions(self.cols().take(i + 1)) =~= definitions(
                    self.cols().take(i as int),
                ).push(d@));
            }
            defs.push(d);
            i += 1;
        }
        assert(self.cols().take(self.columns.len() as int) =~= self.cols());
        let mut r = String::from_str("CREATE TABLE IF NOT EXISTS ");
        r.append(self.table_name.as_str());
        r.append("(");
        let body = join(&defs, ", ");
        r.append(body.as_str());
        r.append(")");
        r
    }
}

} // verus!
