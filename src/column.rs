//! Column descriptors and their derivation from field declarations.

use vstd::prelude::*;

use crate::error::Error;
use crate::text::same_text;

verus! {

/// The shape of a field's declared Rust type, as far as column derivation reads it.
#[derive(Debug)]
pub enum TypeExpr {
    /// A named type, by the last segment of its path, with its generic type
    /// arguments: `String`, `i64`, `Option<String>`.
    Path { name: String, args: Vec<TypeExpr> },
    /// A shared reference, such as `&str`.
    Reference(Box<TypeExpr>),
    /// Any other type: a tuple, an array, a slice, a function pointer.
    Other,
}

/// The storage type of a column.
#[derive(Debug, Clone, Copy, PartialEq, Eq, Structural)]
pub enum SqlType {
    Integer,
    Text,
}

/// One constraint of a column's definition.
#[derive(Debug, Clone, Copy, PartialEq, Eq, Structural)]
pub enum Constraint {
    NotNull,
    PrimaryKey,
    AutoIncrement,
    Unique,
}

/// A field of a record type, with the annotations that shape its column.
#[derive(Debug)]
pub struct FieldDecl {
    pub name: String,
    pub ty: TypeExpr,
    pub primary_key: bool,
    pub unique: bool,
    pub auto_increment: bool,
}

/// The column that stores one field.
#[derive(Debug)]
pub struct ColumnDescriptor {
    pub name: String,
    pub sql_type: SqlType,
    pub nullable: bool,
    pub is_primary_key: bool,
    pub is_unique: bool,
    pub is_auto_increment: bool,
}

/// Names of the integer types, fixed-width or pointer-sized.
pub open spec fn is_integer_name(s: Seq<char>) -> bool {
    ||| s == "i8"@
    ||| s == "i16"@
    ||| s == "i32"@
    ||| s == "i64"@
    ||| s == "i128"@
    ||| s == "isize"@
    ||| s == "u8"@
    ||| s == "u16"@
    ||| s == "u32"@
    ||| s == "u64"@
    ||| s == "u128"@
    ||| s == "usize"@
}

/// The type inside one layer of `Option`, if `t` is such a layer.
pub open spec fn optional_inner(t: TypeExpr) -> Option<TypeExpr> {
    match t {
        TypeExpr::Path { name, args } => {
            if name@ == "Option"@ && args@.len() == 1 {
                Some(args@[0])
            } else {
                None
            }
        },
        _ => None,
    }
}

/// The storage type of a base (non-optional) type: `String` and `&str` are
/// text, the integer types are integers, anything else has none.
pub open spec fn base_sql_type(t: TypeExpr) -> Option<SqlType> {
    match t {
        TypeExpr::Path { name, args } => {
            if args@.len() != 0 {
                None
            } else if name@ == "String"@ {
                Some(SqlType::Text)
            } else if is_integer_name(name@) {
                Some(SqlType::Integer)
            } else {
                None
            }
        },
        TypeExpr::Reference(inner) => {
            match *inner {
                TypeExpr::Path { name, args } => {
                    if args@.len() == 0 && name@ == "str"@ {
                        Some(SqlType::Text)
                    } else {
                        None
                    }
                },
                _ => None,
            }
        },
        TypeExpr::Other => None,
    }
}

/// The column derived from a field, or `None` when its type has no storage type.
///
/// One layer of `Option` makes the column nullable; `auto_increment` implies
/// a primary key.
pub open spec fn derived_column(f: FieldDecl) -> Option<ColumnDescriptor> {
    let nullable = optional_inner(f.ty) is Some;
    let base = match optional_inner(f.ty) {
        Some(inner) => inner,
        None => f.ty,
    };
    match base_sql_type(base) {
        Some(t) => Some(
            ColumnDescriptor {
                name: f.name,
                sql_type: t,
                nullable,
                is_primary_key: f.primary_key || f.auto_increment,
                is_unique: f.unique,
                is_auto_increment: f.auto_increment,
            },
        ),
        None => None,
    }
}

/// The SQL keyword of a storage type.
pub open spec fn type_keyword(t: SqlType) -> Seq<char> {
    match t {
        SqlType::Integer => "INTEGER"@,
        SqlType::Text => "TEXT"@,
    }
}

/// The SQL text of a constraint, with its leading space.
pub open spec fn constraint_text(k: Constraint) -> Seq<char> {
    match k {
        Constraint::NotNull => " NOT NULL"@,
        Constraint::PrimaryKey => " PRIMARY KEY"@,
        Constraint::AutoIncrement => " AUTOINCREMENT"@,
        Constraint::Unique => " UNIQUE"@,
    }
}

/// The text of a list of constraints.
pub open spec fn rendered(ks: Seq<Constraint>) -> Seq<char>
    decreases ks.len(),
{
    if ks.len() == 0 {
        Seq::empty()
    } else {
        rendered(ks.drop_last()) + constraint_text(ks.last())
    }
}

proof fn lemma_rendered_push(ks: Seq<Constraint>, k: Constraint)
    ensures
        rendered(ks.push(k)) == rendered(ks) + constraint_text(k),
{
    assert(ks.push(k).drop_last() =~= ks);
}

impl ColumnDescriptor {
    /// Auto-incremented columns are primary keys.
    pub open spec fn valid(&self) -> bool {
        self.is_auto_increment ==> self.is_primary_key
    }

    /// A column is mandatory when it is neither nullable nor auto-generated.
    pub open spec fn mandatory(&self) -> bool {
        !self.nullable && !self.is_auto_increment
    }

    /// The constraint clause of the column, in its fixed order.
    pub open spec fn constraints(&self) -> Seq<Constraint> {
        let a = if !self.nullable {
            seq![Constraint::NotNull]
        } else {
            Seq::empty()
        };
        let b = if self.is_primary_key {
            a.push(Constraint::PrimaryKey)
        } else {
            a
        };
        let c = if self.is_auto_increment {
            b.push(Constraint::AutoIncrement)
        } else {
            b
        };
        if self.is_unique {
            c.push(Constraint::Unique)
        } else {
            c
        }
    }

    /// The column's definition inside `CREATE TABLE`: name, type, constraints.
    pub open spec fn definition(&self) -> Seq<char> {
        self.name@ + " "@ + type_keyword(self.sql_type) + rendered(self.constraints())
    }

    /// Whether a value must be supplied for this column before a record is finished.
    pub fn is_mandatory(&self) -> (r: bool)
        ensures
            r == self.mandatory(),
    {
        !self.nullable && !self.is_auto_increment
    }

    /// Renders the column's definition, e.g. `id INTEGER NOT NULL PRIMARY KEY`.
    pub fn definition_sql(&self) -> (r: String)
        ensures
            r@ == self.definition(),
    {
        let mut r = String::from_str(self.name.as_str());
        r.append(" ");
        match self.sql_type {
            SqlType::Integer => r.append("INTEGER"),
            SqlType::Text => r.append("TEXT"),
        }
        let ghost head = r@;
        let ghost mut ks: Seq<Constraint> = Seq::empty();
        assert(r@ =~= head + rendered(ks));
        if !self.nullable {
            r.append(" NOT NULL");
            proof {
                lemma_rendered_push(ks, Constraint::NotNull);
                ks = ks.push(Constraint::NotNull);
                assert(r@ =~= head + rendered(ks));
            }
        }
        if self.is_primary_key {
            r.append(" PRIMARY KEY");
            proof {
                lemma_rendered_push(ks, Constraint::PrimaryKey);
                ks = ks.push(Constraint::PrimaryKey);
                assert(r@ =~= head + rendered(ks));
            }
        }
        if self.is_auto_increment {
            r.append(" AUTOINCREMENT");
            proof {
                lemma_rendered_push(ks, Constraint::AutoIncrement);
                ks = ks.push(Constraint::AutoIncrement);
                assert(r@ =~= head + rendered(ks));
            }
        }
        if self.is_unique {
            r.append(" UNIQUE");
            proof {
                lemma_rendered_push(ks, Constraint::Unique);
                ks = ks.push(Constraint::Unique);
                assert(r@ =~= head + rendered(ks));
            }
        }
        assert(ks =~= self.constraints());
        assert(r@ =~= self.definition());
        r
    }
}

/// Each constraint stands in a column's clause exactly when its flag is set:
/// `NOT NULL` when the column is not nullable, the others with their flag.
pub proof fn lemma_constraint_flags(c: ColumnDescriptor)
    ensures
        c.constraints().contains(Constraint::NotNull) <==> !c.nullable,
        c.constraints().contains(Constraint::PrimaryKey) <==> c.is_primary_key,
        c.constraints().contains(Constraint::AutoIncrement) <==> c.is_auto_increment,
        c.constraints().contains(Constraint::Unique) <==> c.is_unique,
{
    let a = if !c.nullable {
        seq![Constraint::NotNull]
    } else {
        Seq::empty()
    };
    let b = if c.is_primary_key {
        a.push(Constraint::PrimaryKey)
    } else {
        a
    };
    let d = if c.is_auto_increment {
        b.push(Constraint::AutoIncrement)
    } else {
        b
    };
    let e = if c.is_unique {
        d.push(Constraint::Unique)
    } else {
        d
    };
    assert(c.constraints() == e);
    assert(forall|k: Constraint| a.contains(k) <==> (k == Constraint::NotNull && !c.nullable)) by {
        if !c.nullable {
            assert(a[0] == Constraint::NotNull);
        }
    }
    assert(forall|k: Constraint|
        b.contains(k) <==> (a.contains(k) || (k == Constraint::PrimaryKey && c.is_primary_key)))
        by {
        assert forall|k: Constraint|
            b.contains(k) <==> (a.contains(k) || (k == Constraint::PrimaryKey
                && c.is_primary_key)) by {
            if c.is_primary_key {
                assert(b[b.len() - 1] == Constraint::PrimaryKey);
                if a.contains(k) {
                    let i = choose|i: int| 0 <= i < a.len() && a[i] == k;
                    assert(b[i] == k);
                }
            }
        }
    }
    assert(forall|k: Constraint|
        d.contains(k) <==> (b.contains(k) || (k == Constraint::AutoIncrement
            && c.is_auto_increment))) by {
        assert forall|k: Constraint|
            d.contains(k) <==> (b.contains(k) || (k == Constraint::AutoIncrement
                && c.is_auto_increment)) by {
            if c.is_auto_increment {
                assert(d[d.len() - 1] == Constraint::AutoIncrement);
                if b.contains(k) {
                    let i = choose|i: int| 0 <= i < b.len() && b[i] == k;
                    assert(d[i] == k);
                }
            }
        }
    }
    assert(forall|k: Constraint|
        e.contains(k) <==> (d.contains(k) || (k == Constraint::Unique && c.is_unique))) by {
        assert forall|k: Constraint|
            e.contains(k) <==> (d.contains(k) || (k == Constraint::Unique && c.is_unique)) by {
            if c.is_unique {
                assert(e[e.len() - 1] == Constraint::Unique);
                if d.contains(k) {
                    let i = choose|i: int| 0 <= i < d.len() && d[i] == k;
                    assert(e[i] == k);
                }
            }
        }
    }
}

fn is_integer_text(s: &str) -> (r: bool)
    ensures
        r == is_integer_name(s@),
{
    same_text(s, "i8") || same_text(s, "i16") || same_text(s, "i32") || same_text(s, "i64")
        || same_text(s, "i128") || same_text(s, "isize") || same_text(s, "u8") || same_text(
        s,
        "u16",
    ) || same_text(s, "u32") || same_text(s, "u64") || same_text(s, "u128") || same_text(
        s,
        "usize",
    )
}

fn strip_optional(t: &TypeExpr) -> (r: (&TypeExpr, bool))
    ensures
        r.1 == (optional_inner(*t) is Some),
        *r.0 == match optional_inner(*t) {
            Some(inner) => inner,
            None => *t,
        },
{
    match t {
        TypeExpr::Path { name, args } => {
            if args.len() == 1 && same_text(name.as_str(), "Option") {
                (&args[0], true)
            } else {
                (t, false)
            }
        },
        _ => (t, false),
    }
}

fn storage_type(t: &TypeExpr) -> (r: Option<SqlType>)
    ensures
        r == base_sql_type(*t),
{
    match t {
        TypeExpr::Path { name, args } => {
            if args.len() != 0 {
                None
            } else if same_text(name.as_str(), "String") {
                Some(SqlType::Text)
            } else if is_integer_text(name.as_str()) {
                Some(SqlType::Integer)
            } else {
                None
            }
        },
        TypeExpr::Reference(inner) => {
            match &**inner {
                TypeExpr::Path { name, args } => {
                    if args.len() == 0 && same_text(name.as_str(), "str") {
                        Some(SqlType::Text)
                    } else {
                        None
                    }
                },
                _ => None,
            }
        },
        TypeExpr::Other => None,
    }
}

/// Derives the column that stores `field`.
///
/// Fails with `UnsupportedFieldType`, naming the field, when the type under
/// at most one layer of `Option` is neither text nor an integer.
pub fn derive_column(field: &FieldDecl) -> (r: Result<ColumnDescriptor, Error>)
    ensures
        match derived_column(*field) {
            Some(c) => r == Ok::<ColumnDescriptor, Error>(c),
            None => r == Err::<ColumnDescriptor, Error>(Error::UnsupportedFieldType(field.name)),
        },
{
    let (base, nullable) = strip_optional(&field.ty);
    match storage_type(base) {
        Some(t) => Ok(
            ColumnDescriptor {
                name: field.name.clone(),
                sql_type: t,
                nullable,
                is_primary_key: field.primary_key || field.auto_increment,
                is_unique: field.unique,
                is_auto_increment: field.auto_increment,
            },
        ),
        None => Err(Error::UnsupportedFieldType(field.name.clone())),
    }
}

} // verus!
