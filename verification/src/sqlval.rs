//! The closed union of scalar values accepted as bound SQL parameters, the
//! parameterized statement that pairs SQL text with an ordered argument
//! list, and rows keyed by column name.
//!
//! A floating-point parameter is carried as the bit pattern of a 64-bit
//! IEEE value; the logic never reads it, and the surrounding program
//! converts at the boundary.

use vstd::prelude::*;

verus! {

/// A scalar value bound to one positional placeholder.  Values are never
/// interpolated into SQL text.
#[derive(Debug, Clone)]
pub enum SqlValue {
    Text(String),
    Int(i64),
    /// The bit pattern of a 64-bit IEEE floating-point value.
    FloatBits(u64),
    Bool(bool),
    Null,
    Blob(Vec<u8>),
}

/// The mathematical value of a [`SqlValue`]: the same union over character
/// and byte sequences.
pub enum SqlValueAbs {
    Text(Seq<char>),
    Int(i64),
    FloatBits(u64),
    Bool(bool),
    Null,
    Blob(Seq<u8>),
}

impl View for SqlValue {
    type V = SqlValueAbs;

    open spec fn view(&self) -> SqlValueAbs {
        match *self {
            SqlValue::Text(s) => SqlValueAbs::Text(s@),
            SqlValue::Int(n) => SqlValueAbs::Int(n),
            SqlValue::FloatBits(b) => SqlValueAbs::FloatBits(b),
            SqlValue::Bool(b) => SqlValueAbs::Bool(b),
            SqlValue::Null => SqlValueAbs::Null,
            SqlValue::Blob(v) => SqlValueAbs::Blob(v@),
        }
    }
}

impl SqlValue {
    /// A copy holding the same mathematical value as the original.
    pub fn dup(&self) -> (r: SqlValue)
        ensures
            r@ == self@,
    {
        match self {
            SqlValue::Text(s) => SqlValue::Text(s.clone()),
            SqlValue::Int(n) => SqlValue::Int(*n),
            SqlValue::FloatBits(b) => SqlValue::FloatBits(*b),
            SqlValue::Bool(b) => SqlValue::Bool(*b),
            SqlValue::Null => SqlValue::Null,
            SqlValue::Blob(v) => {
                let mut out: Vec<u8> = Vec::new();
                let mut i: usize = 0;
                while i < v.len()
                    invariant
                        i <= v.len(),
                        out@ =~= v@.take(i as int),
                    decreases v.len() - i,
                {
                    out.push(v[i]);
                    i = i + 1;
                }
                assert(out@ =~= v@);
                SqlValue::Blob(out)
            },
        }
    }
}

/// One column of a row value map or of a result row: a column name and the
/// scalar stored under it.
#[derive(Debug, Clone)]
pub struct RowEntry {
    pub column: String,
    pub value: SqlValue,
}

impl RowEntry {
    /// A copy whose column name and value are those of the original.
    pub fn dup(&self) -> (r: RowEntry)
        ensures
            r.column@ == self.column@,
            r.value@ == self.value@,
    {
        RowEntry { column: self.column.clone(), value: self.value.dup() }
    }
}

/// SQL text with positional placeholders paired with the ordered argument
/// list that fills them.  The pairing of placeholder order and argument
/// order is established by the functions that construct statements, which
/// is the sole defense against injection.
#[derive(Debug, Clone)]
pub struct SqlStatement {
    pub sql: String,
    pub args: Vec<SqlValue>,
}

/// The value stored under the first occurrence of `column` in `row`, if
/// any.
pub open spec fn row_lookup(row: Seq<RowEntry>, column: Seq<char>) -> Option<SqlValueAbs>
    decreases row.len(),
{
    if row.len() == 0 {
        None
    } else if row[0].column@ == column {
        Some(row[0].value@)
    } else {
        row_lookup(row.drop_first(), column)
    }
}

proof fn lemma_row_lookup_found(row: Seq<RowEntry>, column: Seq<char>, i: int)
    requires
        0 <= i < row.len(),
        forall|j: int| 0 <= j < i ==> row[j].column@ != column,
        row[i].column@ == column,
    ensures
        row_lookup(row, column) == Some(row[i].value@),
    decreases i,
{
    if i == 0 {
    } else {
        assert(row[0].column@ != column);
        assert(forall|j: int| 0 <= j < i - 1 ==> row.drop_first()[j].column@ != column);
        lemma_row_lookup_found(row.drop_first(), column, i - 1);
    }
}

proof fn lemma_row_lookup_absent(row: Seq<RowEntry>, column: Seq<char>)
    requires
        forall|j: int| 0 <= j < row.len() ==> row[j].column@ != column,
    ensures
        row_lookup(row, column) is None,
    decreases row.len(),
{
    if row.len() > 0 {
        lemma_row_lookup_absent(row.drop_first(), column);
    }
}

/// Looks `column` up in `row`, returning the value stored under its first
/// occurrence.
pub fn row_get<'a>(row: &'a Vec<RowEntry>, column: &str) -> (r: Option<&'a SqlValue>)
    ensures
        r is Some <==> row_lookup(row@, column@) is Some,
        r is Some ==> Some(r->0@) == row_lookup(row@, column@),
{
    let mut i: usize = 0;
    while i < row.len()
        invariant
            i <= row@.len(),
            forall|j: int| 0 <= j < i ==> row@[j].column@ != column@,
        decreases row@.len() - i,
    {
        if crate::strkit::str_equal(row[i].column.as_str(), column) {
            proof {
                lemma_row_lookup_found(row@, column@, i as int);
            }
            return Some(&row[i].value);
        }
        i = i + 1;
    }
    proof {
        lemma_row_lookup_absent(row@, column@);
    }
    None
}

} // verus!
