//! The query engine's decision layer: building a parameterized INSERT from
//! a type description and a row value map, and classifying what a
//! caller-supplied read brought back.
//!
//! Executing a statement against the backing store is outside work; the
//! surrounding program runs the statement this layer built and hands the
//! outcome back to [`fetch_one`].

use vstd::prelude::*;
use vstd::string::StringExecFns;
use crate::error::Error;
use crate::sqlval::{RowEntry, SqlStatement, SqlValue};
use crate::types::ObjectType;

verus! {

/// `parts` joined with `", "` between neighbours.
pub open spec fn joined(parts: Seq<Seq<char>>) -> Seq<char>
    decreases parts.len(),
{
    if parts.len() == 0 {
        Seq::empty()
    } else if parts.len() == 1 {
        parts[0]
    } else {
        joined(parts.drop_last()) + ", "@ + parts.last()
    }
}

/// `n` positional placeholders joined with `", "`: the argument row of a
/// parameterized VALUES clause.
pub open spec fn placeholders(n: nat) -> Seq<char>
    decreases n,
{
    if n == 0 {
        Seq::empty()
    } else if n == 1 {
        "?"@
    } else {
        placeholders((n - 1) as nat) + ", ?"@
    }
}

/// How many times `c` occurs in `s`.
pub open spec fn count_char(s: Seq<char>, c: char) -> nat
    decreases s.len(),
{
    if s.len() == 0 {
        0
    } else {
        count_char(s.drop_last(), c) + (if s.last() == c {
            1nat
        } else {
            0nat
        })
    }
}

proof fn lemma_count_char_concat(a: Seq<char>, b: Seq<char>, c: char)
    ensures
        count_char(a + b, c) == count_char(a, c) + count_char(b, c),
    decreases b.len(),
{
    if b.len() == 0 {
        assert(a + b =~= a);
    } else {
        assert((a + b).drop_last() =~= a + b.drop_last());
        assert((a + b).last() == b.last());
        lemma_count_char_concat(a, b.drop_last(), c);
    }
}

/// Every argument row a built INSERT carries holds exactly one positional
/// placeholder per column, so the pairing of placeholder order and
/// argument order is structural.
pub proof fn lemma_one_placeholder_per_column(n: nat)
    ensures
        count_char(placeholders(n), '?') == n,
    decreases n,
{
    reveal_strlit("?");
    reveal_strlit(", ?");
    assert(count_char(Seq::<char>::empty(), '?') == 0);
    if n == 0 {
    } else if n == 1 {
        assert(placeholders(1).len() == 1 && placeholders(1).last() == '?');
        assert(placeholders(1).drop_last() =~= Seq::<char>::empty());
        assert(count_char(placeholders(1), '?') == 1);
    } else {
        lemma_one_placeholder_per_column((n - 1) as nat);
        let tail = ", ?"@;
        assert(count_char(tail, '?') == 1) by {
            assert(tail.len() == 3 && tail[0] == ',' && tail[1] == ' ' && tail[2] == '?');
            assert(tail.drop_last().drop_last() =~= seq![',']);
            assert(seq![','].drop_last() =~= Seq::<char>::empty());
            assert(count_char(Seq::<char>::empty(), '?') == 0);
            assert(count_char(seq![','], '?') == 0);
            assert(tail.drop_last().last() == ' ');
            assert(count_char(tail.drop_last(), '?') == 0);
            assert(tail.last() == '?');
        }
        lemma_count_char_concat(placeholders((n - 1) as nat), tail, '?');
    }
}

/// The column names of a row value map, in order.
pub open spec fn columns_of(values: Seq<RowEntry>) -> Seq<Seq<char>> {
    values.map(|i: int, e: RowEntry| e.column@)
}

/// The text of the INSERT statement built for `table` and `columns`: one
/// positional placeholder per column, in column order.
pub open spec fn insert_sql(table: Seq<char>, columns: Seq<Seq<char>>) -> Seq<char> {
    "INSERT INTO "@ + table + " ("@ + joined(columns) + ") VALUES ("@ + placeholders(
        columns.len(),
    ) + ")"@
}

/// Builds the parameterized INSERT that stores `values` as one row of the
/// table backing `ty`.  The value map's keys become the column list and its
/// values the bound arguments, in the map's order; nothing of the values
/// reaches the SQL text.  Fails with `SchemaMismatch`, and builds nothing,
/// if a key is not a declared field of `ty`.
pub fn insert_row_statement(ty: &ObjectType, values: &Vec<RowEntry>) -> (r: Result<
    SqlStatement,
    Error,
>)
    ensures
        r is Ok <==> (forall|i: int|
            0 <= i < values@.len() ==> ty.spec_has_field(values@[i].column@)),
        r is Err ==> r->Err_0 == Error::SchemaMismatch,
        r is Ok ==> r->Ok_0.sql@ == insert_sql(ty.backing_table@, columns_of(values@)),
        r is Ok ==> r->Ok_0.args@.len() == values@.len(),
        r is Ok ==> forall|i: int|
            0 <= i < values@.len() ==> r->Ok_0.args@[i]@ == values@[i].value@,
{
    let n = values.len();
    let mut i: usize = 0;
    while i < n
        invariant
            i <= n,
            n == values@.len(),
            forall|j: int| 0 <= j < i ==> ty.spec_has_field(values@[j].column@),
        decreases n - i,
    {
        if !ty.has_field(values[i].column.as_str()) {
            return Err(Error::SchemaMismatch);
        }
        i = i + 1;
    }

    let ghost cols = columns_of(values@);
    let mut sql = String::from_str("INSERT INTO ");
    sql.append(ty.backing_table.as_str());
    sql.append(" (");
    let ghost head = "INSERT INTO "@ + ty.backing_table@ + " ("@;
    assert(sql@ == head);
    let mut i: usize = 0;
    while i < n
        invariant
            i <= n,
            n == values@.len(),
            cols == columns_of(values@),
            sql@ == head + joined(cols.take(i as int)),
        decreases n - i,
    {
        if i > 0 {
            sql.append(", ");
        }
        sql.append(values[i].column.as_str());
        proof {
            let pre = cols.take(i as int);
            let post = cols.take(i + 1 as int);
            assert(post.drop_last() =~= pre);
            assert(post.last() == cols[i as int]);
            if i == 0 {
                assert(joined(post) == cols[0]);
                assert(sql@ == head + joined(post));
            } else {
                assert(joined(post) == joined(pre) + ", "@ + cols[i as int]);
            }
        }
        i = i + 1;
    }
    assert(cols.take(n as int) =~= cols);
    sql.append(") VALUES (");
    let ghost mid = head + joined(cols) + ") VALUES ("@;
    let mut i: usize = 0;
    while i < n
        invariant
            i <= n,
            n == values@.len(),
            sql@ == mid + placeholders(i as nat),
        decreases n - i,
    {
        if i > 0 {
            sql.append(", ?");
        } else {
            sql.append("?");
        }
        i = i + 1;
    }
    sql.append(")");

    let mut args: Vec<SqlValue> = Vec::new();
    let mut i: usize = 0;
    while i < n
        invariant
            i <= n,
            n == values@.len(),
            args@.len() == i,
            forall|j: int| 0 <= j < i ==> args@[j]@ == values@[j].value@,
        decreases n - i,
    {
        args.push(values[i].value.dup());
        i = i + 1;
    }
    assert(sql@ == insert_sql(ty.backing_table@, columns_of(values@)));
    Ok(SqlStatement { sql, args })
}

/// Reduces the outcome of executing a caller-supplied read to the one row
/// the caller expects.  An execution failure becomes `StorageError`; zero
/// rows become `NotFound`; more than one row becomes `AmbiguousResult`
/// rather than silently picking a row.
pub fn fetch_one(outcome: Result<Vec<Vec<RowEntry>>, String>) -> (r: Result<Vec<RowEntry>, Error>)
    ensures
        r is Ok <==> (outcome matches Ok(rows) && rows@.len() == 1),
        outcome matches Ok(rows) ==> {
            &&& rows@.len() == 1 ==> (r matches Ok(row) && row == rows@[0])
            &&& rows@.len() == 0 ==> r->Err_0 == Error::NotFound
            &&& rows@.len() > 1 ==> r->Err_0 == Error::AmbiguousResult
        },
        outcome matches Err(m) ==> (r->Err_0 matches Error::StorageError(s) && s@ == m@),
{
    match outcome {
        Ok(mut rows) => {
            if rows.len() == 1 {
                let row = rows.pop().unwrap();
                Ok(row)
            } else if rows.len() == 0 {
                Err(Error::NotFound)
            } else {
                Err(Error::AmbiguousResult)
            }
        },
        Err(m) => Err(Error::StorageError(m)),
    }
}

} // verus!
