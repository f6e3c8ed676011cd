//! Statement texts and size limits for rows written to Postgres.

use vstd::prelude::*;
use vstd::string::StringExecFns;
use std::sync::Arc;
use tokio_postgres::Client;

verus! {

/// Bytes that one statement may take at most.
pub const MAX_QUERY_SIZE: usize = 200_000;

/// The size of one row of a table, in bytes: what a row usually takes and
/// what it takes at most. A table gives both; zero stands for "not given".
pub trait SchemaSize {
    const DEFAULT_SIZE: usize = 0;
    const MAX_SIZE: usize = 0;
}

/// Rows of usual size that fit into one statement.
pub fn get_max_safe_inserts<T: SchemaSize>() -> (rows: usize)
    requires
        T::DEFAULT_SIZE != 0,
    ensures
        rows == MAX_QUERY_SIZE / T::DEFAULT_SIZE,
{
    MAX_QUERY_SIZE / T::DEFAULT_SIZE
}

/// Rows of the largest size that fit into one statement.
pub fn get_max_safe_updates<T: SchemaSize>() -> (rows: usize)
    requires
        T::MAX_SIZE != 0,
    ensures
        rows == MAX_QUERY_SIZE / T::MAX_SIZE,
{
    MAX_QUERY_SIZE / T::MAX_SIZE
}

/// `tokio_postgres::Client`: the client end of a connection to a Postgres
/// server.
#[verifier::external_type_specification]
#[verifier::external_body]
pub struct ExClient(Client);

/// A session with a Postgres server. Its copies share the one client.
#[derive(Clone)]
pub struct PostgresSession {
    pub client: Arc<Client>,
}

/// The character for the digit `d`.
pub open spec fn digit(d: nat) -> char {
    if d == 0 {
        '0'
    } else if d == 1 {
        '1'
    } else if d == 2 {
        '2'
    } else if d == 3 {
        '3'
    } else if d == 4 {
        '4'
    } else if d == 5 {
        '5'
    } else if d == 6 {
        '6'
    } else if d == 7 {
        '7'
    } else if d == 8 {
        '8'
    } else {
        '9'
    }
}

/// `n` in decimal, without sign or leading zeros.
pub open spec fn decimal(n: nat) -> Seq<char>
    decreases n,
{
    if n < 10 {
        seq![digit(n)]
    } else {
        decimal(n / 10).push(digit(n % 10))
    }
}

/// `parts` joined, with `separator` between each two neighbours.
pub open spec fn joined(parts: Seq<Seq<char>>, separator: char) -> Seq<char>
    decreases parts.len(),
{
    if parts.len() == 0 {
        Seq::empty()
    } else if parts.len() == 1 {
        parts[0]
    } else {
        joined(parts.drop_last(), separator).push(separator) + parts.last()
    }
}

/// The placeholder for parameter number `index`: `$` and the number, and
/// where a type is given, that in round brackets, `::` and the type.
pub open spec fn placeholder(index: nat, cast: Option<Seq<char>>) -> Seq<char> {
    match cast {
        Some(name) => seq!['(', '$'] + decimal(index) + seq![')', ':', ':'] + name,
        None => seq!['$'] + decimal(index),
    }
}

/// The placeholder at place `at` of row `row`. Parameters are numbered from
/// one, row after row. Only the first row names the types, and only where
/// types are given.
pub open spec fn cell(args: nat, types: Seq<&str>, row: nat, at: nat) -> Seq<char> {
    placeholder(
        row * args + at + 1,
        if row == 0 && types.len() > 0 {
            Some(types[at as int]@)
        } else {
            None
        },
    )
}

/// Row `row`: its placeholders, separated by commas, in round brackets.
pub open spec fn row_text(args: nat, types: Seq<&str>, row: nat) -> Seq<char> {
    seq!['('] + joined(Seq::new(args, |at: int| cell(args, types, row, at as nat)), ',') + seq![
        ')',
    ]
}

/// `rows` rows of `args` placeholders each, separated by commas.
pub open spec fn multiline_text(args: nat, rows: nat, types: Seq<&str>) -> Seq<char> {
    joined(Seq::new(rows, |row: int| row_text(args, types, row as nat)), ',')
}

/// Appends the digit `d`.
fn push_digit(text: &mut String, d: usize)
    requires
        d < 10,
    ensures
        final(text)@ == old(text)@.push(digit(d as nat)),
{
    proof {
        reveal_strlit("0");
        reveal_strlit("1");
        reveal_strlit("2");
        reveal_strlit("3");
        reveal_strlit("4");
        reveal_strlit("5");
        reveal_strlit("6");
        reveal_strlit("7");
        reveal_strlit("8");
        reveal_strlit("9");
    }
    let figure = if d == 0 {
        "0"
    } else if d == 1 {
        "1"
    } else if d == 2 {
        "2"
    } else if d == 3 {
        "3"
    } else if d == 4 {
        "4"
    } else if d == 5 {
        "5"
    } else if d == 6 {
        "6"
    } else if d == 7 {
        "7"
    } else if d == 8 {
        "8"
    } else {
        "9"
    };
    assert(figure@ == seq![digit(d as nat)]);
    text.append(figure);
    assert(text@ == old(text)@.push(digit(d as nat)));
}

/// Appends `n` in decimal.
fn push_decimal(text: &mut String, n: usize)
    ensures
        final(text)@ == old(text)@ + decimal(n as nat),
    decreases n,
{
    if n >= 10 {
        push_decimal(text, n / 10);
        push_digit(text, n % 10);
        assert(text@ == old(text)@ + decimal(n as nat));
    } else {
        push_digit(text, n);
        assert(text@ == old(text)@ + decimal(n as nat));
    }
}

/// Appends the placeholder for parameter number `index`.
fn push_placeholder(text: &mut String, index: usize, cast: Option<&str>)
    ensures
        final(text)@ == old(text)@ + placeholder(
            index as nat,
            match cast {
                Some(name) => Some(name@),
                None => None,
            },
        ),
{
    proof {
        reveal_strlit("($");
        reveal_strlit(")::");
        reveal_strlit("$");
    }
    match cast {
        Some(name) => {
            text.append("($");
            push_decimal(text, index);
            text.append(")::");
            text.append(name);
            assert(text@ == old(text)@ + (seq!['(', '$'] + decimal(index as nat) + seq![
                ')',
                ':',
                ':',
            ] + name@));
        },
        None => {
            text.append("$");
            push_decimal(text, index);
            assert(text@ == old(text)@ + (seq!['$'] + decimal(index as nat)));
        },
    }
}

/// Appends row `row`. `first_index` is the number of its first parameter.
fn push_row(query: &mut String, args: usize, types: &[&str], row: usize, first_index: usize)
    requires
        types@.len() == 0 || args <= types@.len(),
        first_index == row * args + 1,
        first_index + args <= usize::MAX,
    ensures
        final(query)@ == old(query)@ + row_text(args as nat, types@, row as nat),
{
    proof {
        reveal_strlit("(");
        reveal_strlit(")");
    }
    let ghost cells = Seq::new(
        args as nat,
        |at: int| cell(args as nat, types@, row as nat, at as nat),
    );
    query.append("(");
    assert(query@ == old(query)@ + seq!['(']);
    assert(cells.take(0).len() == 0);
    let mut at: usize = 0;
    while at < args
        invariant
            at <= args,
            types@.len() == 0 || args <= types@.len(),
            first_index == row * args + 1,
            first_index + args <= usize::MAX,
            cells.len() == args,
            forall|i: int|
                0 <= i < args ==> #[trigger] cells[i] == cell(
                    args as nat,
                    types@,
                    row as nat,
                    i as nat,
                ),
            query@ == old(query)@ + seq!['('] + joined(cells.take(at as int), ','),
        decreases args - at,
    {
        let ghost start = query@;
        let ghost longer = cells.take(at + 1);
        if at != 0 {
            query.append(",");
            assert(query@ == start.push(',')) by {
                reveal_strlit(",");
            }
        }
        if row == 0 && types.len() > 0 {
            push_placeholder(query, first_index + at, Some(types[at]));
        } else {
            push_placeholder(query, first_index + at, None);
        }
        proof {
            assert(longer.drop_last() == cells.take(at as int));
            assert(longer.last() == cells[at as int]);
            if at == 0 {
                assert(query@ == start + longer.last());
                assert(joined(longer, ',') == longer.last());
            } else {
                assert(query@ == start.push(',') + longer.last());
                assert(joined(longer, ',') == joined(cells.take(at as int), ',').push(',')
                    + longer.last());
            }
            assert(query@ == old(query)@ + seq!['('] + joined(longer, ','));
        }
        at = at + 1;
    }
    query.append(")");
    proof {
        assert(cells.take(args as int) == cells);
        assert(cells == Seq::new(
            args as nat,
            |at: int| cell(args as nat, types@, row as nat, at as nat),
        ));
        assert(query@ == old(query)@ + (seq!['('] + joined(cells, ',') + seq![')']));
    }
}

impl PostgresSession {
    /// Appends to `query` the placeholders of a statement that writes `rows`
    /// rows of `args` values each: `($1,$2),($3,$4)` for two rows of two.
    /// Where `types` is not empty it names the type of each value, and the
    /// placeholders of the first row say so: `(($1)::text,($2)::int),($3,$4)`.
    pub fn multiline_query(query: &mut String, args: usize, rows: usize, types: &[&str])
        requires
            rows == 0 || types@.len() == 0 || args <= types@.len(),
            rows * args < usize::MAX,
        ensures
            final(query)@ == old(query)@ + multiline_text(args as nat, rows as nat, types@),
    {
        let ghost lines = Seq::new(
            rows as nat,
            |row: int| row_text(args as nat, types@, row as nat),
        );
        assert(lines.take(0).len() == 0);
        let mut arg_index: usize = 1;
        let mut row: usize = 0;
        while row < rows
            invariant
                row <= rows,
                rows == 0 || types@.len() == 0 || args <= types@.len(),
                rows * args < usize::MAX,
                arg_index == row * args + 1,
                lines.len() == rows,
                forall|i: int|
                    0 <= i < rows ==> #[trigger] lines[i] == row_text(
                        args as nat,
                        types@,
                        i as nat,
                    ),
                query@ == old(query)@ + joined(lines.take(row as int), ','),
            decreases rows - row,
        {
            let ghost start = query@;
            let ghost longer = lines.take(row + 1);
            if row != 0 {
                query.append(",");
                assert(query@ == start.push(',')) by {
                    reveal_strlit(",");
                }
            }
            assert(row * args + args <= rows * args && row * args + args == (row + 1) * args)
                by (nonlinear_arith)
                requires
                    row < rows,
            ;
            push_row(query, args, types, row, arg_index);
            proof {
                assert(longer.drop_last() == lines.take(row as int));
                assert(longer.last() == lines[row as int]);
                if row == 0 {
                    assert(query@ == start + longer.last());
                    assert(joined(longer, ',') == longer.last());
                } else {
                    assert(query@ == start.push(',') + longer.last());
                    assert(joined(longer, ',') == joined(lines.take(row as int), ',').push(',')
                        + longer.last());
                }
                assert(query@ == old(query)@ + joined(longer, ','));
            }
            arg_index = arg_index + args;
            row = row + 1;
        }
        proof {
            assert(lines.take(rows as int) == lines);
            assert(lines == Seq::new(
                rows as nat,
                |row: int| row_text(args as nat, types@, row as nat),
            ));
        }
    }
}

} // verus!
