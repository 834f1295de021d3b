//! Compact rows: fields escaped and joined with `|`, rows joined with
//! newlines, and decimal numbers.
use vstd::prelude::*;
use crate::text::{join, push_char, push_str, views};

verus! {

/// A field with `\`, newline, carriage return and `|` escaped by a
/// backslash (`\\`, `\n`, `\r`, `\|`).
pub open spec fn escape_field(s: Seq<char>) -> Seq<char>
    decreases s.len(),
{
    if s.len() == 0 {
        seq![]
    } else {
        let c = s.last();
        let e = if c == '\\' {
            seq!['\\', '\\']
        } else if c == '\n' {
            seq!['\\', 'n']
        } else if c == '\r' {
            seq!['\\', 'r']
        } else if c == '|' {
            seq!['\\', '|']
        } else {
            seq![c]
        };
        escape_field(s.drop_last()) + e
    }
}

/// The fields of a row, each escaped, joined with `|`.
pub open spec fn row_text(fields: Seq<Seq<char>>) -> Seq<char> {
    join(fields.map_values(|f: Seq<char>| escape_field(f)), seq!['|'])
}

/// Appends `t` with its special characters escaped (see `escape_field`).
pub fn push_escaped(s: &mut String, t: &str)
    ensures
        final(s)@ == old(s)@ + escape_field(t@),
{
    let v = crate::text::chars_of(t);
    let mut i: usize = 0;
    while i < v.len()
        invariant
            i <= v.len(),
            v@ == t@,
            s@ == old(s)@ + escape_field(v@.take(i as int)),
        decreases v.len() - i,
    {
        let c = v[i];
        if c == '\\' {
            push_char(s, '\\');
            push_char(s, '\\');
        } else if c == '\n' {
            push_char(s, '\\');
            push_char(s, 'n');
        } else if c == '\r' {
            push_char(s, '\\');
            push_char(s, 'r');
        } else if c == '|' {
            push_char(s, '\\');
            push_char(s, '|');
        } else {
            push_char(s, c);
        }
        assert(v@.take(i + 1).drop_last() =~= v@.take(i as int));
        assert(v@.take(i + 1).last() == c);
        i = i + 1;
    }
    assert(v@.take(v.len() as int) =~= v@);
}

/// One row: the fields escaped and joined with `|`.
pub fn format_row(fields: &Vec<String>) -> (r: String)
    ensures
        r@ == row_text(views(fields@)),
{
    let mut s = String::new();
    let mut i: usize = 0;
    while i < fields.len()
        invariant
            i <= fields.len(),
            s@ == row_text(views(fields@.take(i as int))),
        decreases fields.len() - i,
    {
        if i > 0 {
            push_char(&mut s, '|');
        }
        push_escaped(&mut s, fields[i].as_str());
        proof {
            let p = views(fields@.take(i + 1)).map_values(|f: Seq<char>| escape_field(f));
            let q = views(fields@.take(i as int)).map_values(|f: Seq<char>| escape_field(f));
            assert(p.drop_last() =~= q);
            assert(p.last() == escape_field(fields@[i as int]@));
            if i == 0 {
                assert(q.len() == 0);
                assert(s@ =~= p[0]);
            } else {
                assert(s@ =~= join(p.drop_last(), seq!['|']) + seq!['|'] + p.last());
            }
        }
        i = i + 1;
    }
    assert(fields@.take(fields.len() as int) == fields@);
    s
}

/// The decimal digit of `d < 10`.
pub open spec fn digit(d: nat) -> char {
    if d == 0 {
        '0'
    } else if d == 1 {
        '1'
    } else if d == 2 {
        '2'
    } else if d == 3 {
        '3'
    } else if d == 4 {
        '4'
    } else if d == 5 {
        '5'
    } else if d == 6 {
        '6'
    } else if d == 7 {
        '7'
    } else if d == 8 {
        '8'
    } else {
        '9'
    }
}

/// The decimal notation of `n`, without leading zeros.
pub open spec fn decimal(n: nat) -> Seq<char>
    decreases n,
{
    if n < 10 {
        seq![digit(n)]
    } else {
        decimal(n / 10).push(digit(n % 10))
    }
}

fn digit_exec(d: usize) -> (r: char)
    requires
        d < 10,
    ensures
        r == digit(d as nat),
{
    if d == 0 {
        '0'
    } else if d == 1 {
        '1'
    } else if d == 2 {
        '2'
    } else if d == 3 {
        '3'
    } else if d == 4 {
        '4'
    } else if d == 5 {
        '5'
    } else if d == 6 {
        '6'
    } else if d == 7 {
        '7'
    } else if d == 8 {
        '8'
    } else {
        '9'
    }
}

/// Appends the decimal notation of `n`.
pub fn push_decimal(s: &mut String, n: usize)
    ensures
        final(s)@ == old(s)@ + decimal(n as nat),
    decreases n,
{
    if n >= 10 {
        push_decimal(s, n / 10);
    }
    push_char(s, digit_exec(n % 10));
    assert(old(s)@ + decimal(n as nat) =~= s@);
}

/// The decimal notation of `n` (`n.to_string()`).
pub fn decimal_string(n: usize) -> (r: String)
    ensures
        r@ == decimal(n as nat),
{
    let mut s = String::new();
    push_decimal(&mut s, n);
    assert(s@ =~= decimal(n as nat));
    s
}

/// Rows joined with newlines.
pub fn join_rows(rows: &Vec<String>) -> (r: String)
    ensures
        r@ == join(views(rows@), seq!['\n']),
{
    let mut s = String::new();
    let mut i: usize = 0;
    while i < rows.len()
        invariant
            i <= rows.len(),
            s@ == join(views(rows@.take(i as int)), seq!['\n']),
        decreases rows.len() - i,
    {
        if i > 0 {
            push_char(&mut s, '\n');
        }
        push_str(&mut s, rows[i].as_str());
        proof {
            let p = views(rows@.take(i + 1));
            assert(p.drop_last() =~= views(rows@.take(i as int)));
            assert(p.last() == rows@[i as int]@);
            if i == 0 {
                assert(s@ =~= p[0]);
            } else {
                assert(s@ =~= join(p.drop_last(), seq!['\n']) + seq!['\n'] + p.last());
            }
        }
        i = i + 1;
    }
    assert(rows@.take(rows.len() as int) == rows@);
    s
}

/// An escaped field holds no newline and no carriage return, so a row
/// stays on one line.
pub proof fn law_escaped_field_one_line(s: Seq<char>)
    ensures
        !escape_field(s).contains('\n'),
        !escape_field(s).contains('\r'),
    decreases s.len(),
{
    if s.len() > 0 {
        law_escaped_field_one_line(s.drop_last());
        let p = escape_field(s.drop_last());
        let c = s.last();
        let e = if c == '\\' {
            seq!['\\', '\\']
        } else if c == '\n' {
            seq!['\\', 'n']
        } else if c == '\r' {
            seq!['\\', 'r']
        } else if c == '|' {
            seq!['\\', '|']
        } else {
            seq![c]
        };
        assert(escape_field(s) == p + e);
        assert forall|i: int| 0 <= i < (p + e).len() implies (p + e)[i] != '\n' && (p + e)[i]
            != '\r' by {
            if i < p.len() {
                assert((p + e)[i] == p[i]);
            } else {
                assert((p + e)[i] == e[i - p.len()]);
            }
        }
    }
}

} // verus!
