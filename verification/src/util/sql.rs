//! The texts of the conditions that are handed to the store as they are.
use crate::util::string::{append, append_str, collect, digits, join, join_chars, pieces, to_decimal};
use vstd::prelude::*;

verus! {

/// A whole number in base ten, with `-` before it where it is negative.
pub open spec fn signed(i: int) -> Seq<char> {
    if i < 0 {
        seq!['-'] + digits((-i) as nat)
    } else {
        digits(i as nat)
    }
}

/// Writes a number in base ten.
fn decimal(n: u64) -> (r: Vec<char>)
    ensures
        r@ == digits(n as nat),
    decreases n,
{
    if n <= 9 {
        to_decimal(n as usize)
    } else {
        let mut r = decimal(n / 10);
        let last = to_decimal((n % 10) as usize);
        assert(last@ == seq![crate::util::string::digit_char((n % 10) as nat)]);
        r.push(last[0]);
        r
    }
}

/// Writes a whole number in base ten.
pub fn write_signed(i: i64) -> (r: Vec<char>)
    ensures
        r@ == signed(i as int),
{
    if i >= 0 {
        decimal(i as u64)
    } else {
        let size: u64 = if i == i64::MIN {
            9223372036854775808u64
        } else {
            (-i) as u64
        };
        let mut r: Vec<char> = Vec::new();
        r.push('-');
        let rest = decimal(size);
        append(&mut r, &rest);
        r
    }
}

/// The condition that a row has the row id `oid`.
pub fn with_rowid(oid: i64) -> (text: String)
    ensures
        text@ == "OID = "@ + signed(oid as int),
{
    let mut out: Vec<char> = Vec::new();
    append_str(&mut out, "OID = ");
    let number = write_signed(oid);
    append(&mut out, &number);
    collect(&out)
}

/// A pair of numbers as a row of values: both between single quotes, in
/// parentheses.
pub open spec fn pair_text(pair: (i64, i64)) -> Seq<char> {
    "('"@ + signed(pair.0 as int) + "','"@ + signed(pair.1 as int) + "')"@
}

/// The rows of a list of pairs.
pub open spec fn pair_texts(values: Seq<(i64, i64)>) -> Seq<Seq<char>> {
    values.map_values(|p: (i64, i64)| pair_text(p))
}

/// The condition that two columns hold one of the pairs of a list: `FALSE`
/// for an empty list; else the columns in parentheses, `IN`, and the rows
/// with commas between them in parentheses, after the word `VALUES` where
/// `keyword` is set.
pub open spec fn pairs_clause(
    first: Seq<char>,
    second: Seq<char>,
    values: Seq<(i64, i64)>,
    keyword: bool,
) -> Seq<char> {
    if values.len() == 0 {
        "FALSE"@
    } else {
        "("@ + first + ", "@ + second + ") IN ("@ + (if keyword {
            "VALUES "@
        } else {
            Seq::<char>::empty()
        }) + join(pair_texts(values), seq![',']) + ")"@
    }
}

/// The condition that two columns hold one of the pairs of a list.
pub fn with_pairs(columns: (&str, &str), values: &Vec<(i64, i64)>, keyword: bool) -> (text: String)
    ensures
        text@ == pairs_clause(columns.0@, columns.1@, values@, keyword),
{
    if values.len() == 0 {
        return sql_false();
    }
    let mut rows: Vec<Vec<char>> = Vec::new();
    let mut i: usize = 0;
    while i < values.len()
        invariant
            i <= values@.len(),
            pieces(rows@) == pair_texts(values@).take(i as int),
        decreases values@.len() - i,
    {
        let mut row: Vec<char> = Vec::new();
        append_str(&mut row, "('");
        let a = write_signed(values[i].0);
        append(&mut row, &a);
        append_str(&mut row, "','");
        let b = write_signed(values[i].1);
        append(&mut row, &b);
        append_str(&mut row, "')");
        proof {
            assert(row@ == pair_text(values@[i as int]));
            assert(pieces(rows@.push(row)) =~= pieces(rows@).push(row@));
            assert(pair_texts(values@).take(i as int + 1) =~= pair_texts(values@).take(
                i as int,
            ).push(pair_texts(values@)[i as int]));
        }
        rows.push(row);
        i += 1;
    }
    assert(pair_texts(values@).take(i as int) =~= pair_texts(values@));
    let mut comma: Vec<char> = Vec::new();
    comma.push(',');
    assert(comma@ =~= seq![',']);
    let list = join_chars(&rows, &comma);
    let mut out: Vec<char> = Vec::new();
    append_str(&mut out, "(");
    append_str(&mut out, columns.0);
    append_str(&mut out, ", ");
    append_str(&mut out, columns.1);
    append_str(&mut out, ") IN (");
    if keyword {
        append_str(&mut out, "VALUES ");
    }
    append(&mut out, &list);
    append_str(&mut out, ")");
    proof {
        let word = if keyword {
            "VALUES "@
        } else {
            Seq::<char>::empty()
        };
        assert(out@ =~= "("@ + columns.0@ + ", "@ + columns.1@ + ") IN ("@ + word + list@ + ")"@);
    }
    collect(&out)
}

/// A text between single quotes, as it is.
pub fn sql_text(text: &str) -> (literal: String)
    ensures
        literal@ == seq!['\''] + text@ + seq!['\''],
{
    let mut out: Vec<char> = Vec::new();
    out.push('\'');
    append_str(&mut out, text);
    out.push('\'');
    collect(&out)
}

/// The condition that never holds.
pub fn sql_false() -> (text: String)
    ensures
        text@ == "FALSE"@,
{
    "FALSE".to_owned()
}

/// The condition that always holds.
pub fn sql_true() -> (text: String)
    ensures
        text@ == "TRUE"@,
{
    "TRUE".to_owned()
}

} // verus!
