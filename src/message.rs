//! Position marks (`" at line L column C"`) embedded in an error message, and
//! the message with them cut off.

use vstd::prelude::*;

use crate::search::{
    chars_of, find_first, find_from, find_last, last_occurrence, lemma_find_back,
    lemma_find_from, occurs_at, sub_vec,
};

verus! {

/// `" at "`: everything from its first occurrence on is position noise.
pub open spec fn at_delimiter() -> Seq<char> {
    seq![' ', 'a', 't', ' ']
}

/// `" at line "`: introduces one position mark.
pub open spec fn at_line_delimiter() -> Seq<char> {
    seq![' ', 'a', 't', ' ', 'l', 'i', 'n', 'e', ' ']
}

/// `" column "`: separates the line of a mark from its column.
pub open spec fn column_delimiter() -> Seq<char> {
    seq![' ', 'c', 'o', 'l', 'u', 'm', 'n', ' ']
}

fn at_chars() -> (r: Vec<char>)
    ensures
        r@ == at_delimiter(),
{
    let r = vec![' ', 'a', 't', ' '];
    assert(r@ =~= at_delimiter());
    r
}

fn at_line_chars() -> (r: Vec<char>)
    ensures
        r@ == at_line_delimiter(),
{
    let r = vec![' ', 'a', 't', ' ', 'l', 'i', 'n', 'e', ' '];
    assert(r@ =~= at_line_delimiter());
    r
}

fn column_chars() -> (r: Vec<char>)
    ensures
        r@ == column_delimiter(),
{
    let r = vec![' ', 'c', 'o', 'l', 'u', 'm', 'n', ' '];
    assert(r@ =~= column_delimiter());
    r
}

/// `c` is an ASCII decimal digit.
pub open spec fn is_digit(c: char) -> bool {
    '0' <= c <= '9'
}

/// The number that the decimal digits `ds` spell, most significant first.
pub open spec fn digits_value(ds: Seq<char>) -> int
    decreases ds.len(),
{
    if ds.len() == 0 {
        0
    } else {
        digits_value(ds.drop_last()) * 10 + (ds.last() as int - '0' as int)
    }
}

/// `s` read as an unsigned decimal: an optional `+`, then one or more digits,
/// with a value that fits in `usize`.
pub open spec fn decimal_value(s: Seq<char>) -> Option<usize> {
    let ds = if s.len() > 0 && s[0] == '+' {
        s.drop_first()
    } else {
        s
    };
    if ds.len() > 0 && (forall|i: int| 0 <= i < ds.len() ==> is_digit(ds[i])) && digits_value(ds)
        <= usize::MAX {
        Some(digits_value(ds) as usize)
    } else {
        None
    }
}

/// Relies on `<usize as FromStr>::from_str`: an optional `+` followed by one or
/// more ASCII digits is read in base 10, and anything else, or a value past
/// `usize::MAX`, is an error.
#[verifier::external_body]
fn parse_decimal(s: &str) -> (r: Option<usize>)
    ensures
        r == decimal_value(s@),
{
    s.parse::<usize>().ok()
}

/// The `(line, column)` pair that a fragment `"<line> column <column>"`
/// spells: the text before the first `" column "` and the text after it, up
/// to the next `" column "`, both read as decimals.
pub open spec fn parse_mark(f: Seq<char>) -> Option<(usize, usize)> {
    match find_from(f, column_delimiter(), 0) {
        None => None,
        Some(j) => {
            let col_start = j + column_delimiter().len();
            let col_end = match find_from(f, column_delimiter(), col_start) {
                Some(k) => k,
                None => f.len() as int,
            };
            match (decimal_value(f.subrange(0, j)), decimal_value(f.subrange(col_start, col_end))) {
                (Some(line), Some(column)) => Some((line, column)),
                _ => None,
            }
        },
    }
}

/// The pieces of `s` between occurrences of `" at line "`, found from the
/// right: the text after the rightmost occurrence comes first, the text
/// before the leftmost one last.
pub open spec fn fragments_rtl(s: Seq<char>) -> Seq<Seq<char>>
    decreases s.len(),
    via fragments_rtl_decreases
{
    match last_occurrence(s, at_line_delimiter()) {
        Some(i) => seq![s.subrange(i + at_line_delimiter().len(), s.len() as int)] + fragments_rtl(
            s.subrange(0, i),
        ),
        None => seq![s],
    }
}

#[via_fn]
proof fn fragments_rtl_decreases(s: Seq<char>) {
    lemma_find_back(s, at_line_delimiter(), s.len() + 1 as int);
}

/// The marks that parse among `frags`, in the same order.
pub open spec fn parsed_marks(frags: Seq<Seq<char>>) -> Seq<(usize, usize)>
    decreases frags.len(),
{
    if frags.len() == 0 {
        seq![]
    } else {
        let rest = parsed_marks(frags.drop_first());
        match parse_mark(frags[0]) {
            Some(m) => seq![m] + rest,
            None => rest,
        }
    }
}

/// The well-formed position marks of a message, rightmost first.
pub open spec fn marks_rtl(s: Seq<char>) -> Seq<(usize, usize)> {
    parsed_marks(fragments_rtl(s))
}

/// The `k`-th element of `ms`, if there is one.
pub open spec fn mark_at(ms: Seq<(usize, usize)>, k: int) -> Option<(usize, usize)> {
    if 0 <= k < ms.len() {
        Some(ms[k])
    } else {
        None
    }
}

/// The message up to the first `" at "`, or all of it where there is none.
pub open spec fn cleaned(s: Seq<char>) -> Seq<char> {
    match find_from(s, at_delimiter(), 0) {
        Some(i) => s.subrange(0, i),
        None => s,
    }
}

/// Cleaning a cleaned message changes nothing: the first cut removes every
/// `" at "` there is.
pub proof fn lemma_cleaned_idempotent(s: Seq<char>)
    ensures
        cleaned(cleaned(s)) == cleaned(s),
{
    let d = at_delimiter();
    lemma_find_from(s, d, 0);
    let c = cleaned(s);
    lemma_find_from(c, d, 0);
    if let Some(i) = find_from(s, d, 0) {
        if let Some(j) = find_from(c, d, 0) {
            assert(c.subrange(j, j + d.len()) =~= s.subrange(j, j + d.len()));
            assert(occurs_at(s, d, j));
        }
    }
}

/// `message` up to the first `" at "`.
pub fn clean_message(message: &str) -> (r: String)
    ensures
        r@ == cleaned(message@),
{
    let v = chars_of(message);
    let d = at_chars();
    match find_first(&v, &d, 0) {
        Some(i) => {
            proof {
                lemma_find_from(v@, d@, 0);
            }
            message.substring_char(0, i).to_owned()
        },
        None => message.to_owned(),
    }
}

/// The mark spelled by the fragment `v[a..b]` of `message`, whose characters
/// are `v`.
fn parse_fragment(message: &str, v: &Vec<char>, a: usize, b: usize) -> (r: Option<(usize, usize)>)
    requires
        v@ == message@,
        a <= b <= v@.len(),
    ensures
        r == parse_mark(v@.subrange(a as int, b as int)),
{
    let f = sub_vec(v, a, b);
    let c = column_chars();
    proof {
        lemma_find_from(f@, c@, 0);
    }
    match find_first(&f, &c, 0) {
        None => None,
        Some(j) => {
            let col_start = j + c.len();
            proof {
                lemma_find_from(f@, c@, col_start as int);
            }
            let col_end = match find_first(&f, &c, col_start) {
                Some(k) => k,
                None => f.len(),
            };
            let line_text = message.substring_char(a, a + j);
            let column_text = message.substring_char(a + col_start, a + col_end);
            assert(line_text@ =~= f@.subrange(0, j as int));
            assert(column_text@ =~= f@.subrange(col_start as int, col_end as int));
            match (parse_decimal(line_text), parse_decimal(column_text)) {
                (Some(line), Some(column)) => Some((line, column)),
                _ => None,
            }
        },
    }
}

proof fn lemma_parsed_marks_cons(f: Seq<char>, rest: Seq<Seq<char>>)
    ensures
        parsed_marks(seq![f] + rest) == match parse_mark(f) {
            Some(m) => seq![m] + parsed_marks(rest),
            None => parsed_marks(rest),
        },
{
    assert((seq![f] + rest).drop_first() =~= rest);
}

/// The rightmost well-formed mark of `message` and the one before it.
pub fn last_two_marks(message: &str) -> (r: (Option<(usize, usize)>, Option<(usize, usize)>))
    ensures
        r.0 == mark_at(marks_rtl(message@), 0),
        r.1 == mark_at(marks_rtl(message@), 1),
{
    let v = chars_of(message);
    let d = at_line_chars();
    let mut end: usize = v.len();
    let mut last: Option<(usize, usize)> = None;
    let ghost mut found: Seq<(usize, usize)> = seq![];
    assert(v@.subrange(0, end as int) =~= v@);
    loop
        invariant
            end <= v@.len(),
            v@ == message@,
            d@ == at_line_delimiter(),
            found.len() <= 1,
            last == mark_at(found, 0),
            marks_rtl(v@) == found + marks_rtl(v@.subrange(0, end as int)),
        decreases end,
    {
        let ghost t = v@.subrange(0, end as int);
        let occ = find_last(&v, &d, end);
        proof {
            lemma_find_back(t, d@, t.len() + 1 as int);
        }
        let start = match occ {
            Some(i) => i + d.len(),
            None => 0,
        };
        let m = parse_fragment(message, &v, start, end);
        proof {
            let rest = match occ {
                Some(i) => fragments_rtl(t.subrange(0, i as int)),
                None => seq![],
            };
            assert(v@.subrange(start as int, end as int) =~= t.subrange(start as int, t.len() as int));
            assert(fragments_rtl(t) == seq![v@.subrange(start as int, end as int)] + rest) by {
                if occ is None {
                    assert(seq![t] + Seq::<Seq<char>>::empty() =~= seq![t]);
                }
            }
            lemma_parsed_marks_cons(v@.subrange(start as int, end as int), rest);
        }
        if let Some(mk) = m {
            if let Some(first) = last {
                assert(marks_rtl(v@)[1] == mk);
                return (last, m);
            }
            last = m;
            proof {
                found = seq![mk];
            }
        }
        match occ {
            None => {
                assert(parsed_marks(seq![]) == Seq::<(usize, usize)>::empty());
                return (last, None);
            },
            Some(i) => {
                assert(t.subrange(0, i as int) =~= v@.subrange(0, i as int));
                end = i;
            },
        }
    }
}

} // verus!
