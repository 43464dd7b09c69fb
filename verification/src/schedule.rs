//! The 5-field cron schedule grammar: minute, hour, day of month, month,
//! day of week. Each field is `*`, a literal value, an inclusive range
//! `a-b`, a list `a,b,c` of values and ranges, or a step `*/n`. Values are
//! written with one or two digits; the day-of-week domain is `0..=7`, with
//! both `0` and `7` standing for Sunday.

use vstd::prelude::*;

use crate::text::split_on_char;
use crate::text::split_sep;
use crate::text::split_ws;
use crate::text::split_whitespace_tokens;
use crate::text::views_of;

verus! {

// ---------------------------------------------------------------------
// digits and literal values
// ---------------------------------------------------------------------

pub open spec fn is_digit(c: char) -> bool {
    '0' <= c && c <= '9'
}

pub open spec fn all_digits(t: Seq<char>) -> bool {
    forall|i: int| 0 <= i < t.len() ==> is_digit(t[i])
}

/// Numeric value of a digit string, most significant digit first.
pub open spec fn num_val(t: Seq<char>) -> int
    decreases t.len(),
{
    if t.len() == 0 {
        0
    } else {
        num_val(t.drop_last()) * 10 + (t.last() as u32 - '0' as u32)
    }
}

/// A literal field value: one or two digits.
pub open spec fn is_number(t: Seq<char>) -> bool {
    1 <= t.len() <= 2 && all_digits(t)
}

/// A literal value inside the inclusive domain `lo..=hi`.
pub open spec fn value_in(t: Seq<char>, lo: int, hi: int) -> bool {
    is_number(t) && lo <= num_val(t) <= hi
}

/// Index of the first `-` in `t`, or `t.len()` if there is none.
pub open spec fn first_dash(t: Seq<char>) -> int
    decreases t.len(),
{
    if t.len() == 0 {
        0
    } else if t[0] == '-' {
        0
    } else {
        1 + first_dash(t.drop_first())
    }
}

/// A list element: a literal value, or an inclusive range `a-b` with
/// `a <= b` and both ends in the domain.
pub open spec fn is_elem(t: Seq<char>, lo: int, hi: int) -> bool {
    let d = first_dash(t);
    if d == t.len() {
        value_in(t, lo, hi)
    } else {
        value_in(t.take(d), lo, hi) && value_in(t.skip(d + 1), lo, hi) && num_val(t.take(d))
            <= num_val(t.skip(d + 1))
    }
}

/// One cron field over the inclusive domain `lo..=hi`: `*`, a step `*/n`
/// with `n >= 1`, or a non-empty comma-separated list of values and
/// ranges.
pub open spec fn field_ok(t: Seq<char>, lo: int, hi: int) -> bool {
    ||| t == seq!['*']
    ||| (t.len() >= 3 && t[0] == '*' && t[1] == '/' && is_number(t.skip(2)) && 1 <= num_val(
        t.skip(2),
    ))
    ||| (forall|i: int|
        0 <= i < split_sep(t, ',').len() ==> is_elem(#[trigger] split_sep(t, ',')[i], lo, hi))
}

/// A well-formed 5-field schedule: minute, hour, day of month, month,
/// day of week.
pub open spec fn valid_schedule(s: Seq<char>) -> bool {
    let f = split_ws(s);
    &&& f.len() == 5
    &&& field_ok(f[0], 0, 59)
    &&& field_ok(f[1], 0, 23)
    &&& field_ok(f[2], 1, 31)
    &&& field_ok(f[3], 1, 12)
    &&& field_ok(f[4], 0, 7)
}

// ---------------------------------------------------------------------
// executable checks
// ---------------------------------------------------------------------

fn is_digit_exec(c: char) -> (r: bool)
    ensures
        r == is_digit(c),
{
    '0' <= c && c <= '9'
}

/// Parses a one- or two-digit literal value.
fn parse_value(t: &str) -> (r: Option<u32>)
    ensures
        r is Some <==> is_number(t@),
        r is Some ==> r->Some_0 == num_val(t@),
{
    let n = t.unicode_len();
    if n == 1 {
        let c = t.get_char(0);
        if is_digit_exec(c) {
            proof {
                assert(t@.drop_last() =~= Seq::<char>::empty());
                assert(t@.last() == c);
                assert(num_val(Seq::<char>::empty()) == 0);
                assert(num_val(t@) == c as u32 - '0' as u32);
            }
            Some((c as u32) - ('0' as u32))
        } else {
            None
        }
    } else if n == 2 {
        let c0 = t.get_char(0);
        let c1 = t.get_char(1);
        if is_digit_exec(c0) && is_digit_exec(c1) {
            proof {
                assert(t@.drop_last() =~= t@.take(1));
                assert(t@.take(1).drop_last() =~= Seq::<char>::empty());
                assert(t@.take(1).last() == c0);
                assert(t@.last() == c1);
                assert(num_val(Seq::<char>::empty()) == 0);
                assert(num_val(t@.take(1)) == c0 as u32 - '0' as u32);
                assert(num_val(t@) == (c0 as u32 - '0' as u32) * 10 + (c1 as u32 - '0' as u32));
            }
            Some(((c0 as u32) - ('0' as u32)) * 10 + ((c1 as u32) - ('0' as u32)))
        } else {
            proof {
                if all_digits(t@) {
                    assert(is_digit(t@[0]) && is_digit(t@[1]));
                }
            }
            None
        }
    } else {
        None
    }
}

/// The first dash index lies in `0..=t.len()` and marks a dash.
proof fn lemma_first_dash_bounds(t: Seq<char>)
    ensures
        0 <= first_dash(t) <= t.len(),
        first_dash(t) < t.len() ==> t[first_dash(t)] == '-',
    decreases t.len(),
{
    if t.len() == 0 {
    } else if t[0] == '-' {
    } else {
        lemma_first_dash_bounds(t.drop_first());
    }
}

/// No list element begins with `*`.
proof fn lemma_elem_star_false(e: Seq<char>, lo: int, hi: int)
    requires
        e.len() > 0,
        e[0] == '*',
    ensures
        !is_elem(e, lo, hi),
{
    let d = first_dash(e);
    lemma_first_dash_bounds(e);
    if d == e.len() {
        assert(!is_digit(e[0]));
    } else {
        if d == 0 {
            assert(e.take(0).len() == 0);
        } else {
            assert(e.take(d)[0] == e[0]);
            assert(!is_digit(e.take(d)[0]));
        }
    }
}

/// Checks one list element against the domain.
fn elem_ok(t: &str, lo: u32, hi: u32) -> (r: bool)
    ensures
        r == is_elem(t@, lo as int, hi as int),
{
    let n = t.unicode_len();
    let mut d: usize = 0;
    proof {
        assert(t@.skip(0) =~= t@);
    }
    while d < n && t.get_char(d) != '-'
        invariant
            d <= n,
            n == t@.len(),
            first_dash(t@) == d + first_dash(t@.skip(d as int)),
        decreases n - d,
    {
        proof {
            assert(t@.skip(d as int)[0] == t@[d as int]);
            assert(t@.skip(d as int).drop_first() =~= t@.skip(d as int + 1));
        }
        d = d + 1;
    }
    proof {
        if d < n {
            assert(t@.skip(d as int)[0] == t@[d as int]);
        }
        assert(first_dash(t@) == d as int);
    }
    if d == n {
        match parse_value(t) {
            Some(v) => lo <= v && v <= hi,
            None => false,
        }
    } else {
        let a = t.substring_char(0, d);
        let b = t.substring_char(d + 1, n);
        proof {
            assert(a@ =~= t@.take(d as int));
            assert(b@ =~= t@.skip(d as int + 1));
        }
        match (parse_value(a), parse_value(b)) {
            (Some(va), Some(vb)) => lo <= va && va <= hi && lo <= vb && vb <= hi && va <= vb,
            _ => false,
        }
    }
}

/// Checks one cron field against the domain `lo..=hi`.
fn field_ok_exec(t: &str, lo: u32, hi: u32) -> (r: bool)
    ensures
        r == field_ok(t@, lo as int, hi as int),
{
    let n = t.unicode_len();
    if n == 0 {
        proof {
            assert(split_sep(t@, ',')[0] =~= Seq::<char>::empty());
            assert(!is_elem(split_sep(t@, ',')[0], lo as int, hi as int));
        }
        return false;
    }
    let c0 = t.get_char(0);
    if c0 == '*' {
        proof {
            crate::text::lemma_split_sep_first(t@, ',');
            lemma_elem_star_false(split_sep(t@, ',')[0], lo as int, hi as int);
        }
        if n == 1 {
            proof {
                assert(t@ =~= seq!['*']);
            }
            return true;
        }
        if n >= 3 && t.get_char(1) == '/' {
            let rest = t.substring_char(2, n);
            proof {
                assert(rest@ =~= t@.skip(2));
                assert(t@ != seq!['*']);
            }
            match parse_value(rest) {
                Some(v) => {
                    return v >= 1;
                },
                None => {
                    return false;
                },
            }
        }
        proof {
            assert(t@ != seq!['*']);
        }
        return false;
    }
    proof {
        assert(t@ != seq!['*']);
    }
    let elems = split_on_char(t, ',');
    let m = elems.len();
    let mut i: usize = 0;
    while i < m
        invariant
            i <= m,
            m == split_sep(t@, ',').len(),
            views_of(elems@) == split_sep(t@, ','),
            elems@.len() == m,
            t@.len() > 0,
            t@[0] != '*',
            forall|k: int| 0 <= k < i ==> is_elem(#[trigger] split_sep(t@, ',')[k], lo as int, hi as int),
        decreases m - i,
    {
        proof {
            assert(views_of(elems@)[i as int] == elems@[i as int]@);
        }
        if !elem_ok(elems[i].as_str(), lo, hi) {
            return false;
        }
        i = i + 1;
    }
    true
}

/// Whether `cron_expr` is a well-formed 5-field schedule.
pub fn validate(cron_expr: &str) -> (r: bool)
    ensures
        r == valid_schedule(cron_expr@),
{
    let toks = split_whitespace_tokens(cron_expr);
    if toks.len() != 5 {
        return false;
    }
    let r = field_ok_exec(toks[0].as_str(), 0, 59) && field_ok_exec(toks[1].as_str(), 0, 23)
        && field_ok_exec(toks[2].as_str(), 1, 31) && field_ok_exec(toks[3].as_str(), 1, 12)
        && field_ok_exec(toks[4].as_str(), 0, 7);
    r
}

} // verus!
