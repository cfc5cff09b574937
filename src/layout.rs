//! Text layout of a 3x3 matrix: the nine entries, already written out, are
//! padded to a common width per column and framed.
//!
//! ```text
//! --       --
//! | 1  0 -2 |
//! | 10 5 0  |
//! | 0  0 1  |
//! --       --
//! ```

use vstd::prelude::*;
use vstd::string::{StrSliceExecFns, StringExecFns};
use crate::style::push_char;

verus! {

/// Width of column `c`: the longest of its three entries (row-major `e`).
pub open spec fn column_width(e: Seq<Seq<char>>, c: int) -> nat {
    let a = e[c].len();
    let b = e[3 + c].len();
    let d = e[6 + c].len();
    if a >= b && a >= d {
        a
    } else if b >= d {
        b
    } else {
        d
    }
}

pub open spec fn spaces(n: nat) -> Seq<char> {
    Seq::new(n, |i: int| ' ')
}

/// `s` followed by spaces up to width `w`.
pub open spec fn padded(s: Seq<char>, w: nat) -> Seq<char> {
    s + spaces((w - s.len()) as nat)
}

/// Row `r`: its three entries padded to their column widths, one space
/// between each.
pub open spec fn row_text(e: Seq<Seq<char>>, r: int) -> Seq<char> {
    padded(e[3 * r], column_width(e, 0)) + seq![' '] + padded(e[3 * r + 1], column_width(e, 1))
        + seq![' '] + padded(e[3 * r + 2], column_width(e, 2))
}

/// The top and bottom rule: as wide as a framed row.
pub open spec fn rule_text(e: Seq<Seq<char>>) -> Seq<char> {
    seq!['-', '-'] + spaces(column_width(e, 0) + column_width(e, 1) + column_width(e, 2) + 2)
        + seq!['-', '-']
}

/// A framed row.
pub open spec fn framed_row(e: Seq<Seq<char>>, r: int) -> Seq<char> {
    seq!['|', ' '] + row_text(e, r) + seq![' ', '|']
}

/// The whole framed matrix, five lines.
pub open spec fn matrix_text(e: Seq<Seq<char>>) -> Seq<char> {
    rule_text(e) + seq!['\n'] + framed_row(e, 0) + seq!['\n'] + framed_row(e, 1) + seq!['\n']
        + framed_row(e, 2) + seq!['\n'] + rule_text(e)
}

/// Largest entry length accepted; it keeps the widths' sum inside `usize`.
pub const ENTRY_LIMIT: usize = 0xffff;

fn push_spaces(out: &mut String, n: usize)
    ensures
        final(out)@ == old(out)@ + spaces(n as nat),
{
    let ghost start = out@;
    let mut i: usize = 0;
    while i < n
        invariant
            i <= n,
            out@ == start + spaces(i as nat),
        decreases n - i,
    {
        push_char(out, ' ');
        i = i + 1;
        assert(out@ =~= start + spaces(i as nat));
    }
}

fn append_padded(out: &mut String, s: &String, w: usize)
    requires
        s@.len() <= w,
    ensures
        final(out)@ == old(out)@ + padded(s@, w as nat),
{
    let ghost start = out@;
    out.append(s.as_str());
    let n = s.as_str().unicode_len();
    push_spaces(out, w - n);
    assert(out@ =~= start + padded(s@, w as nat));
}

fn max3(a: usize, b: usize, c: usize) -> (r: usize)
    ensures
        r == (if a >= b && a >= c {
            a
        } else if b >= c {
            b
        } else {
            c
        }),
{
    if a >= b && a >= c {
        a
    } else if b >= c {
        b
    } else {
        c
    }
}

/// Lays out the nine entries of a matrix, given row by row, as a framed
/// grid whose columns are padded to their longest entry.
pub fn matrix_grid_text(entries: &Vec<String>) -> (r: String)
    requires
        entries@.len() == 9,
        forall|i: int| 0 <= i < 9 ==> (#[trigger] entries@[i])@.len() <= ENTRY_LIMIT,
    ensures
        r@ == matrix_text(entries.deep_view()),
{
    let ghost e = entries.deep_view();
    let mut widths: Vec<usize> = Vec::new();
    let mut c: usize = 0;
    while c < 3
        invariant
            c <= 3,
            entries@.len() == 9,
            e == entries.deep_view(),
            widths@.len() == c,
            forall|j: int| 0 <= j < c ==> widths@[j] == column_width(e, j),
            forall|i: int| 0 <= i < 9 ==> (#[trigger] entries@[i])@.len() <= ENTRY_LIMIT,
        decreases 3 - c,
    {
        let w = max3(
            entries[c].as_str().unicode_len(),
            entries[3 + c].as_str().unicode_len(),
            entries[6 + c].as_str().unicode_len(),
        );
        widths.push(w);
        c = c + 1;
    }
    assert(forall|j: int| 0 <= j < 3 ==> widths@[j] <= ENTRY_LIMIT) by {
        assert forall|j: int| 0 <= j < 3 implies widths@[j] <= ENTRY_LIMIT by {
            assert(e[j] == entries@[j]@);
            assert(e[3 + j] == entries@[3 + j]@);
            assert(e[6 + j] == entries@[6 + j]@);
            assert(entries@[j]@.len() <= ENTRY_LIMIT);
            assert(entries@[3 + j]@.len() <= ENTRY_LIMIT);
            assert(entries@[6 + j]@.len() <= ENTRY_LIMIT);
            assert(widths@[j] == column_width(e, j));
        }
    }
    let total = widths[0] + widths[1] + widths[2] + 2;
    let mut out = String::new();
    push_rule(&mut out, total);
    append_framed_row(&mut out, entries, &widths, 0);
    append_framed_row(&mut out, entries, &widths, 1);
    append_framed_row(&mut out, entries, &widths, 2);
    push_char(&mut out, '\n');
    push_rule(&mut out, total);
    assert(out@ =~= matrix_text(e));
    out
}

fn push_rule(out: &mut String, n: usize)
    ensures
        final(out)@ == old(out)@ + seq!['-', '-'] + spaces(n as nat) + seq!['-', '-'],
{
    let ghost start = out@;
    push_char(out, '-');
    push_char(out, '-');
    push_spaces(out, n);
    push_char(out, '-');
    push_char(out, '-');
    assert(out@ =~= start + seq!['-', '-'] + spaces(n as nat) + seq!['-', '-']);
}

fn append_framed_row(out: &mut String, entries: &Vec<String>, widths: &Vec<usize>, r: usize)
    requires
        r < 3,
        entries@.len() == 9,
        widths@.len() == 3,
        forall|j: int| 0 <= j < 3 ==> widths@[j] == column_width(entries.deep_view(), j),
    ensures
        final(out)@ == old(out)@ + seq!['\n'] + framed_row(entries.deep_view(), r as int),
{
    let ghost e = entries.deep_view();
    let ghost start = out@;
    assert(e[3 * r as int] == entries@[3 * r as int]@);
    assert(e[3 * r + 1] == entries@[3 * r + 1]@);
    assert(e[3 * r + 2] == entries@[3 * r + 2]@);
    push_char(out, '\n');
    push_char(out, '|');
    push_char(out, ' ');
    append_padded(out, &entries[3 * r], widths[0]);
    push_char(out, ' ');
    append_padded(out, &entries[3 * r + 1], widths[1]);
    push_char(out, ' ');
    append_padded(out, &entries[3 * r + 2], widths[2]);
    push_char(out, ' ');
    push_char(out, '|');
    assert(out@ =~= start + seq!['\n'] + framed_row(e, r as int));
}

} // verus!
