//! Size formatting and report rendering.
//!
//! Two mutually exclusive size-formatting strategies: a human-readable
//! field that repeatedly divides by 1000 and appends a unit suffix from
//! B, K, M, G, T (values truncated, never rounded), and a raw decimal
//! byte count. Both are display-only: they never feed back into any sum.

use vstd::prelude::*;
use vstd::string::StrSliceExecFns;
use vstd::string::StringExecFns;
use crate::aggregate::ErrorLine;
use crate::report::Report;

verus! {

/// The decimal digit character for `d` (`d < 10`).
pub open spec fn digit_char(d: nat) -> char {
    if d == 0 {
        '0'
    } else if d == 1 {
        '1'
    } else if d == 2 {
        '2'
    } else if d == 3 {
        '3'
    } else if d == 4 {
        '4'
    } else if d == 5 {
        '5'
    } else if d == 6 {
        '6'
    } else if d == 7 {
        '7'
    } else if d == 8 {
        '8'
    } else {
        '9'
    }
}

/// The decimal rendering of `n`, most significant digit first, with no
/// leading zeros (a single `'0'` for zero).
pub open spec fn spec_decimal(n: nat) -> Seq<char>
    decreases n,
{
    if n < 10 {
        seq![digit_char(n)]
    } else {
        spec_decimal(n / 10).push(digit_char(n % 10))
    }
}

/// `k` space characters.
pub open spec fn spaces(k: nat) -> Seq<char>
    decreases k,
{
    if k == 0 {
        seq![]
    } else {
        spaces((k - 1) as nat).push(' ')
    }
}

/// `s` right-justified to width `w`: spaces in front when `s` is shorter,
/// `s` unchanged when it already is at least `w` long.
pub open spec fn pad_left(s: Seq<char>, w: nat) -> Seq<char> {
    if s.len() >= w {
        s
    } else {
        spaces((w - s.len()) as nat) + s
    }
}

/// The raw-byte field: the decimal byte count right-justified to width 12,
/// no suffix.
pub open spec fn spec_bytes_field(n: nat) -> Seq<char> {
    pad_left(spec_decimal(n), 12)
}

/// The human-readable field: the size repeatedly divided by 1000 until it
/// fits under 1000, the quotient truncated and right-justified to width 7,
/// then the unit suffix reached. Once the largest suffix `T` is reached no
/// further scaling occurs, and that overflow rendering is not padded.
pub open spec fn spec_human_field(n: nat) -> Seq<char> {
    if n < 1000 {
        pad_left(spec_decimal(n), 7).push('B')
    } else if n / 1000 < 1000 {
        pad_left(spec_decimal(n / 1000), 7).push('K')
    } else if n / 1000000 < 1000 {
        pad_left(spec_decimal(n / 1000000), 7).push('M')
    } else if n / 1000000000 < 1000 {
        pad_left(spec_decimal(n / 1000000000), 7).push('G')
    } else if n / 1000000000000 < 1000 {
        pad_left(spec_decimal(n / 1000000000000), 7).push('T')
    } else {
        spec_decimal(n / 1000000000000000).push('T')
    }
}

/// The field a size is rendered as under the chosen strategy.
pub open spec fn spec_size_field(n: nat, bytes_only: bool) -> Seq<char> {
    if bytes_only {
        spec_bytes_field(n)
    } else {
        spec_human_field(n)
    }
}

fn digit_str(d: u64) -> (r: &'static str)
    requires
        d < 10,
    ensures
        r@ == seq![digit_char(d as nat)],
{
    proof {
        reveal_strlit("0");
        reveal_strlit("1");
        reveal_strlit("2");
        reveal_strlit("3");
        reveal_strlit("4");
        reveal_strlit("5");
        reveal_strlit("6");
        reveal_strlit("7");
        reveal_strlit("8");
        reveal_strlit("9");
    }
    if d == 0 {
        "0"
    } else if d == 1 {
        "1"
    } else if d == 2 {
        "2"
    } else if d == 3 {
        "3"
    } else if d == 4 {
        "4"
    } else if d == 5 {
        "5"
    } else if d == 6 {
        "6"
    } else if d == 7 {
        "7"
    } else if d == 8 {
        "8"
    } else {
        "9"
    }
}

/// Appends the decimal rendering of `n` to `out`.
fn append_decimal(out: &mut String, n: u64)
    ensures
        final(out)@ == old(out)@ + spec_decimal(n as nat),
    decreases n,
{
    if n >= 10 {
        append_decimal(out, n / 10);
        out.append(digit_str(n % 10));
        proof {
            assert(out@ =~= old(out)@ + spec_decimal(n as nat));
        }
    } else {
        out.append(digit_str(n));
        proof {
            assert(out@ =~= old(out)@ + spec_decimal(n as nat));
        }
    }
}

/// The decimal rendering of `n`, right-justified to `width`.
fn decimal_field(n: u64, width: usize) -> (r: String)
    ensures
        r@ == pad_left(spec_decimal(n as nat), width as nat),
{
    let mut digits = String::new();
    append_decimal(&mut digits, n);
    proof {
        assert(digits@ =~= spec_decimal(n as nat));
    }
    let dlen: usize = digits.as_str().unicode_len();
    let mut out = String::new();
    let mut k: usize = dlen;
    while k < width
        invariant
            dlen <= k <= vstd::math::max(width as int, dlen as int),
            dlen == spec_decimal(n as nat).len(),
            out@ == spaces((k - dlen) as nat),
        decreases width - k,
    {
        proof {
            reveal_strlit(" ");
        }
        out.append(" ");
        proof {
            assert(out@ =~= spaces((k + 1 - dlen) as nat));
        }
        k = k + 1;
    }
    out.append(digits.as_str());
    proof {
        assert(out@ =~= pad_left(spec_decimal(n as nat), width as nat));
    }
    out
}

/// Renders a size as its raw decimal byte count, right-justified to a
/// fixed width of 12, no suffix.
pub fn bytes_to_string(size: u64) -> (r: String)
    ensures
        r@ == spec_bytes_field(size as nat),
{
    decimal_field(size, 12)
}

/// Renders a size as a truncated, right-justified value with a unit suffix
/// from B, K, M, G, T, scaling by factors of 1000.
pub fn bytes_to_humanreadable(size: u64) -> (r: String)
    ensures
        r@ == spec_human_field(size as nat),
{
    let mut out: String;
    let suffix: &'static str;
    if size < 1000 {
        out = decimal_field(size, 7);
        suffix = "B";
        proof {
            reveal_strlit("B");
            assert(out@ + suffix@ =~= spec_human_field(size as nat));
        }
    } else if size / 1000 < 1000 {
        out = decimal_field(size / 1000, 7);
        suffix = "K";
        proof {
            reveal_strlit("K");
            assert(out@ + suffix@ =~= spec_human_field(size as nat));
        }
    } else if size / 1000000 < 1000 {
        out = decimal_field(size / 1000000, 7);
        suffix = "M";
        proof {
            reveal_strlit("M");
            assert(out@ + suffix@ =~= spec_human_field(size as nat));
        }
    } else if size / 1000000000 < 1000 {
        out = decimal_field(size / 1000000000, 7);
        suffix = "G";
        proof {
            reveal_strlit("G");
            assert(out@ + suffix@ =~= spec_human_field(size as nat));
        }
    } else if size / 1000000000000 < 1000 {
        out = decimal_field(size / 1000000000000, 7);
        suffix = "T";
        proof {
            reveal_strlit("T");
            assert(out@ + suffix@ =~= spec_human_field(size as nat));
        }
    } else {
        let mut digits = String::new();
        append_decimal(&mut digits, size / 1000000000000000);
        out = digits;
        suffix = "T";
        proof {
            reveal_strlit("T");
            assert(out@ + suffix@ =~= spec_human_field(size as nat));
        }
    }
    out.append(suffix);
    out
}

/// One printed entry row: the size field right-justified to at least 7,
/// one space, the path.
pub open spec fn spec_entry_line(size_field: Seq<char>, path: Seq<char>) -> Seq<char> {
    pad_left(size_field, 7) + seq![' '] + path
}

/// The trailing total row: the size field right-justified to at least 7,
/// then ` total`.
pub open spec fn spec_total_line(size_field: Seq<char>) -> Seq<char> {
    pad_left(size_field, 7) + " total"@
}

/// One line of the error channel: `<path>: <description>`.
pub open spec fn spec_error_line(path: Seq<char>, msg: Seq<char>) -> Seq<char> {
    path + ": "@ + msg
}

/// Right-justifies an already rendered field to width 7, as every printed
/// row does.
fn pad_line_field(field: String) -> (r: String)
    ensures
        r@ == pad_left(field@, 7),
{
    let flen: usize = field.as_str().unicode_len();
    let mut out = String::new();
    let mut k: usize = flen;
    while k < 7
        invariant
            flen <= k <= vstd::math::max(7int, flen as int),
            flen == field@.len(),
            out@ == spaces((k - flen) as nat),
        decreases 7int - k,
    {
        proof {
            reveal_strlit(" ");
        }
        out.append(" ");
        proof {
            assert(out@ =~= spaces((k + 1 - flen) as nat));
        }
        k = k + 1;
    }
    out.append(field.as_str());
    proof {
        assert(out@ =~= pad_left(field@, 7));
    }
    out
}

/// Renders one entry row for a path and its already formatted size field.
fn render_entry_line(field: String, path: &String) -> (r: String)
    ensures
        r@ == spec_entry_line(field@, path@),
{
    let mut out = pad_line_field(field);
    proof {
        reveal_strlit(" ");
    }
    out.append(" ");
    out.append(path.as_str());
    proof {
        assert(out@ =~= spec_entry_line(field@, path@));
    }
    out
}

/// Renders one error-channel line for a recoverable error.
pub fn render_error_line(e: &ErrorLine) -> (r: String)
    ensures
        r@ == spec_error_line(e.path@, e.msg@),
{
    let mut out = e.path.clone();
    out.append(": ");
    out.append(e.msg.as_str());
    proof {
        assert(out@ =~= spec_error_line(e.path@, e.msg@));
    }
    out
}

/// Renders a finished report as its printed lines: one row per entry in
/// ranked order, a blank line, then the total row, all under the chosen
/// size-formatting strategy.
pub fn render_report(report: &Report, bytes_only: bool) -> (lines: Vec<String>)
    ensures
        lines@.len() == report.entries@.len() + 2,
        forall|i: int|
            0 <= i < report.entries@.len() ==> lines@[i]@ == spec_entry_line(
                spec_size_field(report.entries@[i].size as nat, bytes_only),
                report.entries@[i].path@,
            ),
        lines@[report.entries@.len() as int]@ == Seq::<char>::empty(),
        lines@[report.entries@.len() as int + 1]@ == spec_total_line(
            spec_size_field(report.total as nat, bytes_only),
        ),
{
    let mut lines: Vec<String> = Vec::new();
    let mut i: usize = 0;
    while i < report.entries.len()
        invariant
            i <= report.entries@.len(),
            lines@.len() == i,
            forall|j: int|
                0 <= j < i ==> lines@[j]@ == spec_entry_line(
                    spec_size_field(report.entries@[j].size as nat, bytes_only),
                    report.entries@[j].path@,
                ),
        decreases report.entries@.len() - i,
    {
        let entry = &report.entries[i];
        let field = if bytes_only {
            bytes_to_string(entry.size)
        } else {
            bytes_to_humanreadable(entry.size)
        };
        let line = render_entry_line(field, &entry.path);
        lines.push(line);
        i = i + 1;
    }
    lines.push(String::new());
    let total_field = if bytes_only {
        bytes_to_string(report.total)
    } else {
        bytes_to_humanreadable(report.total)
    };
    let mut total_line = pad_line_field(total_field);
    total_line.append(" total");
    proof {
        assert(total_line@ =~= spec_total_line(spec_size_field(report.total as nat, bytes_only)));
    }
    lines.push(total_line);
    lines
}

} // verus!
