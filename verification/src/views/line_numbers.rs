//! Text with its lines numbered, as the query of a projection is shown.

use vstd::prelude::*;
use vstd::string::*;
use crate::text::{chars_of, decimal, push_char, push_decimal, push_repeated, text_between};

verus! {

/// The line ends at `n`: no line feed stands before `n`, and at `n` stands a
/// line feed or the end of the text.
pub open spec fn line_ends_at(text: Seq<char>, n: int) -> bool {
    &&& 0 <= n <= text.len()
    &&& forall|k: int| 0 <= k < n ==> text[k] != '\n'
    &&& n == text.len() || text[n] == '\n'
}

/// Where the first line of a text ends.
pub open spec fn first_line_end(text: Seq<char>) -> int {
    choose|n: int| line_ends_at(text, n)
}

/// A line without the carriage return that stood before its line feed.
pub open spec fn without_carriage_return(line: Seq<char>) -> Seq<char> {
    if line.len() > 0 && line.last() == '\r' {
        line.drop_last()
    } else {
        line
    }
}

/// The lines of a text. A line ends with a line feed, or with a carriage
/// return and a line feed, neither of which belongs to the line; the last
/// line may end with the text, and then a carriage return at its end
/// belongs to it. An empty text has no lines.
pub open spec fn lines_of(text: Seq<char>) -> Seq<Seq<char>>
    decreases text.len(),
{
    if text.len() == 0 {
        Seq::empty()
    } else {
        let n = first_line_end(text);
        if !line_ends_at(text, n) {
            Seq::empty()
        } else if n == text.len() {
            seq![text]
        } else {
            seq![without_carriage_return(text.take(n))] + lines_of(text.skip(n + 1))
        }
    }
}

/// A line ends in one place only.
pub proof fn lemma_line_end_unique(text: Seq<char>, n: int)
    requires
        line_ends_at(text, n),
    ensures
        first_line_end(text) == n,
{
    let m = first_line_end(text);
    assert(line_ends_at(text, m));
    if m < n {
        assert(text[m] == '\n');
    } else if n < m {
        assert(text[n] == '\n');
    }
}

/// Number of digits of the decimal numeral of a number.
pub open spec fn digits(n: nat) -> nat
    decreases n,
{
    if n < 10 {
        1
    } else {
        1 + digits(n / 10)
    }
}

/// The decimal numeral of a number has as many characters as the number has
/// digits.
pub proof fn lemma_digits_of_decimal(n: nat)
    ensures
        decimal(n).len() == digits(n),
    decreases n,
{
    if n >= 10 {
        lemma_digits_of_decimal(n / 10);
    }
}

/// A greater number has no fewer digits.
pub proof fn lemma_digits_monotonic(a: nat, b: nat)
    requires
        a <= b,
    ensures
        digits(a) <= digits(b),
    decreases b,
{
    if b >= 10 {
        if a >= 10 {
            lemma_digits_monotonic(a / 10, b / 10);
        }
    }
}

/// As many spaces as `count`.
pub open spec fn spaces(count: nat) -> Seq<char> {
    Seq::new(count, |i: int| ' ')
}

/// One numbered line: the number, filled up with spaces on the left to
/// `width` characters, a bar between spaces, and the line.
pub open spec fn numbered_line(number: nat, width: nat, line: Seq<char>) -> Seq<char> {
    spaces((width - digits(number)) as nat) + decimal(number) + seq![' ', '|', ' '] + line
}

/// The first `upto` lines, numbered from one, each number as wide as the
/// number of the last of all lines, with a line feed between two lines.
pub open spec fn numbered(lines: Seq<Seq<char>>, upto: nat) -> Seq<char>
    decreases upto,
{
    if upto == 0 {
        Seq::empty()
    } else {
        numbered(lines, (upto - 1) as nat) + (if upto > 1 {
            seq!['\n']
        } else {
            Seq::empty()
        }) + numbered_line(upto, digits(lines.len()), lines[upto - 1])
    }
}

/// A text with its lines numbered.
pub open spec fn with_line_numbers(text: Seq<char>) -> Seq<char> {
    numbered(lines_of(text), lines_of(text).len())
}

/// Number of digits of the decimal numeral of a number.
pub fn count_digits(n: usize) -> (d: usize)
    ensures
        d == digits(n as nat),
        d == decimal(n as nat).len(),
{
    proof {
        lemma_digits_of_decimal(n as nat);
    }
    let mut d: usize = 1;
    let mut rest: usize = n;
    while rest >= 10
        invariant
            d + digits(rest as nat) == 1 + digits(n as nat),
            d + rest <= n + 1,
        decreases rest,
    {
        rest = rest / 10;
        d = d + 1;
    }
    d
}

/// The lines of a text.
pub fn split_lines(content: &str) -> (lines: Vec<String>)
    ensures
        lines.deep_view() == lines_of(content@),
{
    let chars = chars_of(content);
    let mut lines: Vec<String> = Vec::new();
    let mut start: usize = 0;
    assert(chars@.skip(0) =~= chars@);
    assert(lines.deep_view() =~= Seq::<Seq<char>>::empty());
    while start < chars.len()
        invariant
            start <= chars.len(),
            chars@ == content@,
            lines_of(content@) == lines.deep_view() + lines_of(chars@.skip(start as int)),
        decreases chars.len() - start,
    {
        let ghost rest = chars@.skip(start as int);
        let mut end: usize = start;
        while end < chars.len() && chars[end] != '\n'
            invariant
                start <= end <= chars.len(),
                forall|k: int| start <= k < end ==> chars@[k] != '\n',
            decreases chars.len() - end,
        {
            end = end + 1;
        }
        proof {
            assert(line_ends_at(rest, end - start)) by {
                assert forall|k: int| 0 <= k < end - start implies rest[k] != '\n' by {
                    assert(rest[k] == chars@[start + k]);
                }
                if end < chars.len() {
                    assert(rest[end - start] == chars@[end as int]);
                }
            }
            lemma_line_end_unique(rest, end - start);
        }
        let ghost before = lines.deep_view();
        if end == chars.len() {
            let line = text_between(&chars, start, end);
            proof {
                assert(line@ =~= rest);
                assert(rest.skip(rest.len() as int).len() == 0);
                assert(chars@.skip(end as int).len() == 0);
            }
            lines.push(line);
            proof {
                assert(lines.deep_view() =~= before.push(rest));
                assert(lines_of(rest) =~= seq![rest]);
                assert(lines_of(chars@.skip(end as int)) =~= Seq::<Seq<char>>::empty());
                assert(before + lines_of(rest) =~= lines.deep_view() + lines_of(
                    chars@.skip(end as int),
                ));
            }
            start = end;
        } else {
            let stop: usize = if end > start && chars[end - 1] == '\r' {
                end - 1
            } else {
                end
            };
            let line = text_between(&chars, start, stop);
            proof {
                let raw = rest.take(end - start);
                assert(raw =~= chars@.subrange(start as int, end as int));
                if raw.len() > 0 {
                    assert(raw.last() == chars@[end - 1]);
                }
                assert(line@ =~= without_carriage_return(raw));
                assert(rest.skip(end - start + 1) =~= chars@.skip(end + 1));
            }
            lines.push(line);
            proof {
                assert(lines.deep_view() =~= before.push(line@));
                assert(lines_of(rest) =~= seq![line@] + lines_of(chars@.skip(end + 1)));
                assert(before + lines_of(rest) =~= lines.deep_view() + lines_of(
                    chars@.skip(end + 1),
                ));
            }
            start = end + 1;
        }
    }
    proof {
        assert(chars@.skip(start as int).len() == 0);
        assert(lines.deep_view() + Seq::<Seq<char>>::empty() =~= lines.deep_view());
    }
    lines
}

/// A text with its lines numbered from one: each line after its number and
/// a bar, the numbers right-aligned, and a line feed between two lines.
pub fn render_line_numbers(content: &str) -> (buffer: String)
    ensures
        buffer@ == with_line_numbers(content@),
{
    let lines = split_lines(content);
    let line_count = lines.len();
    let num_width = count_digits(line_count);
    let mut buffer = String::new();
    let mut idx: usize = 0;
    let ghost shown = lines.deep_view();
    while idx < line_count
        invariant
            idx <= line_count,
            line_count == lines.len(),
            shown == lines.deep_view(),
            shown.len() == line_count,
            num_width == digits(line_count as nat),
            buffer@ == numbered(shown, idx as nat),
        decreases line_count - idx,
    {
        let line_num = idx + 1;
        let line_num_count = count_digits(line_num);
        proof {
            lemma_digits_monotonic(line_num as nat, line_count as nat);
            assert(shown[idx as int] == lines@[idx as int]@);
        }
        let ghost before = buffer@;
        if idx > 0 {
            push_char(&mut buffer, '\n');
        }
        let ghost separated = buffer@;
        push_repeated(&mut buffer, ' ', num_width - line_num_count);
        push_decimal(&mut buffer, line_num as u128);
        buffer.append(" | ");
        buffer.append(lines[idx].as_str());
        proof {
            reveal_strlit(" | ");
            assert(" | "@ =~= seq![' ', '|', ' ']);
            assert(buffer@ =~= separated + numbered_line(
                line_num as nat,
                num_width as nat,
                shown[idx as int],
            ));
            assert(separated =~= before + (if line_num > 1 {
                seq!['\n']
            } else {
                Seq::empty()
            }));
        }
        idx = idx + 1;
    }
    buffer
}

} // verus!
