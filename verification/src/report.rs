//! The line that the driver hands back for each test it has run:
//! `[<position>] <name>: <result>`, or `[<position>] <name>: ERROR - <error>`
//! when the test failed, the position written in decimal.
use vstd::prelude::*;

verus! {

/// The decimal digit for `d`, which is below 10.
pub open spec fn digit_char(d: nat) -> char {
    if d == 0 {
        '0'
    } else if d == 1 {
        '1'
    } else if d == 2 {
        '2'
    } else if d == 3 {
        '3'
    } else if d == 4 {
        '4'
    } else if d == 5 {
        '5'
    } else if d == 6 {
        '6'
    } else if d == 7 {
        '7'
    } else if d == 8 {
        '8'
    } else {
        '9'
    }
}

/// Whether `c` is a decimal digit.
pub open spec fn is_digit(c: char) -> bool {
    '0' <= c <= '9'
}

/// The number that a decimal digit stands for.
pub open spec fn digit_value(c: char) -> nat {
    (c as int - '0' as int) as nat
}

/// `n` written in decimal, without leading zeros: what `format!("{}", n)`
/// writes for an unsigned integer.
pub open spec fn decimal(n: nat) -> Seq<char>
    decreases n,
{
    if n < 10 {
        seq![digit_char(n)]
    } else {
        decimal(n / 10).push(digit_char(n % 10))
    }
}

/// The number that a string of decimal digits stands for.
pub open spec fn decimal_value(digits: Seq<char>) -> nat
    decreases digits.len(),
{
    if digits.len() == 0 {
        0
    } else {
        decimal_value(digits.drop_last()) * 10 + digit_value(digits.last())
    }
}

/// What came of running one test: its result, or the text of its error.
pub open spec fn outcome_view(outcome: &Result<String, String>) -> Result<Seq<char>, Seq<char>> {
    match outcome {
        Ok(result) => Ok(result@),
        Err(error) => Err(error@),
    }
}

/// The line for the test at position `index`, named `name`, with `outcome`.
pub open spec fn report_text(
    index: usize,
    name: Seq<char>,
    outcome: Result<Seq<char>, Seq<char>>,
) -> Seq<char> {
    let head = seq!['['] + decimal(index as nat) + seq![']', ' '] + name + seq![':', ' '];
    match outcome {
        Ok(result) => head + result,
        Err(error) => head + seq!['E', 'R', 'R', 'O', 'R', ' ', '-', ' '] + error,
    }
}

/// The one-character text of the digit `d`.
fn digit_text(d: usize) -> (text: &'static str)
    requires
        d < 10,
    ensures
        text@ == seq![digit_char(d as nat)],
{
    if d == 0 {
        proof {
            reveal_strlit("0");
        }
        "0"
    } else if d == 1 {
        proof {
            reveal_strlit("1");
        }
        "1"
    } else if d == 2 {
        proof {
            reveal_strlit("2");
        }
        "2"
    } else if d == 3 {
        proof {
            reveal_strlit("3");
        }
        "3"
    } else if d == 4 {
        proof {
            reveal_strlit("4");
        }
        "4"
    } else if d == 5 {
        proof {
            reveal_strlit("5");
        }
        "5"
    } else if d == 6 {
        proof {
            reveal_strlit("6");
        }
        "6"
    } else if d == 7 {
        proof {
            reveal_strlit("7");
        }
        "7"
    } else if d == 8 {
        proof {
            reveal_strlit("8");
        }
        "8"
    } else {
        proof {
            reveal_strlit("9");
        }
        "9"
    }
}

/// Appends `n`, written in decimal, to `out`.
fn push_decimal(out: &mut String, n: usize)
    ensures
        final(out)@ == old(out)@ + decimal(n as nat),
    decreases n,
{
    if n >= 10 {
        push_decimal(out, n / 10);
    }
    out.append(digit_text(n % 10));
    proof {
        if n < 10 {
            assert(decimal(n as nat) == seq![digit_char(n as nat)]);
        } else {
            assert(decimal(n as nat) == decimal((n / 10) as nat).push(digit_char((n % 10) as nat)));
        }
    }
}

/// The line that the driver hands back for the test at position `index`,
/// named `name`, that ended with `outcome`: `[index] name: result` when it
/// passed, `[index] name: ERROR - error` when it failed.
pub fn test_report(index: usize, name: &str, outcome: &Result<String, String>) -> (report: String)
    ensures
        report@ == report_text(index, name@, outcome_view(outcome)),
        outcome matches Ok(result) ==> report@ == seq!['['] + decimal(index as nat) + seq![']', ' ']
            + name@ + seq![':', ' '] + result@,
        outcome matches Err(error) ==> report@ == seq!['['] + decimal(index as nat) + seq![']', ' ']
            + name@ + seq![':', ' ', 'E', 'R', 'R', 'O', 'R', ' ', '-', ' '] + error@,
{
    let mut report = String::new();
    proof {
        reveal_strlit("[");
        reveal_strlit("] ");
        reveal_strlit(": ");
        reveal_strlit("ERROR - ");
    }
    report.append("[");
    push_decimal(&mut report, index);
    report.append("] ");
    report.append(name);
    report.append(": ");
    match outcome {
        Ok(result) => {
            report.append(result.as_str());
        },
        Err(error) => {
            report.append("ERROR - ");
            report.append(error.as_str());
        },
    }
    proof {
        assert(report@ =~= report_text(index, name@, outcome_view(outcome)));
    }
    report
}

/// The line for a passed test is `[index] name: ` followed by the result
/// itself, whatever the result holds: it has exactly the length of those
/// parts, it ends with the result, and just before the result stands `: `
/// (so no `ERROR - ` marker comes between the name and the result).
pub proof fn lemma_passed_line(index: usize, name: Seq<char>, result: Seq<char>)
    ensures
        ({
            let line = report_text(index, name, Ok(result));
            let digits = decimal(index as nat);
            let d: int = digits.len() as int;
            let head_len: int = d + name.len() + 5;
            &&& line.len() == head_len + result.len()
            &&& line.subrange(head_len, line.len() as int) == result
            &&& line[0] == '['
            &&& line.subrange(1, d + 1) == digits
            &&& line[d + 1] == ']'
            &&& line[d + 2] == ' '
            &&& line.subrange(d + 3, d + 3 + name.len()) == name
            &&& line[head_len - 2] == ':'
            &&& line[head_len - 1] == ' '
        }),
{
    let line = report_text(index, name, Ok(result));
    let digits = decimal(index as nat);
    let d: int = digits.len() as int;
    let head_len: int = d + name.len() + 5;
    assert(line =~= seq!['['] + digits + seq![']', ' '] + name + seq![':', ' '] + result);
    assert(line.subrange(head_len, line.len() as int) =~= result);
    assert(line.subrange(1, d + 1) =~= digits);
    assert(line.subrange(d + 3, d + 3 + name.len()) =~= name);
}

/// The line for a failed test is `[index] name: ERROR - ` followed by the
/// error text, whatever that text holds: it has exactly the length of those
/// parts, it ends with the error text, and `ERROR - ` stands right before it.
pub proof fn lemma_failed_line(index: usize, name: Seq<char>, error: Seq<char>)
    ensures
        ({
            let line = report_text(index, name, Err(error));
            let digits = decimal(index as nat);
            let d: int = digits.len() as int;
            let head_len: int = d + name.len() + 5;
            &&& line.len() == head_len + 8 + error.len()
            &&& line.subrange(head_len + 8, line.len() as int) == error
            &&& line.subrange(head_len, head_len + 8) == seq!['E', 'R', 'R', 'O', 'R', ' ', '-', ' ']
            &&& line[0] == '['
            &&& line.subrange(1, d + 1) == digits
            &&& line[d + 1] == ']'
            &&& line[d + 2] == ' '
            &&& line.subrange(d + 3, d + 3 + name.len()) == name
            &&& line[head_len - 2] == ':'
            &&& line[head_len - 1] == ' '
        }),
{
    let line = report_text(index, name, Err(error));
    let digits = decimal(index as nat);
    let d: int = digits.len() as int;
    let head_len: int = d + name.len() + 5;
    assert(line =~= seq!['['] + digits + seq![']', ' '] + name + seq![':', ' ']
        + seq!['E', 'R', 'R', 'O', 'R', ' ', '-', ' '] + error);
    assert(line.subrange(head_len + 8, line.len() as int) =~= error);
    assert(line.subrange(head_len, head_len + 8) =~= seq!['E', 'R', 'R', 'O', 'R', ' ', '-', ' ']);
    assert(line.subrange(1, d + 1) =~= digits);
    assert(line.subrange(d + 3, d + 3 + name.len()) =~= name);
}

/// A failed test never reads as a passed one: for the same position, name
/// and text, the line for a failure differs from the line for a pass, and is
/// longer by exactly the `ERROR - ` marker.
pub proof fn lemma_failure_differs_from_pass(index: usize, name: Seq<char>, text: Seq<char>)
    ensures
        report_text(index, name, Err(text)) != report_text(index, name, Ok(text)),
        report_text(index, name, Err(text)).len() == report_text(index, name, Ok(text)).len() + 8,
{
    lemma_passed_line(index, name, text);
    lemma_failed_line(index, name, text);
}

/// The digit for `d` is a digit and stands for `d`.
proof fn lemma_digit_char(d: nat)
    requires
        d < 10,
    ensures
        is_digit(digit_char(d)),
        digit_value(digit_char(d)) == d,
        d > 0 ==> digit_char(d) != '0',
{
}

/// Every character of `decimal(n)` is a digit, the first one is `0` only
/// for `n == 0`, and the digits stand for `n`: `decimal` is the usual
/// decimal notation.
pub proof fn lemma_decimal_is_notation(n: nat)
    ensures
        decimal(n).len() >= 1,
        forall|i: int| 0 <= i < decimal(n).len() ==> is_digit(#[trigger] decimal(n)[i]),
        n > 0 ==> decimal(n)[0] != '0',
        decimal_value(decimal(n)) == n,
    decreases n,
{
    if n < 10 {
        lemma_digit_char(n);
        let d = decimal(n);
        assert(d == seq![digit_char(n)]);
        assert(d.drop_last() =~= Seq::<char>::empty());
        assert(decimal_value(d.drop_last()) == 0);
        assert(d.last() == digit_char(n));
    } else {
        lemma_digit_char(n % 10);
        lemma_decimal_is_notation(n / 10);
        let d = decimal(n);
        assert(d == decimal(n / 10).push(digit_char(n % 10)));
        assert(d.drop_last() =~= decimal(n / 10));
        assert(d[0] == decimal(n / 10)[0]);
        assert forall|i: int| 0 <= i < d.len() implies is_digit(#[trigger] d[i]) by {
            if i < d.len() - 1 {
                assert(d[i] == decimal(n / 10)[i]);
            }
        }
        assert(d.last() == digit_char(n % 10));
        assert(decimal_value(d) == decimal_value(decimal(n / 10)) * 10 + digit_value(d.last()));
        assert(n == (n / 10) * 10 + n % 10);
    }
}

/// Two numbers with the same decimal notation are equal: the position
/// written in a line names one test.
pub proof fn lemma_decimal_injective(m: nat, n: nat)
    requires
        decimal(m) == decimal(n),
    ensures
        m == n,
{
    lemma_decimal_is_notation(m);
    lemma_decimal_is_notation(n);
}

} // verus!
