//! From a utilisation value to the fill and the label of a gauge.
//!
//! Values are fixed-point numbers: an `i64` counts tenths of a percent, so
//! that `125` stands for 12.5 %. A source may report values below zero or
//! above a hundred percent; the fill is held to the gauge, the label shows the
//! value as it came.

use vstd::prelude::*;
use vstd::string::*;

verus! {

/// The fill of a full gauge, in thousandths.
pub const FULL_SCALE: u16 = 1000;

/// One observed unit and its utilisation.
#[derive(Clone, Debug, PartialEq, Eq)]
pub struct MetricSample {
    /// Name of the unit, such as that of a CPU core.
    pub name: String,
    /// Utilisation in tenths of a percent.
    pub tenths: i64,
}

/// Fill of the gauge for a value, in thousandths of the gauge: a tenth of a
/// percent is a thousandth, and values outside the gauge are held to its ends.
pub open spec fn fill_of(tenths: int) -> int {
    if tenths < 0 {
        0
    } else if tenths > FULL_SCALE {
        FULL_SCALE as int
    } else {
        tenths
    }
}

/// The character of a decimal digit.
pub open spec fn digit_char(d: int) -> char {
    if d == 0 {
        '0'
    } else if d == 1 {
        '1'
    } else if d == 2 {
        '2'
    } else if d == 3 {
        '3'
    } else if d == 4 {
        '4'
    } else if d == 5 {
        '5'
    } else if d == 6 {
        '6'
    } else if d == 7 {
        '7'
    } else if d == 8 {
        '8'
    } else {
        '9'
    }
}

/// Whether a character is a decimal digit.
pub open spec fn is_digit(c: char) -> bool {
    exists|d: int| 0 <= d < 10 && c == #[trigger] digit_char(d)
}

/// The digits of a number that is not negative, without leading zeros.
pub open spec fn decimal(n: int) -> Seq<char>
    decreases n,
{
    if n < 10 {
        seq![digit_char(n)]
    } else {
        decimal(n / 10).push(digit_char(n % 10))
    }
}

/// A number without its sign.
pub open spec fn magnitude(v: int) -> int {
    if v < 0 {
        -v
    } else {
        v
    }
}

/// The sign that is written before a value: a minus for one below zero,
/// nothing otherwise.
pub open spec fn sign_text(v: int) -> Seq<char> {
    if v < 0 {
        seq!['-']
    } else {
        Seq::empty()
    }
}

/// The label of a value: its whole percents, a point, one digit for the
/// tenths, and a percent sign.
pub open spec fn percent_text(tenths: int) -> Seq<char> {
    sign_text(tenths) + decimal(magnitude(tenths) / 10) + seq![
        '.',
        digit_char(magnitude(tenths) % 10),
        '%',
    ]
}

/// Fill of the gauge for a value, in thousandths.
pub fn gauge_fill(tenths: i64) -> (fill: u16)
    ensures
        fill == fill_of(tenths as int),
        0 <= fill <= FULL_SCALE,
        fill == 0 <==> tenths <= 0,
        fill == FULL_SCALE <==> tenths >= FULL_SCALE,
{
    if tenths < 0 {
        0
    } else if tenths > FULL_SCALE as i64 {
        FULL_SCALE
    } else {
        tenths as u16
    }
}

/// The label of a value: the value with exactly one decimal place, followed
/// by a percent sign.
pub fn percent_label(tenths: i64) -> (label: String)
    ensures
        label@ == percent_text(tenths as int),
{
    proof {
        reveal_strlit("-");
        reveal_strlit(".");
        reveal_strlit("%");
    }
    let m: u64 = magnitude_of(tenths);
    let mut label: String = String::new();
    if tenths < 0 {
        label.append("-");
    }
    assert(label@ =~= sign_text(tenths as int));
    push_decimal(&mut label, m / 10);
    label.append(".");
    label.append(digit_text(m % 10));
    label.append("%");
    assert(label@ =~= percent_text(tenths as int));
    label
}

/// A value without its sign.
fn magnitude_of(v: i64) -> (m: u64)
    ensures
        m == magnitude(v as int),
{
    if v < 0 {
        (-(v + 1)) as u64 + 1
    } else {
        v as u64
    }
}

/// Writes the digits of `n` behind `text`.
fn push_decimal(text: &mut String, n: u64)
    ensures
        final(text)@ == old(text)@ + decimal(n as int),
    decreases n,
{
    if n >= 10 {
        push_decimal(text, n / 10);
    }
    text.append(digit_text(n % 10));
    assert(text@ =~= old(text)@ + decimal(n as int));
}

/// The text of one decimal digit.
fn digit_text(d: u64) -> (text: &'static str)
    requires
        d < 10,
    ensures
        text@ == seq![digit_char(d as int)],
{
    proof {
        reveal_strlit("0");
        reveal_strlit("1");
        reveal_strlit("2");
        reveal_strlit("3");
        reveal_strlit("4");
        reveal_strlit("5");
        reveal_strlit("6");
        reveal_strlit("7");
        reveal_strlit("8");
        reveal_strlit("9");
    }
    let text: &'static str = if d == 0 {
        "0"
    } else if d == 1 {
        "1"
    } else if d == 2 {
        "2"
    } else if d == 3 {
        "3"
    } else if d == 4 {
        "4"
    } else if d == 5 {
        "5"
    } else if d == 6 {
        "6"
    } else if d == 7 {
        "7"
    } else if d == 8 {
        "8"
    } else {
        "9"
    };
    assert(text@ =~= seq![digit_char(d as int)]);
    text
}

/// Every label has exactly one decimal place, followed by a percent sign:
/// it ends in a point, one digit and `%`, and before the point stand only an
/// optional minus and the digits of the whole percents.
pub proof fn label_has_one_decimal(tenths: int)
    ensures
        ({
            let text = percent_text(tenths);
            let len = text.len() as int;
            let lead = sign_text(tenths).len() as int;
            &&& len >= lead + 4
            &&& text[len - 1] == '%'
            &&& is_digit(text[len - 2])
            &&& text[len - 3] == '.'
            &&& lead == (if tenths < 0 {
                1int
            } else {
                0int
            })
            &&& tenths < 0 ==> text[0] == '-'
            &&& forall|i: int| lead <= i < len - 3 ==> is_digit(#[trigger] text[i])
        }),
{
    let m: int = magnitude(tenths);
    let whole = decimal(m / 10);
    let text = percent_text(tenths);
    let lead: int = sign_text(tenths).len() as int;
    lemma_decimal_digits(m / 10);
    assert(is_digit(digit_char(m % 10)));
    assert forall|i: int| lead <= i < text.len() - 3 implies is_digit(#[trigger] text[i]) by {
        assert(text[i] == whole[i - lead]);
    }
}

/// The digits of a number are digits, and there is at least one.
pub proof fn lemma_decimal_digits(n: int)
    requires
        0 <= n,
    ensures
        decimal(n).len() >= 1,
        forall|i: int| 0 <= i < decimal(n).len() ==> is_digit(#[trigger] decimal(n)[i]),
    decreases n,
{
    if n < 10 {
        assert(is_digit(digit_char(n)));
    } else {
        lemma_decimal_digits(n / 10);
        assert(is_digit(digit_char(n % 10)));
    }
}

} // verus!
