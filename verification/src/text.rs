use vstd::prelude::*;

verus! {

/// The character of a decimal digit.
pub open spec fn digit_char(d: nat) -> char {
    if d == 0 { '0' } else if d == 1 { '1' } else if d == 2 { '2' } else if d == 3 { '3' }
    else if d == 4 { '4' } else if d == 5 { '5' } else if d == 6 { '6' } else if d == 7 { '7' }
    else if d == 8 { '8' } else { '9' }
}

/// Decimal digits of `n`, without leading zeros.
pub open spec fn decimal_text(n: nat) -> Seq<char>
    decreases n,
{
    if n < 10 { seq![digit_char(n)] } else { decimal_text(n / 10).push(digit_char(n % 10)) }
}

fn digit_str(d: u64) -> (text: &'static str)
    requires
        d < 10,
    ensures
        text@ == seq![digit_char(d as nat)],
{
    proof {
        reveal_strlit("0");
        reveal_strlit("1");
        reveal_strlit("2");
        reveal_strlit("3");
        reveal_strlit("4");
        reveal_strlit("5");
        reveal_strlit("6");
        reveal_strlit("7");
        reveal_strlit("8");
        reveal_strlit("9");
    }
    match d {
        0 => "0",
        1 => "1",
        2 => "2",
        3 => "3",
        4 => "4",
        5 => "5",
        6 => "6",
        7 => "7",
        8 => "8",
        _ => "9",
    }
}

/// Appends the decimal digits of `n`.
pub(crate) fn append_decimal(text: &mut String, n: u64)
    ensures
        final(text)@ == old(text)@ + decimal_text(n as nat),
    decreases n,
{
    if n >= 10 {
        append_decimal(text, n / 10);
    }
    text.append(digit_str(n % 10));
    assert(text@ =~= old(text)@ + decimal_text(n as nat));
}

/// Title of the main window: the cell and food counts of the launch.
pub open spec fn window_title(cells: nat, food: nat) -> Seq<char> {
    "Organoids - "@ + decimal_text(cells) + " клеток / "@ + decimal_text(food) + " еды"@
}

/// Title of the main window for the given launch counts.
pub fn window_title_text(cells: usize, food: usize) -> (title: String)
    ensures
        title@ == window_title(cells as nat, food as nat),
{
    let mut title = String::from_str("Organoids - ");
    append_decimal(&mut title, cells as u64);
    title.append(" клеток / ");
    append_decimal(&mut title, food as u64);
    title.append(" еды");
    assert(title@ =~= window_title(cells as nat, food as nat));
    title
}

/// `n` with its sign, as `{:+}` formats it: `+0`, `+12`, `-3`.
pub open spec fn signed_text(n: int) -> Seq<char> {
    if n < 0 { seq!['-'] + decimal_text((-n) as nat) } else { seq!['+'] + decimal_text(n as nat) }
}

/// Appends `n` with its sign.
pub(crate) fn append_signed(text: &mut String, n: i64)
    ensures
        final(text)@ == old(text)@ + signed_text(n as int),
{
    if n < 0 {
        text.append("-");
        let magnitude: u64 = ((-(n + 1)) as u64) + 1;
        append_decimal(text, magnitude);
        proof {
            reveal_strlit("-");
        }
        assert(text@ =~= old(text)@ + signed_text(n as int));
    } else {
        text.append("+");
        append_decimal(text, n as u64);
        proof {
            reveal_strlit("+");
        }
        assert(text@ =~= old(text)@ + signed_text(n as int));
    }
}

/// Direction of a change, which picks the color it is shown in.
#[derive(Clone, Copy, PartialEq, Eq, Structural, Debug)]
pub enum Trend {
    Rising,
    Falling,
    Steady,
}

/// The direction of a change of `delta`.
pub open spec fn trend_of(delta: int) -> Trend {
    if delta > 0 { Trend::Rising } else if delta < 0 { Trend::Falling } else { Trend::Steady }
}

/// A population change as shown next to a counter: a space and the signed
/// change, with its direction.
pub fn population_delta_text(delta: i64) -> (shown: (String, Trend))
    ensures
        shown.0@ == seq![' '] + signed_text(delta as int),
        shown.1 == trend_of(delta as int),
{
    let mut text = String::from_str(" ");
    append_signed(&mut text, delta);
    proof {
        reveal_strlit(" ");
    }
    let trend = if delta > 0 { Trend::Rising } else if delta < 0 { Trend::Falling } else { Trend::Steady };
    (text, trend)
}

} // verus!
