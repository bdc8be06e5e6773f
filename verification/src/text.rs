//! Text for values.
use vstd::prelude::*;
use vstd::string::StringExecFns;

use crate::value::GosValue;

verus! {

/// Texts with a blank between them.
pub open spec fn spaced(texts: Seq<Seq<char>>) -> Seq<char>
    decreases texts.len(),
{
    if texts.len() == 0 {
        Seq::empty()
    } else if texts.len() == 1 {
        texts[0]
    } else {
        spaced(texts.drop_last()) + seq![' '] + texts.last()
    }
}

/// Whether `texts` are what `show` makes of the values.
pub open spec fn shown<F: Fn(&GosValue) -> String>(
    show: F,
    vals: Seq<GosValue>,
    texts: Seq<String>,
) -> bool {
    &&& texts.len() == vals.len()
    &&& forall|i: int|
        0 <= i < vals.len() ==> call_ensures(show, (&vals[i],), #[trigger] texts[i])
}

/// The characters of each text.
pub open spec fn chars_of(texts: Seq<String>) -> Seq<Seq<char>> {
    texts.map_values(|t: String| t@)
}

/// Whether `text` is what `show` makes of the values, with blanks between them and
/// `open` and `close` around them.
pub open spec fn is_row_text<F: Fn(&GosValue) -> String>(
    show: F,
    open: Seq<char>,
    vals: Seq<GosValue>,
    close: Seq<char>,
    text: Seq<char>,
) -> bool {
    exists|texts: Seq<String>| #[trigger]
        shown(show, vals, texts) && text == open + spaced(chars_of(texts)) + close
}

/// Writes a row of values.
pub(crate) fn row_text<F: Fn(&GosValue) -> String>(
    show: &F,
    open: &str,
    vals: &[GosValue],
    close: &str,
) -> (text: String)
    requires
        forall|i: int| 0 <= i < vals@.len() ==> call_requires(show, (&#[trigger] vals@[i],)),
    ensures
        is_row_text(*show, open@, vals@, close@, text@),
{
    let mut text = String::from_str(open);
    let ghost mut texts: Seq<String> = Seq::empty();
    assert(text@ =~= open@ + spaced(chars_of(texts)));
    let mut i: usize = 0;
    while i < vals.len()
        invariant
            i <= vals@.len(),
            forall|k: int| 0 <= k < vals@.len() ==> call_requires(show, (&#[trigger] vals@[k],)),
            texts.len() == i,
            forall|k: int|
                0 <= k < i ==> call_ensures(*show, (&vals@[k],), #[trigger] texts[k]),
            text@ == open@ + spaced(chars_of(texts)),
        decreases vals@.len() - i,
    {
        let one = show(&vals[i]);
        proof {
            reveal_strlit(" ");
            let next = chars_of(texts.push(one));
            assert(next.drop_last() =~= chars_of(texts));
            assert(next.last() == one@);
            assert(" "@ =~= seq![' ']);
        }
        if i > 0 {
            text.append(" ");
        }
        text.append(one.as_str());
        proof {
            texts = texts.push(one);
            assert(text@ =~= open@ + spaced(chars_of(texts)));
        }
        i = i + 1;
    }
    text.append(close);
    assert(shown(*show, vals@, texts));
    text
}

/// A digit.
pub open spec fn digit(d: nat) -> char {
    if d < 10 {
        ('0' as int + d) as char
    } else {
        ('a' as int + d - 10) as char
    }
}

/// A number in hexadecimal digits, without leading zeros.
pub open spec fn hex(n: nat) -> Seq<char>
    decreases n,
{
    if n < 16 {
        seq![digit(n)]
    } else {
        hex(n / 16).push(digit(n % 16))
    }
}

/// A number in decimal digits, without leading zeros.
pub open spec fn decimal(n: nat) -> Seq<char>
    decreases n,
{
    if n < 10 {
        seq![digit(n)]
    } else {
        decimal(n / 10).push(digit(n % 10))
    }
}

/// A number in decimal digits, with its sign if it is negative.
pub open spec fn signed(n: int) -> Seq<char> {
    if n < 0 {
        seq!['-'] + decimal((-n) as nat)
    } else {
        decimal(n as nat)
    }
}

fn digit_text(d: u64) -> (text: &'static str)
    requires
        d < 16,
    ensures
        text@ == seq![digit(d as nat)],
{
    proof {
        reveal_strlit("0");
        reveal_strlit("1");
        reveal_strlit("2");
        reveal_strlit("3");
        reveal_strlit("4");
        reveal_strlit("5");
        reveal_strlit("6");
        reveal_strlit("7");
        reveal_strlit("8");
        reveal_strlit("9");
        reveal_strlit("a");
        reveal_strlit("b");
        reveal_strlit("c");
        reveal_strlit("d");
        reveal_strlit("e");
        reveal_strlit("f");
    }
    let text: &'static str = match d {
        0 => "0",
        1 => "1",
        2 => "2",
        3 => "3",
        4 => "4",
        5 => "5",
        6 => "6",
        7 => "7",
        8 => "8",
        9 => "9",
        10 => "a",
        11 => "b",
        12 => "c",
        13 => "d",
        14 => "e",
        _ => "f",
    };
    assert(text@ =~= seq![digit(d as nat)]);
    text
}

/// Writes a number in hexadecimal digits.
pub(crate) fn hex_text(n: u64) -> (text: String)
    ensures
        text@ == hex(n as nat),
    decreases n,
{
    if n < 16 {
        String::from_str(digit_text(n))
    } else {
        let mut text = hex_text(n / 16);
        text.append(digit_text(n % 16));
        assert(text@ =~= hex(n as nat));
        text
    }
}

fn decimal_text(n: u64) -> (text: String)
    ensures
        text@ == decimal(n as nat),
    decreases n,
{
    if n < 10 {
        String::from_str(digit_text(n))
    } else {
        let mut text = decimal_text(n / 10);
        text.append(digit_text(n % 10));
        assert(text@ =~= decimal(n as nat));
        text
    }
}

/// Writes a number in decimal digits.
pub(crate) fn signed_text(n: i32) -> (text: String)
    ensures
        text@ == signed(n as int),
{
    if n < 0 {
        let mut text = String::from_str("-");
        proof {
            reveal_strlit("-");
            assert("-"@ =~= seq!['-']);
        }
        let size: i64 = -(n as i64);
        text.append(decimal_text(size as u64).as_str());
        text
    } else {
        decimal_text(n as u64)
    }
}

/// Texts are put together in their order with one blank between any two.
pub proof fn law_blanks_stand_between(texts: Seq<Seq<char>>, one: Seq<char>)
    ensures
        spaced(Seq::empty()) == Seq::<char>::empty(),
        spaced(seq![one]) == one,
        texts.len() > 0 ==> spaced(texts.push(one)) == spaced(texts) + seq![' '] + one,
{
    assert(texts.push(one).drop_last() =~= texts);
}

/// The text of a row begins with what opens it and ends with what closes it, and an empty row has
/// nothing in between.
pub proof fn law_a_row_is_enclosed<F: Fn(&GosValue) -> String>(
    show: F,
    open: Seq<char>,
    vals: Seq<GosValue>,
    close: Seq<char>,
    text: Seq<char>,
)
    requires
        is_row_text(show, open, vals, close, text),
    ensures
        text.len() >= open.len() + close.len(),
        text.take(open.len() as int) == open,
        text.skip(text.len() - close.len()) == close,
        vals.len() == 0 ==> text == open + close,
{
    let texts = choose|texts: Seq<String>| #[trigger]
        shown(show, vals, texts) && text == open + spaced(chars_of(texts)) + close;
    assert(text.take(open.len() as int) =~= open);
    assert(text.skip(text.len() - close.len()) =~= close);
    if vals.len() == 0 {
        assert(chars_of(texts) =~= Seq::empty());
        assert(text =~= open + close);
    }
}

/// The text of a row of one value is what `show` makes of it, enclosed. That of a row with one
/// value more is that of the row, a blank and what `show` makes of that value, enclosed.
pub proof fn law_a_row_has_each_value<F: Fn(&GosValue) -> String>(
    show: F,
    open: Seq<char>,
    vals: Seq<GosValue>,
    last: GosValue,
    close: Seq<char>,
    text: Seq<char>,
)
    requires
        is_row_text(show, open, vals.push(last), close, text),
    ensures
        exists|row: Seq<char>, one: String| #[trigger]
            is_row_text(show, open, vals, Seq::empty(), row) && #[trigger] call_ensures(
                show,
                (&last,),
                one,
            ) && text == (if vals.len() == 0 {
                row + one@ + close
            } else {
                row + seq![' '] + one@ + close
            }),
{
    let all = vals.push(last);
    let texts = choose|texts: Seq<String>| #[trigger]
        shown(show, all, texts) && text == open + spaced(chars_of(texts)) + close;
    let one = texts.last();
    let before = texts.drop_last();
    let row = open + spaced(chars_of(before)) + Seq::<char>::empty();
    assert(all[vals.len() as int] == last);
    assert(texts[vals.len() as int] == one);
    assert(call_ensures(show, (&last,), one));
    assert forall|i: int| 0 <= i < vals.len() implies call_ensures(
        show,
        (&vals[i],),
        #[trigger] before[i],
    ) by {
        assert(all[i] == vals[i]);
        assert(texts[i] == before[i]);
    }
    assert(shown(show, vals, before));
    assert(is_row_text(show, open, vals, Seq::empty(), row));
    assert(chars_of(texts).drop_last() =~= chars_of(before));
    assert(chars_of(texts).last() == one@);
    if vals.len() == 0 {
        assert(chars_of(before) =~= Seq::empty());
        assert(chars_of(texts)[0] == one@);
        assert(text =~= row + one@ + close);
    } else {
        assert(text =~= row + seq![' '] + one@ + close);
    }
}

/// The digits in their order.
pub open spec fn digits() -> Seq<char> {
    "0123456789abcdef"@
}

/// The number that is written with the given digits.
pub open spec fn number_of(text: Seq<char>, base: nat) -> nat
    decreases text.len(),
{
    if text.len() == 0 {
        0
    } else {
        number_of(text.drop_last(), base) * base + digits().index_of(text.last()) as nat
    }
}

/// Whether a character is one of the first digits, as many as the base says.
pub open spec fn is_digit(c: char, base: nat) -> bool {
    exists|d: int| 0 <= d < base && #[trigger] digits()[d] == c
}

/// Whether a text consists of digits of the given base.
pub open spec fn has_digits(text: Seq<char>, base: nat) -> bool {
    forall|i: int| 0 <= i < text.len() ==> is_digit(#[trigger] text[i], base)
}

/// Each digit stands for its place among the digits.
pub proof fn law_digits_stand_for_numbers(d: nat)
    requires
        d < 16,
    ensures
        digits().len() == 16,
        digit(d) == digits()[d as int],
        digits().index_of(digit(d)) == d,
{
    reveal_strlit("0123456789abcdef");
    let all = digits();
    assert(all.len() == 16);
    assert(all[0] == '0' && all[1] == '1' && all[2] == '2' && all[3] == '3' && all[4] == '4'
        && all[5] == '5' && all[6] == '6' && all[7] == '7' && all[8] == '8' && all[9] == '9'
        && all[10] == 'a' && all[11] == 'b' && all[12] == 'c' && all[13] == 'd' && all[14] == 'e'
        && all[15] == 'f');
    assert(digit(d) == all[d as int]);
    assert forall|i: int, j: int| 0 <= i < 16 && 0 <= j < 16 && i != j implies all[i] != all[j] by {
    }
    let found = all.index_of(digit(d));
    assert(0 <= found < all.len() && all[found] == digit(d)) by {
        assert(all.contains(digit(d)));
    }
}

/// What is written in hexadecimal digits reads as the number again, and only zero begins with a
/// zero.
pub proof fn law_hexadecimal_texts_read_back(n: nat)
    ensures
        number_of(hex(n), 16) == n,
        hex(n).len() > 0,
        n > 0 ==> hex(n)[0] != '0',
        has_digits(hex(n), 16),
    decreases n,
{
    law_digits_stand_for_numbers(n % 16);
    assert(digits()[(n % 16) as int] == digit(n % 16));
    if n < 16 {
        assert(hex(n).drop_last() =~= Seq::empty());
        assert(hex(n).last() == digit(n));
        reveal_with_fuel(number_of, 2);
    } else {
        law_hexadecimal_texts_read_back(n / 16);
        assert(hex(n).drop_last() =~= hex(n / 16));
        assert(hex(n).last() == digit(n % 16));
        assert(hex(n)[0] == hex(n / 16)[0]);
        assert forall|i: int| 0 <= i < hex(n).len() implies is_digit(#[trigger] hex(n)[i], 16) by {
            if i < hex(n).len() - 1 {
                assert(hex(n)[i] == hex(n / 16)[i]);
            }
        }
    }
}

/// What is written in decimal digits reads as the number again, and only zero begins with a zero.
pub proof fn law_decimal_texts_read_back(n: nat)
    ensures
        number_of(decimal(n), 10) == n,
        decimal(n).len() > 0,
        n > 0 ==> decimal(n)[0] != '0',
        has_digits(decimal(n), 10),
    decreases n,
{
    law_digits_stand_for_numbers(n % 10);
    assert(digits()[(n % 10) as int] == digit(n % 10));
    if n < 10 {
        assert(decimal(n).drop_last() =~= Seq::empty());
        assert(decimal(n).last() == digit(n));
        reveal_with_fuel(number_of, 2);
    } else {
        law_decimal_texts_read_back(n / 10);
        assert(decimal(n).drop_last() =~= decimal(n / 10));
        assert(decimal(n).last() == digit(n % 10));
        assert(decimal(n)[0] == decimal(n / 10)[0]);
        assert forall|i: int| 0 <= i < decimal(n).len() implies is_digit(#[trigger] decimal(n)[i], 10) by {
            if i < decimal(n).len() - 1 {
                assert(decimal(n)[i] == decimal(n / 10)[i]);
            }
        }
    }
}

/// A negative number is written as a minus sign and its size, any other as it is.
pub proof fn law_signs_are_written(n: int)
    ensures
        n >= 0 ==> number_of(signed(n), 10) == n && signed(n)[0] != '-',
        n < 0 ==> signed(n).len() > 1 && signed(n)[0] == '-' && number_of(signed(n).skip(1), 10)
            == -n,
{
    if n >= 0 {
        law_decimal_texts_read_back(n as nat);
        reveal_strlit("0123456789abcdef");
        assert(is_digit(signed(n)[0], 10));
        let d = choose|d: int| 0 <= d < 10 && #[trigger] digits()[d] == signed(n)[0];
        assert(digits()[d] != '-');
    } else {
        law_decimal_texts_read_back((-n) as nat);
        assert(signed(n).skip(1) =~= decimal((-n) as nat));
    }
}

} // verus!
