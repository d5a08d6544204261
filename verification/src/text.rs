use vstd::prelude::*;

verus! {

/// The character of a decimal digit.
pub open spec fn digit_char(digit: nat) -> char {
    if digit == 0 { '0' }
    else if digit == 1 { '1' }
    else if digit == 2 { '2' }
    else if digit == 3 { '3' }
    else if digit == 4 { '4' }
    else if digit == 5 { '5' }
    else if digit == 6 { '6' }
    else if digit == 7 { '7' }
    else if digit == 8 { '8' }
    else { '9' }
}

/// The decimal writing of a number, without sign or leading zeros.
pub open spec fn decimal(n: nat) -> Seq<char>
    decreases n,
{
    if n < 10 {
        seq![digit_char(n)]
    } else {
        decimal(n / 10).push(digit_char(n % 10))
    }
}

/// The address a socket binds to listen on every interface at a TCP port.
pub open spec fn tcp_listen_address(port: nat) -> Seq<char> {
    "tcp://*:"@ + decimal(port)
}

fn digit_text(digit: u32) -> (text: &'static str)
    requires
        digit < 10,
    ensures
        text@ == seq![digit_char(digit as nat)],
{
    let text = if digit == 0 {
        "0"
    } else if digit == 1 {
        "1"
    } else if digit == 2 {
        "2"
    } else if digit == 3 {
        "3"
    } else if digit == 4 {
        "4"
    } else if digit == 5 {
        "5"
    } else if digit == 6 {
        "6"
    } else if digit == 7 {
        "7"
    } else if digit == 8 {
        "8"
    } else {
        "9"
    };
    proof {
        reveal_strlit("0");
        reveal_strlit("1");
        reveal_strlit("2");
        reveal_strlit("3");
        reveal_strlit("4");
        reveal_strlit("5");
        reveal_strlit("6");
        reveal_strlit("7");
        reveal_strlit("8");
        reveal_strlit("9");
    }
    assert(text@ =~= seq![digit_char(digit as nat)]);
    text
}

/// Appends the decimal writing of `n`.
pub fn append_decimal(out: &mut String, n: u32)
    ensures
        final(out)@ == old(out)@ + decimal(n as nat),
        decimal_value(final(out)@.subrange(old(out)@.len() as int, final(out)@.len() as int)) == n,
    decreases n,
{
    if n >= 10 {
        append_decimal(out, n / 10);
    }
    out.append(digit_text(n % 10));
    proof {
        if n >= 10 {
            assert(decimal(n as nat) == decimal((n / 10) as nat).push(digit_char((n % 10) as nat)));
        }
    }
    assert(out@ =~= old(out)@ + decimal(n as nat));
    proof {
        law_decimal_reads_back(n as nat);
        assert(out@.subrange(old(out)@.len() as int, out@.len() as int) =~= decimal(n as nat));
    }
}

/// The number a character stands for as a decimal digit: its code less the
/// code of '0'.
pub open spec fn digit_value(c: char) -> int {
    (c as int) - 48
}

/// Whether a character is an ASCII decimal digit.
pub open spec fn is_ascii_digit(c: char) -> bool {
    48 <= (c as int) <= 57
}

/// The number a text of decimal digits stands for, read in base ten.
pub open spec fn decimal_value(text: Seq<char>) -> int
    decreases text.len(),
{
    if text.len() == 0 {
        0
    } else {
        decimal_value(text.drop_last()) * 10 + digit_value(text.last())
    }
}

proof fn lemma_digit_char(digit: nat)
    requires
        digit < 10,
    ensures
        digit_char(digit) as int == 48 + digit,
{
}

/// The decimal writing of a number is the standard base-ten one: it is made
/// of ASCII digits only, read back in base ten it gives the number, and it
/// has no leading zero (only zero itself starts with '0').
pub proof fn law_decimal_reads_back(n: nat)
    ensures
        decimal(n).len() >= 1,
        forall|i: int| 0 <= i < decimal(n).len() ==> is_ascii_digit(#[trigger] decimal(n)[i]),
        decimal_value(decimal(n)) == n,
        decimal(n)[0] == '0' ==> n == 0,
    decreases n,
{
    if n < 10 {
        lemma_digit_char(n);
        let text = decimal(n);
        assert(text.drop_last() =~= Seq::<char>::empty());
        assert(decimal_value(text.drop_last()) == 0);
        assert(text.last() == digit_char(n));
        assert(decimal_value(text) == decimal_value(text.drop_last()) * 10 + digit_value(text.last()));
    } else {
        let high = (n / 10) as nat;
        let low = (n % 10) as nat;
        law_decimal_reads_back(high);
        lemma_digit_char(low);
        let text = decimal(n);
        assert(text == decimal(high).push(digit_char(low)));
        assert(text.drop_last() =~= decimal(high));
        assert(high * 10 + low == n) by (nonlinear_arith)
            requires high == n / 10, low == n % 10;
        assert(text.last() == digit_char(low));
        assert(decimal_value(text) == decimal_value(text.drop_last()) * 10 + digit_value(text.last()));
        assert(decimal_value(text) == (high as int) * 10 + (low as int));
        assert(high >= 1);
        assert(text[0] == decimal(high)[0]);
        assert forall|i: int| 0 <= i < text.len() implies is_ascii_digit(#[trigger] text[i]) by {
            if i < decimal(high).len() {
                assert(text[i] == decimal(high)[i]);
            }
        }
    }
}

/// The address to bind a socket to so it listens on `port` on every interface.
pub fn tcp_listen_uri(port: u32) -> (uri: String)
    ensures
        uri@ == tcp_listen_address(port as nat),
        uri@.subrange(0, 8) == "tcp://*:"@,
        decimal_value(uri@.subrange(8, uri@.len() as int)) == port,
        forall|i: int| 8 <= i < uri@.len() ==> is_ascii_digit(#[trigger] uri@[i]),
{
    let mut uri = String::from_str("tcp://*:");
    append_decimal(&mut uri, port);
    proof {
        reveal_strlit("tcp://*:");
        law_decimal_reads_back(port as nat);
        let digits = decimal(port as nat);
        assert(uri@.subrange(0, 8) =~= "tcp://*:"@);
        assert(uri@.subrange(8, uri@.len() as int) =~= digits);
        assert forall|i: int| 8 <= i < uri@.len() implies is_ascii_digit(#[trigger] uri@[i]) by {
            assert(uri@[i] == digits[i - 8]);
        }
    }
    uri
}

} // verus!
