//! Upper-case hexadecimal text for byte values shown in the editor.
use vstd::prelude::*;
use vstd::string::StringExecFns;

verus! {

/// Upper-case hexadecimal digit for `d` in `[0, 15]`.
pub open spec fn hex_char(d: int) -> char {
    if d < 10 {
        ('0' as int + d) as char
    } else {
        ('A' as int + d - 10) as char
    }
}

fn push_hex_digit(s: &mut String, d: u8)
    requires
        d < 16,
    ensures
        final(s)@ == old(s)@.push(hex_char(d as int)),
{
    proof {
        reveal_strlit("0");
        reveal_strlit("1");
        reveal_strlit("2");
        reveal_strlit("3");
        reveal_strlit("4");
        reveal_strlit("5");
        reveal_strlit("6");
        reveal_strlit("7");
        reveal_strlit("8");
        reveal_strlit("9");
        reveal_strlit("A");
        reveal_strlit("B");
        reveal_strlit("C");
        reveal_strlit("D");
        reveal_strlit("E");
        reveal_strlit("F");
    }
    let ghost before = s@;
    let lit = match d {
        0 => "0",
        1 => "1",
        2 => "2",
        3 => "3",
        4 => "4",
        5 => "5",
        6 => "6",
        7 => "7",
        8 => "8",
        9 => "9",
        10 => "A",
        11 => "B",
        12 => "C",
        13 => "D",
        14 => "E",
        _ => "F",
    };
    assert(lit@ == seq![hex_char(d as int)]);
    s.append(lit);
    assert(s@ =~= before.push(hex_char(d as int)));
}

/// Two upper-case hexadecimal digits, such as `0A` or `FF`.
pub fn to_hex_str_2(value: u8) -> (r: String)
    ensures
        r@ == seq![hex_char(value as int / 16), hex_char(value as int % 16)],
{
    let mut s = String::new();
    push_hex_digit(&mut s, value / 16);
    push_hex_digit(&mut s, value % 16);
    assert(s@ =~= seq![hex_char(value as int / 16), hex_char(value as int % 16)]);
    s
}

/// Upper-case hexadecimal digits without leading zeros, such as `A` or
/// `1F`.
pub fn to_hex_str_1(value: u8) -> (r: String)
    ensures
        r@ == if value < 16 {
            seq![hex_char(value as int)]
        } else {
            seq![hex_char(value as int / 16), hex_char(value as int % 16)]
        },
{
    if value < 16 {
        let mut s = String::new();
        push_hex_digit(&mut s, value);
        assert(s@ =~= seq![hex_char(value as int)]);
        s
    } else {
        to_hex_str_2(value)
    }
}

} // verus!
