use crate::types::{Float, Instruction, InstructionModel, InstructionParam, ParamModel, ScriptType};
use vstd::prelude::*;
use vstd::string::{StrSliceExecFns, StringExecFns};

verus! {

/// The character of decimal digit `d`.
pub open spec fn digit(d: int) -> char {
    seq!['0', '1', '2', '3', '4', '5', '6', '7', '8', '9'][d]
}

/// The character of hexadecimal digit `d`, upper case.
pub open spec fn hex_digit(d: int) -> char {
    seq!['0', '1', '2', '3', '4', '5', '6', '7', '8', '9', 'A', 'B', 'C', 'D', 'E', 'F'][d]
}

/// The decimal digits of `n`, without leading zeros.
pub open spec fn dec(n: nat) -> Seq<char>
    decreases n,
{
    if n < 10 {
        seq![digit(n as int)]
    } else {
        dec(n / 10).push(digit((n % 10) as int))
    }
}

/// The decimal text of an integer, with a minus sign when negative.
pub open spec fn dec_signed(v: int) -> Seq<char> {
    if v < 0 {
        seq!['-'] + dec((-v) as nat)
    } else {
        dec(v as nat)
    }
}

/// `d` padded with zeros on the left to six characters.
pub open spec fn pad6(d: Seq<char>) -> Seq<char> {
    if d.len() < 6 {
        Seq::new((6 - d.len()) as nat, |i: int| '0') + d
    } else {
        d
    }
}

/// Two upper-case hexadecimal digits of a byte.
pub open spec fn hex2(b: u8) -> Seq<char> {
    seq![hex_digit(b as int / 16), hex_digit(b as int % 16)]
}

/// The fraction digits of `f` sixteenths, after the point, without trailing zeros.
pub open spec fn sixteenths(f: int) -> Seq<char> {
    if f == 1 { seq!['0', '6', '2', '5'] }
    else if f == 2 { seq!['1', '2', '5'] }
    else if f == 3 { seq!['1', '8', '7', '5'] }
    else if f == 4 { seq!['2', '5'] }
    else if f == 5 { seq!['3', '1', '2', '5'] }
    else if f == 6 { seq!['3', '7', '5'] }
    else if f == 7 { seq!['4', '3', '7', '5'] }
    else if f == 8 { seq!['5'] }
    else if f == 9 { seq!['5', '6', '2', '5'] }
    else if f == 10 { seq!['6', '2', '5'] }
    else if f == 11 { seq!['6', '8', '7', '5'] }
    else if f == 12 { seq!['7', '5'] }
    else if f == 13 { seq!['8', '1', '2', '5'] }
    else if f == 14 { seq!['8', '7', '5'] }
    else { seq!['9', '3', '7', '5'] }
}

/// The shortest decimal text of the fixed-point value `k / 16`.
pub open spec fn fixed_text(k: i16) -> Seq<char> {
    let m = if k < 0 { -k } else { k as int };
    let sign = if k < 0 { seq!['-'] } else { Seq::empty() };
    let frac = if m % 16 == 0 { Seq::empty() } else { seq!['.'] + sixteenths(m % 16) };
    sign + dec((m / 16) as nat) + frac
}

/// The text of an operand; `float` is the text of an IEEE single, which is
/// formatted outside the library.
pub open spec fn param_text(p: ParamModel, float: Seq<char>) -> Seq<char> {
    match p {
        ParamModel::EOL => Seq::empty(),
        ParamModel::RAW(b) => hex2(b),
        ParamModel::NUM32(v) => dec_signed(v as int),
        ParamModel::FLOAT(Float::Fixed16(k)) => fixed_text(k),
        ParamModel::FLOAT(Float::Ieee32(_)) => float,
        ParamModel::STR(s) => seq!['"'] + s + seq!['"'],
        ParamModel::GVAR(n) => seq!['g', 'v', 'a', 'r', '_'] + dec(n as nat),
        ParamModel::LVAR(n) => seq!['l', 'v', 'a', 'r', '_'] + dec(n as nat),
        ParamModel::OFFSET(v) => dec((if v < 0 { -v } else { v as int }) as nat),
    }
}

/// The entry `j` of `floats`, or nothing.
pub open spec fn text_at(floats: Seq<String>, j: int) -> Seq<char> {
    if 0 <= j < floats.len() {
        floats[j]@
    } else {
        Seq::empty()
    }
}

/// Each operand of `ps` from `j` on, preceded by a space; EOL is left out.
pub open spec fn params_text(ps: Seq<ParamModel>, floats: Seq<String>, j: int) -> Seq<char>
    decreases ps.len() - j,
{
    if j < 0 || j >= ps.len() {
        Seq::empty()
    } else if ps[j] is EOL {
        params_text(ps, floats, j + 1)
    } else {
        seq![' '] + param_text(ps[j], text_at(floats, j)) + params_text(ps, floats, j + 1)
    }
}

/// One listing line: `{offset} name operands`, the offset zero-padded to six digits.
pub open spec fn line_text(i: InstructionModel, floats: Seq<String>) -> Seq<char> {
    seq!['{'] + pad6(dec(i.offset as nat)) + seq!['}', ' '] + i.name + params_text(i.params, floats, 0)
}

fn digit_str(d: u64) -> (r: &'static str)
    requires
        d < 10,
    ensures
        r@ == seq![digit(d as int)],
{
    proof {
        reveal_strlit("0");
        reveal_strlit("1");
        reveal_strlit("2");
        reveal_strlit("3");
        reveal_strlit("4");
        reveal_strlit("5");
        reveal_strlit("6");
        reveal_strlit("7");
        reveal_strlit("8");
        reveal_strlit("9");
    }
    match d {
        0 => "0",
        1 => "1",
        2 => "2",
        3 => "3",
        4 => "4",
        5 => "5",
        6 => "6",
        7 => "7",
        8 => "8",
        _ => "9",
    }
}

/// Appends the decimal digits of `n`.
pub fn push_dec(s: &mut String, n: u64)
    ensures
        final(s)@ == old(s)@ + dec(n as nat),
    decreases n,
{
    if n >= 10 {
        push_dec(s, n / 10);
    }
    s.append(digit_str(n % 10));
    proof {
        if n >= 10 {
            assert(old(s)@ + dec((n / 10) as nat) + seq![digit((n % 10) as int)] =~= old(s)@ + dec(
                n as nat,
            ));
        } else {
            assert(n % 10 == n);
        }
    }
}

fn hex_str(d: u8) -> (r: &'static str)
    requires
        d < 16,
    ensures
        r@ == seq![hex_digit(d as int)],
{
    proof {
        reveal_strlit("0");
        reveal_strlit("1");
        reveal_strlit("2");
        reveal_strlit("3");
        reveal_strlit("4");
        reveal_strlit("5");
        reveal_strlit("6");
        reveal_strlit("7");
        reveal_strlit("8");
        reveal_strlit("9");
        reveal_strlit("A");
        reveal_strlit("B");
        reveal_strlit("C");
        reveal_strlit("D");
        reveal_strlit("E");
        reveal_strlit("F");
    }
    match d {
        0 => "0",
        1 => "1",
        2 => "2",
        3 => "3",
        4 => "4",
        5 => "5",
        6 => "6",
        7 => "7",
        8 => "8",
        9 => "9",
        10 => "A",
        11 => "B",
        12 => "C",
        13 => "D",
        14 => "E",
        _ => "F",
    }
}

fn sixteenths_str(f: u16) -> (r: &'static str)
    requires
        1 <= f < 16,
    ensures
        r@ == sixteenths(f as int),
{
    proof {
        reveal_strlit("0625");
        reveal_strlit("125");
        reveal_strlit("1875");
        reveal_strlit("25");
        reveal_strlit("3125");
        reveal_strlit("375");
        reveal_strlit("4375");
        reveal_strlit("5");
        reveal_strlit("5625");
        reveal_strlit("625");
        reveal_strlit("6875");
        reveal_strlit("75");
        reveal_strlit("8125");
        reveal_strlit("875");
        reveal_strlit("9375");
    }
    match f {
        1 => "0625",
        2 => "125",
        3 => "1875",
        4 => "25",
        5 => "3125",
        6 => "375",
        7 => "4375",
        8 => "5",
        9 => "5625",
        10 => "625",
        11 => "6875",
        12 => "75",
        13 => "8125",
        14 => "875",
        _ => "9375",
    }
}

/// Appends `text`.
fn push_str(s: &mut String, text: &str)
    ensures
        final(s)@ == old(s)@ + text@,
{
    s.append(text);
}

/// Appends the decimal text of a signed integer.
fn push_dec_signed(s: &mut String, v: i64)
    ensures
        final(s)@ == old(s)@ + dec_signed(v as int),
{
    if v < 0 {
        proof {
            reveal_strlit("-");
        }
        push_str(s, "-");
        let m: u64 = if v == i64::MIN {
            0x8000_0000_0000_0000
        } else {
            (-v) as u64
        };
        push_dec(s, m);
        proof {
            assert(old(s)@ + seq!['-'] + dec(m as nat) =~= old(s)@ + dec_signed(v as int));
        }
    } else {
        push_dec(s, v as u64);
    }
}

/// Appends the decimal text of the fixed-point value `k / 16`.
fn push_fixed(s: &mut String, k: i16)
    ensures
        final(s)@ == old(s)@ + fixed_text(k),
{
    let m: u16 = if k < 0 {
        proof {
            reveal_strlit("-");
        }
        push_str(s, "-");
        (-(k as i32)) as u16
    } else {
        k as u16
    };
    let ghost signed = s@;
    push_dec(s, (m / 16) as u64);
    let f = m % 16;
    if f != 0 {
        proof {
            reveal_strlit(".");
        }
        push_str(s, ".");
        push_str(s, sixteenths_str(f));
    }
    proof {
        let sign: Seq<char> = if k < 0 { seq!['-'] } else { Seq::empty() };
        let frac: Seq<char> = if f == 0 { Seq::empty() } else { seq!['.'] + sixteenths(f as int) };
        assert(signed == old(s)@ + sign);
        assert(s@ =~= old(s)@ + (sign + dec((m / 16) as nat) + frac));
    }
}

/// Appends the text of an operand; `float` stands for an IEEE single.
pub fn push_param(s: &mut String, p: &InstructionParam, float: &String)
    ensures
        final(s)@ == old(s)@ + param_text(p@, float@),
{
    match p {
        InstructionParam::EOL => {
            assert(old(s)@ + Seq::<char>::empty() =~= old(s)@);
        },
        InstructionParam::RAW(b) => {
            push_str(s, hex_str(*b / 16));
            push_str(s, hex_str(*b % 16));
            assert(s@ =~= old(s)@ + hex2(*b));
        },
        InstructionParam::NUM32(v) => push_dec_signed(s, *v as i64),
        InstructionParam::FLOAT(Float::Fixed16(k)) => push_fixed(s, *k),
        InstructionParam::FLOAT(Float::Ieee32(_)) => push_str(s, float.as_str()),
        InstructionParam::STR(t) => {
            proof {
                reveal_strlit("\"");
            }
            push_str(s, "\"");
            push_str(s, t.as_str());
            push_str(s, "\"");
            assert(s@ =~= old(s)@ + (seq!['"'] + t@ + seq!['"']));
        },
        InstructionParam::GVAR(n) => {
            proof {
                reveal_strlit("gvar_");
            }
            push_str(s, "gvar_");
            push_dec(s, *n as u64);
            assert(s@ =~= old(s)@ + (seq!['g', 'v', 'a', 'r', '_'] + dec(*n as nat)));
        },
        InstructionParam::LVAR(n) => {
            proof {
                reveal_strlit("lvar_");
            }
            push_str(s, "lvar_");
            push_dec(s, *n as u64);
            assert(s@ =~= old(s)@ + (seq!['l', 'v', 'a', 'r', '_'] + dec(*n as nat)));
        },
        InstructionParam::OFFSET(v) => {
            let m: u64 = if *v < 0 {
                (-(*v as i64)) as u64
            } else {
                *v as u64
            };
            push_dec(s, m);
        },
    }
}

/// Appends the operands of `params` from `j` on, each after a space.
fn push_params(s: &mut String, params: &Vec<InstructionParam>, floats: &Vec<String>)
    ensures
        final(s)@ == old(s)@ + params_text(params@.map_values(|p: InstructionParam| p@), floats@, 0),
{
    let ghost ps = params@.map_values(|p: InstructionParam| p@);
    let empty = String::new();
    let mut j: usize = 0;
    while j < params.len()
        invariant
            j <= params@.len(),
            ps == params@.map_values(|p: InstructionParam| p@),
            empty@ == Seq::<char>::empty(),
            old(s)@ + params_text(ps, floats@, 0) == s@ + params_text(ps, floats@, j as int),
        decreases params@.len() - j,
    {
        let ghost before = s@;
        if let InstructionParam::EOL = params[j] {
        } else {
            proof {
                reveal_strlit(" ");
            }
            push_str(s, " ");
            let float = if j < floats.len() {
                &floats[j]
            } else {
                &empty
            };
            push_param(s, &params[j], float);
            proof {
                assert(float@ == text_at(floats@, j as int));
                assert(before + params_text(ps, floats@, j as int) =~= s@ + params_text(
                    ps,
                    floats@,
                    j + 1,
                ));
            }
        }
        j = j + 1;
    }
    proof {
        assert(s@ + Seq::<char>::empty() =~= s@);
    }
}

/// Appends the listing line of `inst`; `floats` holds, at the index of each
/// IEEE single operand, its text.
pub fn push_line(s: &mut String, inst: &Instruction, floats: &Vec<String>)
    ensures
        final(s)@ == old(s)@ + line_text(inst@, floats@),
{
    proof {
        reveal_strlit("{");
        reveal_strlit("} ");
        reveal_strlit("0");
    }
    push_str(s, "{");
    let mut digits = String::new();
    push_dec(&mut digits, inst.offset as u64);
    let ghost d = digits@;
    assert(d == dec(inst.offset as nat));
    let w = digits.as_str().unicode_len();
    let ghost open = s@;
    if w < 6 {
        let mut pad: usize = 0;
        while pad < 6 - w
            invariant
                w < 6,
                pad <= 6 - w,
                s@ == open + Seq::new(pad as nat, |i: int| '0'),
            decreases 6 - w - pad,
        {
            proof {
                reveal_strlit("0");
            }
            push_str(s, "0");
            pad = pad + 1;
            assert(s@ =~= open + Seq::new(pad as nat, |i: int| '0'));
        }
    } else {
        assert(s@ =~= open + Seq::<char>::empty());
    }
    push_str(s, digits.as_str());
    push_str(s, "} ");
    push_str(s, inst.name.as_str());
    push_params(s, &inst.params, floats);
    proof {
        assert(s@ =~= old(s)@ + line_text(inst@, floats@));
    }
}


} // verus!
