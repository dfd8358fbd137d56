//! Human-readable memory sizes for gauge labels and axis labels: the value
//! scaled down to the largest fitting binary unit, rendered in decimal
//! with the unit letter appended.

use vstd::prelude::*;
use vstd::string::StringExecFns;

verus! {

/// The decimal digit character of one digit value.
pub open spec fn digit_char(d: int) -> char {
    if d == 0 {
        '0'
    } else if d == 1 {
        '1'
    } else if d == 2 {
        '2'
    } else if d == 3 {
        '3'
    } else if d == 4 {
        '4'
    } else if d == 5 {
        '5'
    } else if d == 6 {
        '6'
    } else if d == 7 {
        '7'
    } else if d == 8 {
        '8'
    } else {
        '9'
    }
}

/// The decimal digit characters of a number, most significant first.
pub open spec fn dec_digits(n: int) -> Seq<char>
    decreases n,
{
    if n < 10 {
        seq![digit_char(n % 10)]
    } else {
        dec_digits(n / 10).push(digit_char(n % 10))
    }
}

/// The value scaled down to its display unit: whole gibibytes, mebibytes
/// or kibibytes when the value reaches them, otherwise the raw value.
pub open spec fn mem_scaled(v: u64) -> u64 {
    if v >= 1073741824 {
        (v / 1073741824) as u64
    } else if v >= 1048576 {
        (v / 1048576) as u64
    } else if v >= 1024 {
        (v / 1024) as u64
    } else {
        v
    }
}

/// The unit letter matching `mem_scaled`, empty below one kibibyte.
pub open spec fn mem_unit(v: u64) -> Seq<char> {
    if v >= 1073741824 {
        seq!['G']
    } else if v >= 1048576 {
        seq!['M']
    } else if v >= 1024 {
        seq!['K']
    } else {
        Seq::empty()
    }
}

/// Appends the decimal digits of `n`.
fn push_decimal(s: &mut String, n: u64)
    ensures
        final(s)@ == old(s)@ + dec_digits(n as int),
    decreases n,
{
    if n >= 10 {
        push_decimal(s, n / 10);
    }
    let ghost mid = s@;
    let d = n % 10;
    match d {
        0 => {
            proof {
                reveal_strlit("0");
            }
            s.append("0");
        },
        1 => {
            proof {
                reveal_strlit("1");
            }
            s.append("1");
        },
        2 => {
            proof {
                reveal_strlit("2");
            }
            s.append("2");
        },
        3 => {
            proof {
                reveal_strlit("3");
            }
            s.append("3");
        },
        4 => {
            proof {
                reveal_strlit("4");
            }
            s.append("4");
        },
        5 => {
            proof {
                reveal_strlit("5");
            }
            s.append("5");
        },
        6 => {
            proof {
                reveal_strlit("6");
            }
            s.append("6");
        },
        7 => {
            proof {
                reveal_strlit("7");
            }
            s.append("7");
        },
        8 => {
            proof {
                reveal_strlit("8");
            }
            s.append("8");
        },
        _ => {
            proof {
                reveal_strlit("9");
            }
            s.append("9");
        },
    }
    proof {
        assert(s@ =~= mid + seq![digit_char(n as int % 10)]);
        if n >= 10 {
            assert(s@ =~= old(s)@ + dec_digits(n as int));
        } else {
            assert(s@ =~= old(s)@ + dec_digits(n as int));
        }
    }
}

/// Renders a byte count for a gauge or axis label: scaled to the largest
/// fitting binary unit, in whole units, with the unit letter.
pub fn short_mem_string(val: u64) -> (r: String)
    ensures
        r@ == dec_digits(mem_scaled(val) as int) + mem_unit(val),
{
    let mut nval: u64 = val;
    let mut s = String::new();
    if val >= 1073741824 {
        nval = val / 1073741824;
        push_decimal(&mut s, nval);
        proof {
            reveal_strlit("G");
        }
        s.append("G");
    } else if val >= 1048576 {
        nval = val / 1048576;
        push_decimal(&mut s, nval);
        proof {
            reveal_strlit("M");
        }
        s.append("M");
    } else if val >= 1024 {
        nval = val / 1024;
        push_decimal(&mut s, nval);
        proof {
            reveal_strlit("K");
        }
        s.append("K");
    } else {
        push_decimal(&mut s, nval);
    }
    proof {
        assert(s@ =~= dec_digits(mem_scaled(val) as int) + mem_unit(val));
    }
    s
}

} // verus!
