use vstd::prelude::*;
use vstd::string::{StrSliceExecFns, StringExecFns};

verus! {

/// The character that denotes one decimal digit.
pub open spec fn spec_digit_char(d: nat) -> char {
    if d == 0 {
        '0'
    } else if d == 1 {
        '1'
    } else if d == 2 {
        '2'
    } else if d == 3 {
        '3'
    } else if d == 4 {
        '4'
    } else if d == 5 {
        '5'
    } else if d == 6 {
        '6'
    } else if d == 7 {
        '7'
    } else if d == 8 {
        '8'
    } else {
        '9'
    }
}

/// The decimal notation of a number, most significant digit first.
pub open spec fn spec_decimal(n: nat) -> Seq<char>
    decreases n,
{
    if n < 10 {
        seq![spec_digit_char(n)]
    } else {
        spec_decimal(n / 10).push(spec_digit_char(n % 10))
    }
}

/// A run of spaces of the given length.
pub open spec fn spec_spaces(n: nat) -> Seq<char>
    decreases n,
{
    if n == 0 {
        Seq::empty()
    } else {
        spec_spaces((n - 1) as nat).push(' ')
    }
}

/// Text padded with spaces on the right up to the given width; text already
/// that wide is kept as it is.
pub open spec fn spec_padded(s: Seq<char>, width: nat) -> Seq<char> {
    if s.len() < width {
        s + spec_spaces((width - s.len()) as nat)
    } else {
        s
    }
}

/// The one-character notation of a decimal digit.
fn digit_str(d: usize) -> (ret: &'static str)
    requires
        d < 10,
    ensures
        ret@ == seq![spec_digit_char(d as nat)],
{
    proof {
        reveal_strlit("0");
        reveal_strlit("1");
        reveal_strlit("2");
        reveal_strlit("3");
        reveal_strlit("4");
        reveal_strlit("5");
        reveal_strlit("6");
        reveal_strlit("7");
        reveal_strlit("8");
        reveal_strlit("9");
    }
    match d {
        0 => "0",
        1 => "1",
        2 => "2",
        3 => "3",
        4 => "4",
        5 => "5",
        6 => "6",
        7 => "7",
        8 => "8",
        _ => "9",
    }
}

/// Renders a number in decimal notation.
pub fn decimal_string(n: usize) -> (ret: String)
    ensures
        ret@ == spec_decimal(n as nat),
    decreases n,
{
    if n < 10 {
        String::from_str(digit_str(n))
    } else {
        let mut prefix = decimal_string(n / 10);
        prefix.append(digit_str(n % 10));
        proof {
            assert(prefix@ =~= spec_decimal(n as nat));
        }
        prefix
    }
}

/// Pads text with spaces on the right up to the given width.
pub fn pad_right(s: String, width: usize) -> (ret: String)
    ensures
        ret@ == spec_padded(s@, width as nat),
{
    let mut out = s;
    let mut grown: usize = 0;
    let ghost base = out@;
    while out.as_str().unicode_len() < width
        invariant
            out@ == base + spec_spaces(grown as nat),
            grown as int == out@.len() - base.len(),
            out@.len() <= width || grown == 0,
        decreases width - out@.len(),
    {
        out.append(" ");
        grown += 1;
        proof {
            reveal_strlit(" ");
            assert(out@ =~= base + spec_spaces(grown as nat));
        }
    }
    proof {
        if base.len() < width {
            assert(out@.len() == width);
            assert(out@ =~= spec_padded(base, width as nat)) by {
                assert(spec_spaces((width - base.len()) as nat).len() == ((width
                    - base.len()) as nat)) by {
                    lemma_spaces_len((width - base.len()) as nat);
                }
                lemma_spaces_len(grown as nat);
            }
        } else {
            assert(grown == 0);
            assert(out@ =~= spec_padded(base, width as nat));
        }
    }
    out
}

proof fn lemma_spaces_len(n: nat)
    ensures
        spec_spaces(n).len() == n,
    decreases n,
{
    if n > 0 {
        lemma_spaces_len((n - 1) as nat);
    }
}

} // verus!
