//! JSON string literals: quoting and escaping, as the response body needs.

use vstd::prelude::*;
use crate::num::digit_char;

verus! {

/// The character for one hexadecimal digit, lower case.
pub open spec fn hex_char(d: nat) -> char {
    if d < 10 {
        digit_char(d)
    } else if d == 10 {
        'a'
    } else if d == 11 {
        'b'
    } else if d == 12 {
        'c'
    } else if d == 13 {
        'd'
    } else if d == 14 {
        'e'
    } else {
        'f'
    }
}

/// How one character appears inside a JSON string literal: quote and
/// backslash escaped, control characters by their short escapes or
/// `\u00..`, everything else as itself.
pub open spec fn escaped_char(c: char) -> Seq<char> {
    if c == '"' {
        seq!['\\', '"']
    } else if c == '\\' {
        seq!['\\', '\\']
    } else if c == '\n' {
        seq!['\\', 'n']
    } else if c == '\r' {
        seq!['\\', 'r']
    } else if c == '\t' {
        seq!['\\', 't']
    } else if c as u32 == 8 {
        seq!['\\', 'b']
    } else if c as u32 == 12 {
        seq!['\\', 'f']
    } else if (c as u32) < 32 {
        seq!['\\', 'u', '0', '0', hex_char((c as u32 / 16) as nat), hex_char((c as u32 % 16) as nat)]
    } else {
        seq![c]
    }
}

/// The escaped body of a JSON string literal.
pub open spec fn escape_string(s: Seq<char>) -> Seq<char>
    decreases s.len(),
{
    if s.len() == 0 {
        Seq::empty()
    } else {
        escape_string(s.drop_last()) + escaped_char(s.last())
    }
}

/// The JSON string literal for `s`: quoted and escaped.
pub open spec fn json_string(s: Seq<char>) -> Seq<char> {
    seq!['"'] + escape_string(s) + seq!['"']
}

/// Append one hexadecimal digit.
fn push_hex_digit(out: &mut String, d: u8)
    requires
        d < 16,
    ensures
        final(out)@ == old(out)@ + seq![hex_char(d as nat)],
{
    let c: char = match d {
        0 => '0',
        1 => '1',
        2 => '2',
        3 => '3',
        4 => '4',
        5 => '5',
        6 => '6',
        7 => '7',
        8 => '8',
        9 => '9',
        10 => 'a',
        11 => 'b',
        12 => 'c',
        13 => 'd',
        14 => 'e',
        _ => 'f',
    };
    out.push(c);
    proof {
        assert(c == hex_char(d as nat));
        assert(out@ =~= old(out)@ + seq![hex_char(d as nat)]);
    }
}

/// Append the escape of one character.
fn push_escaped_char(out: &mut String, c: char)
    ensures
        final(out)@ == old(out)@ + escaped_char(c),
{
    if c == '"' {
        out.append("\\\"");
        proof {
            reveal_strlit("\\\"");
            assert(out@ =~= old(out)@ + escaped_char(c));
        }
    } else if c == '\\' {
        out.append("\\\\");
        proof {
            reveal_strlit("\\\\");
            assert(out@ =~= old(out)@ + escaped_char(c));
        }
    } else if c == '\n' {
        out.append("\\n");
        proof {
            reveal_strlit("\\n");
            assert(out@ =~= old(out)@ + escaped_char(c));
        }
    } else if c == '\r' {
        out.append("\\r");
        proof {
            reveal_strlit("\\r");
            assert(out@ =~= old(out)@ + escaped_char(c));
        }
    } else if c == '\t' {
        out.append("\\t");
        proof {
            reveal_strlit("\\t");
            assert(out@ =~= old(out)@ + escaped_char(c));
        }
    } else if (c as u32) == 8 {
        out.append("\\b");
        proof {
            reveal_strlit("\\b");
            assert(out@ =~= old(out)@ + escaped_char(c));
        }
    } else if (c as u32) == 12 {
        out.append("\\f");
        proof {
            reveal_strlit("\\f");
            assert(out@ =~= old(out)@ + escaped_char(c));
        }
    } else if (c as u32) < 32 {
        out.append("\\u00");
        let x: u32 = c as u32;
        push_hex_digit(out, (x / 16) as u8);
        push_hex_digit(out, (x % 16) as u8);
        proof {
            reveal_strlit("\\u00");
            assert(out@ =~= old(out)@ + escaped_char(c));
        }
    } else {
        out.push(c);
        proof {
            assert(out@ =~= old(out)@ + escaped_char(c));
        }
    }
}

/// Append the JSON string literal for `s`.
pub fn push_json_string(out: &mut String, s: &str)
    ensures
        final(out)@ == old(out)@ + json_string(s@),
{
    out.push('"');
    let n: usize = s.unicode_len();
    let mut i: usize = 0;
    while i < n
        invariant
            n == s@.len(),
            i <= n,
            out@ == old(out)@ + seq!['"'] + escape_string(s@.subrange(0, i as int)),
        decreases n - i,
    {
        let c = s.get_char(i);
        push_escaped_char(out, c);
        proof {
            assert(s@.subrange(0, (i + 1) as int).drop_last() =~= s@.subrange(0, i as int));
            assert(s@.subrange(0, (i + 1) as int).last() == s@[i as int]);
            assert(out@ =~= old(out)@ + seq!['"'] + escape_string(s@.subrange(0, (i + 1) as int)));
        }
        i += 1;
    }
    proof {
        assert(s@.subrange(0, n as int) =~= s@);
    }
    out.push('"');
    proof {
        assert(out@ =~= old(out)@ + json_string(s@));
    }
}

} // verus!
