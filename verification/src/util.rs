//! Unquoting of values as the control output prints them: a string may be
//! wrapped in double quotes or angle brackets.

use vstd::prelude::*;
use vstd::string::*;

verus! {

pub open spec fn is_open_mark(c: char) -> bool {
    c == '<' || c == '"'
}

pub open spec fn is_close_mark(c: char) -> bool {
    c == '>' || c == '"'
}

/// One leading quote or `<` and one trailing quote or `>` are removed,
/// each independently of the other; anything else is kept as it is.
pub open spec fn unquote_spec(s: Seq<char>) -> Seq<char> {
    let a = if s.len() > 0 && is_open_mark(s[0]) {
        s.drop_first()
    } else {
        s
    };
    if a.len() > 0 && is_close_mark(a.last()) {
        a.drop_last()
    } else {
        a
    }
}

/// Strips one layer of quoting markers from a parsed value.
pub fn unquote_parsed_string_value(value: &str) -> (r: String)
    ensures
        r@ == unquote_spec(value@),
{
    let n = value.unicode_len();
    let mut a: usize = 0;
    if n > 0 {
        let c = value.get_char(0);
        if c == '<' || c == '"' {
            a = 1;
        }
    }
    let mut b: usize = n;
    if b > a {
        let c = value.get_char(b - 1);
        if c == '>' || c == '"' {
            b = b - 1;
        }
    }
    proof {
        let s = value@;
        let t = if s.len() > 0 && is_open_mark(s[0]) {
            s.drop_first()
        } else {
            s
        };
        assert(t =~= s.subrange(a as int, n as int));
        if t.len() > 0 && is_close_mark(t.last()) {
            assert(t.last() == s[n - 1]);
            assert(t.drop_last() =~= s.subrange(a as int, b as int));
        } else {
            assert(t =~= s.subrange(a as int, b as int));
        }
    }
    value.substring_char(a, b).to_owned()
}


} // verus!
