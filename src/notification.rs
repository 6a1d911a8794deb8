//! Text of desktop notifications.

use vstd::prelude::*;
use vstd::string::StrSliceExecFns;

use crate::text::{push_char, push_str};

verus! {

/// Characters of `s` with each backslash and double quote preceded by a
/// backslash.
pub open spec fn escaped(s: Seq<char>) -> Seq<char>
    decreases s.len(),
{
    if s.len() == 0 {
        s
    } else {
        let c = s.last();
        escaped(s.drop_last()) + if c == '\\' || c == '"' {
            seq!['\\', c]
        } else {
            seq![c]
        }
    }
}

/// Escapes a string for use inside an AppleScript string literal.
pub fn escape_applescript_string(s: &str) -> (r: String)
    ensures
        r@ == escaped(s@),
{
    let mut out = String::new();
    let n = s.unicode_len();
    let mut i: usize = 0;
    while i < n
        invariant
            n == s@.len(),
            i <= n,
            out@ == escaped(s@.subrange(0, i as int)),
        decreases n - i,
    {
        let c = s.get_char(i);
        assert(s@.subrange(0, i + 1).drop_last() == s@.subrange(0, i as int));
        if c == '\\' || c == '"' {
            push_char(&mut out, '\\');
        }
        push_char(&mut out, c);
        proof {
            let prev = escaped(s@.subrange(0, i as int));
            if c == '\\' || c == '"' {
                assert(prev.push('\\').push(c) =~= prev + seq!['\\', c]);
            } else {
                assert(prev.push(c) =~= prev + seq![c]);
            }
        }
        i += 1;
    }
    assert(s@.subrange(0, n as int) == s@);
    out
}


/// The AppleScript line that shows a notification.
pub fn notification_script(title: &str, message: &str) -> (r: String)
    ensures
        r@ == "display notification \""@ + escaped(message@) + "\" with title \""@ + escaped(
            title@,
        ) + "\""@,
{
    let mut out = String::from_str("display notification \"");
    let m = escape_applescript_string(message);
    push_str(&mut out, m.as_str());
    push_str(&mut out, "\" with title \"");
    let t = escape_applescript_string(title);
    push_str(&mut out, t.as_str());
    push_str(&mut out, "\"");
    out
}

} // verus!
