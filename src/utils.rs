use crate::text::substring;
use vstd::prelude::*;
use vstd::string::*;

verus! {

/// The first position of `c` in `s` at or after `i`.
pub open spec fn first_char_from(s: Seq<char>, c: char, i: int) -> Option<int>
    decreases s.len() - i,
{
    if i < 0 || i >= s.len() {
        None
    } else if s[i] == c {
        Some(i)
    } else {
        first_char_from(s, c, i + 1)
    }
}

/// Splits `string` at the first `pattern`: the text before it and the text
/// after it, or `None` where it does not occur.
pub fn split_once(string: &str, pattern: char) -> (r: Option<(String, String)>)
    ensures
        match first_char_from(string@, pattern, 0) {
            Some(p) => r matches Some((a, b)) && a@ == string@.subrange(0, p) && b@
                == string@.subrange(p + 1, string@.len() as int),
            None => r is None,
        },
{
    let n = string.unicode_len();
    let mut i: usize = 0;
    while i < n
        invariant
            n == string@.len(),
            i <= n,
            first_char_from(string@, pattern, 0) == first_char_from(string@, pattern, i as int),
        decreases n - i,
    {
        if string.get_char(i) == pattern {
            return Some((substring(string, 0, i), substring(string, i + 1, n)));
        }
        i = i + 1;
    }
    None
}

/// The value of a `Result` whose two sides have the same type.
pub fn unwrap_result<T>(result: Result<T, T>) -> (r: T)
    ensures
        r == match result {
            Ok(t) => t,
            Err(t) => t,
        },
{
    match result {
        Ok(t) => t,
        Err(t) => t,
    }
}

} // verus!
