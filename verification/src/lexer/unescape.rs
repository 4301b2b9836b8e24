//! Escape sequences inside string literals.

use vstd::prelude::*;

verus! {

/// The text that a string literal's body stands for: `\t` is a tab, `\n` a
/// line feed, and a backslash before anything else stands for itself.
pub open spec fn unescaped(s: Seq<char>) -> Seq<char>
    decreases s.len(),
{
    if s.len() == 0 {
        Seq::<char>::empty()
    } else if s[0] == '\\' && s.len() > 1 && s[1] == 't' {
        seq!['\t'] + unescaped(s.skip(2))
    } else if s[0] == '\\' && s.len() > 1 && s[1] == 'n' {
        seq!['\n'] + unescaped(s.skip(2))
    } else {
        seq![s[0]] + unescaped(s.skip(1))
    }
}

/// Decodes the escape sequences of a string literal's body.
pub fn unescape(slice: &[char]) -> (r: String)
    ensures
        r@ == unescaped(slice@),
{
    let mut result = String::new();
    let mut i: usize = 0;
    let n: usize = slice.len();
    assert(slice@.skip(0) == slice@);
    while i < n
        invariant
            i <= n == slice@.len(),
            result@ + unescaped(slice@.skip(i as int)) == unescaped(slice@),
        decreases n - i,
    {
        let c: char = slice[i];
        let ghost rest = slice@.skip(i as int);
        let ghost before = result@;
        assert(rest[0] == c);
        if c == '\\' && i + 1 < n && slice[i + 1] == 't' {
            assert(rest[1] == 't');
            result.push('\t');
            i += 2;
            assert(rest.skip(2) == slice@.skip(i as int));
            assert(before.push('\t') + unescaped(rest.skip(2)) == before + (seq!['\t']
                + unescaped(rest.skip(2))));
        } else if c == '\\' && i + 1 < n && slice[i + 1] == 'n' {
            assert(rest[1] == 'n');
            result.push('\n');
            i += 2;
            assert(rest.skip(2) == slice@.skip(i as int));
            assert(before.push('\n') + unescaped(rest.skip(2)) == before + (seq!['\n']
                + unescaped(rest.skip(2))));
        } else {
            result.push(c);
            i += 1;
            assert(rest.skip(1) == slice@.skip(i as int));
            assert(before.push(c) + unescaped(rest.skip(1)) == before + (seq![c] + unescaped(
                rest.skip(1),
            )));
        }
    }
    assert(unescaped(slice@.skip(i as int)) == Seq::<char>::empty());
    assert(result@ + Seq::<char>::empty() == result@);
    result
}

} // verus!
