//! The dollar escaper: rewrites a replacement template so that only numeric
//! back-references are expanded by the substitution engine, and every other
//! dollar sign comes out as a literal dollar.

use vstd::prelude::*;
use crate::text::chars_of;

verus! {

/// An ASCII decimal digit.
pub open spec fn is_digit(c: char) -> bool {
    '0' <= c && c <= '9'
}

/// The escaped form of the template `s`.
///
/// Read from the left: a character other than `$` stands for itself; `$`
/// before a digit opens a back-reference, written `${`, the digits, `}`;
/// `$$` stays `$$`; `$` before anything else is doubled, and what follows
/// it is read again from the start; a `$` that ends the template stays single.
pub open spec fn escaped(s: Seq<char>) -> Seq<char>
    decreases s.len(), 0nat,
{
    if s.len() == 0 {
        Seq::empty()
    } else if s[0] != '$' {
        seq![s[0]] + escaped(s.skip(1))
    } else if s.len() == 1 {
        seq!['$']
    } else if is_digit(s[1]) {
        seq!['$', '{'] + escaped_reference(s.skip(1))
    } else if s[1] == '$' {
        seq!['$', '$'] + escaped(s.skip(2))
    } else {
        seq!['$', '$'] + escaped(s.skip(1))
    }
}

/// The escaped form of `s` where `s` is read inside a back-reference: the
/// leading digits belong to the reference, which closes with `}` before the
/// first character that is no digit.
pub open spec fn escaped_reference(s: Seq<char>) -> Seq<char>
    decreases s.len(), 1nat,
{
    if s.len() > 0 && is_digit(s[0]) {
        seq![s[0]] + escaped_reference(s.skip(1))
    } else {
        seq!['}'] + escaped(s)
    }
}

fn is_ascii_digit(c: char) -> (b: bool)
    ensures
        b == is_digit(c),
{
    '0' <= c && c <= '9'
}

/// Escapes the replacement template `s`.
pub fn escape_non_numeric_dollars(s: &str) -> (result: String)
    ensures
        result@ == escaped(s@),
{
    let chars = chars_of(s);
    let mut result = String::new();
    let mut i: usize = 0;
    assert(chars@.skip(0) == chars@);
    assert(result@ + escaped(chars@) == escaped(chars@));
    while i < chars.len()
        invariant
            i <= chars.len(),
            chars@ == s@,
            escaped(s@) == result@ + escaped(chars@.skip(i as int)),
        decreases chars.len() - i,
    {
        let ghost rest = chars@.skip(i as int);
        let c = chars[i];
        if c != '$' {
            assert(rest.skip(1) == chars@.skip(i + 1));
            result.push(c);
            i += 1;
        } else if i + 1 >= chars.len() {
            assert(escaped(rest.skip(1)) == Seq::<char>::empty());
            assert(rest.skip(1) == chars@.skip(i + 1));
            result.push('$');
            i += 1;
        } else if is_ascii_digit(chars[i + 1]) {
            result.push('$');
            result.push('{');
            let ghost opened = i;
            i += 1;
            assert(rest.skip(1) == chars@.skip(i as int));
            while i < chars.len() && is_ascii_digit(chars[i])
                invariant
                    opened < i <= chars.len(),
                    chars@ == s@,
                    escaped(s@) == result@ + escaped_reference(chars@.skip(i as int)),
                decreases chars.len() - i,
            {
                assert(chars@.skip(i as int).skip(1) == chars@.skip(i + 1));
                result.push(chars[i]);
                i += 1;
            }
            result.push('}');
        } else if chars[i + 1] == '$' {
            assert(rest.skip(2) == chars@.skip(i + 2));
            result.push('$');
            result.push('$');
            i += 2;
        } else {
            assert(rest.skip(1) == chars@.skip(i + 1));
            result.push('$');
            result.push('$');
            i += 1;
        }
    }
    result
}

/// A run of `n` dollar signs.
pub open spec fn dollars(n: nat) -> Seq<char> {
    Seq::new(n, |i: int| '$')
}

/// Every character of `s` is a digit.
pub open spec fn all_digits(s: Seq<char>) -> bool {
    forall|i: int| 0 <= i < s.len() ==> is_digit(#[trigger] s[i])
}

/// A pair `$$` is kept as it is, whatever follows it.
pub proof fn lemma_escaped_pair(rest: Seq<char>)
    ensures
        escaped(seq!['$', '$'] + rest) == seq!['$', '$'] + escaped(rest),
{
    let s = seq!['$', '$'] + rest;
    assert(s.skip(2) == rest);
}

/// Escaping leaves a run of dollar signs as it is: the pairs are already
/// escaped, and a last single dollar ends the template. So escaping such a
/// run twice gives what escaping it once gives.
pub proof fn law_dollar_run_unchanged(n: nat)
    ensures
        escaped(dollars(n)) == dollars(n),
        escaped(escaped(dollars(n))) == escaped(dollars(n)),
    decreases n,
{
    if n >= 2 {
        law_dollar_run_unchanged((n - 2) as nat);
        assert(dollars(n) == seq!['$', '$'] + dollars((n - 2) as nat));
        lemma_escaped_pair(dollars((n - 2) as nat));
    } else if n == 1 {
        assert(dollars(1) == seq!['$']);
    } else {
        assert(dollars(0) == Seq::<char>::empty());
    }
}

/// A dollar sign that ends the template is kept single, whatever stands
/// before it.
pub proof fn law_trailing_dollar_kept(prefix: Seq<char>)
    ensures
        escaped(prefix.push('$')) == escaped(prefix).push('$'),
{
    lemma_trailing_dollar(prefix, false);
}

proof fn lemma_trailing_dollar(prefix: Seq<char>, in_reference: bool)
    ensures
        !in_reference ==> escaped(prefix.push('$')) == escaped(prefix).push('$'),
        in_reference ==> escaped_reference(prefix.push('$')) == escaped_reference(prefix).push('$'),
    decreases prefix.len(), (if in_reference { 1nat } else { 0nat }),
{
    let s = prefix.push('$');
    if in_reference {
        if prefix.len() > 0 && is_digit(prefix[0]) {
            assert(s.skip(1) == prefix.skip(1).push('$'));
            lemma_trailing_dollar(prefix.skip(1), true);
            assert(escaped_reference(s) == seq![s[0]] + escaped_reference(s.skip(1)));
        } else {
            lemma_trailing_dollar(prefix, false);
            assert(escaped_reference(s) == seq!['}'] + escaped(s));
        }
    } else if prefix.len() == 0 {
        assert(s == seq!['$']);
        assert(escaped(prefix) == Seq::<char>::empty());
    } else if prefix[0] != '$' {
        assert(s.skip(1) == prefix.skip(1).push('$'));
        lemma_trailing_dollar(prefix.skip(1), false);
    } else if prefix.len() == 1 {
        assert(s == seq!['$', '$']);
        assert(s.skip(2) == Seq::<char>::empty());
        assert(escaped(s.skip(2)) == Seq::<char>::empty());
        assert(escaped(prefix) == seq!['$']);
    } else if is_digit(prefix[1]) {
        assert(s.skip(1) == prefix.skip(1).push('$'));
        lemma_trailing_dollar(prefix.skip(1), true);
    } else if prefix[1] == '$' {
        assert(s.skip(2) == prefix.skip(2).push('$'));
        lemma_trailing_dollar(prefix.skip(2), false);
    } else {
        assert(s.skip(1) == prefix.skip(1).push('$'));
        lemma_trailing_dollar(prefix.skip(1), false);
    }
}

/// Inside a back-reference, a run of digits is taken whole, and the
/// reference closes before text that does not start with a digit.
pub proof fn lemma_reference_closes(digits: Seq<char>, rest: Seq<char>)
    requires
        all_digits(digits),
        rest.len() == 0 || !is_digit(rest[0]),
    ensures
        escaped_reference(digits + rest) == digits + seq!['}'] + escaped(rest),
    decreases digits.len(),
{
    let s = digits + rest;
    if digits.len() == 0 {
        assert(s == rest);
        assert(digits + seq!['}'] + escaped(rest) == seq!['}'] + escaped(rest));
    } else {
        assert(s[0] == digits[0]);
        assert(s.skip(1) == digits.skip(1) + rest);
        lemma_reference_closes(digits.skip(1), rest);
        assert(seq![digits[0]] + (digits.skip(1) + seq!['}'] + escaped(rest)) == digits + seq!['}']
            + escaped(rest));
    }
}

/// A dollar sign before digits is a back-reference: all the digits that
/// follow go between `${` and `}`, and the text after them is escaped on its
/// own, so the two are never read as one name.
pub proof fn law_reference_delimited(digits: Seq<char>, rest: Seq<char>)
    requires
        digits.len() > 0,
        all_digits(digits),
        rest.len() == 0 || !is_digit(rest[0]),
    ensures
        escaped(seq!['$'] + digits + rest) == seq!['$', '{'] + digits + seq!['}'] + escaped(rest),
{
    let s = seq!['$'] + digits + rest;
    assert(s[1] == digits[0]);
    assert(s.skip(1) == digits + rest);
    lemma_reference_closes(digits, rest);
    assert(seq!['$', '{'] + (digits + seq!['}'] + escaped(rest)) == seq!['$', '{'] + digits
        + seq!['}'] + escaped(rest));
}

/// A dollar sign before a character that is neither a digit nor a dollar
/// sign is doubled, and that character is kept after it.
pub proof fn law_other_dollar_doubled(follower: char, rest: Seq<char>)
    requires
        !is_digit(follower),
        follower != '$',
    ensures
        escaped(seq!['$', follower] + rest) == seq!['$', '$', follower] + escaped(rest),
{
    let s = seq!['$', follower] + rest;
    let t = s.skip(1);
    assert(t == seq![follower] + rest);
    assert(t.skip(1) == rest);
    assert(escaped(t) == seq![follower] + escaped(rest));
    assert(seq!['$', '$'] + (seq![follower] + escaped(rest)) == seq!['$', '$', follower] + escaped(
        rest,
    ));
}

} // verus!
