//! Escaping for the chat transport's marked-up message format, in which a
//! backslash makes the character after it literal.
use vstd::prelude::*;

verus! {

/// The characters that the message format reads as formatting control.
pub open spec fn is_special(c: char) -> bool {
    c == '\\' || c == '_' || c == '*' || c == '[' || c == ']' || c == '(' || c == ')'
        || c == '~' || c == '`' || c == '>' || c == '#' || c == '+' || c == '-' || c == '='
        || c == '|' || c == '{' || c == '}' || c == '.' || c == '!'
}

/// `s` with a backslash put before each special character.
pub open spec fn escaped(s: Seq<char>) -> Seq<char>
    decreases s.len(),
{
    if s.len() == 0 {
        Seq::empty()
    } else if is_special(s[0]) {
        seq!['\\', s[0]] + escaped(s.drop_first())
    } else {
        seq![s[0]] + escaped(s.drop_first())
    }
}

/// The literal text that the message format shows for the marked-up text `s`:
/// a backslash is dropped and the character after it shown as it is.
pub open spec fn rendered(s: Seq<char>) -> Seq<char>
    decreases s.len(),
{
    if s.len() == 0 {
        Seq::empty()
    } else if s[0] == '\\' && s.len() >= 2 {
        seq![s[1]] + rendered(s.skip(2))
    } else {
        seq![s[0]] + rendered(s.skip(1))
    }
}

/// Marked-up text in which every special character is escaped: each backslash
/// escapes the character after it, and no special character stands bare.
pub open spec fn fully_escaped(s: Seq<char>) -> bool
    decreases s.len(),
{
    if s.len() == 0 {
        true
    } else if s[0] == '\\' {
        s.len() >= 2 && fully_escaped(s.skip(2))
    } else {
        !is_special(s[0]) && fully_escaped(s.skip(1))
    }
}

/// Relies on `teloxide::utils::markdown::escape`: it walks the characters in
/// order and puts a backslash before each one of its nineteen special characters.
#[verifier::external_body]
pub(crate) fn escape_markup(s: &str) -> (r: String)
    ensures
        r@ == escaped(s@),
{
    teloxide::utils::markdown::escape(s)
}

/// Escaping, then reading the result as the message format does, gives back
/// the text itself; the escaped text holds no bare control character.
pub proof fn lemma_escape_round_trip(s: Seq<char>)
    ensures
        rendered(escaped(s)) == s,
        fully_escaped(escaped(s)),
    decreases s.len(),
{
    if s.len() > 0 {
        let rest = escaped(s.drop_first());
        lemma_escape_round_trip(s.drop_first());
        if is_special(s[0]) {
            let e = seq!['\\', s[0]] + rest;
            assert(e.skip(2) =~= rest);
            assert(rendered(e) == seq![s[0]] + rendered(rest));
        } else {
            let e = seq![s[0]] + rest;
            assert(e.skip(1) =~= rest);
            assert(rendered(e) == seq![s[0]] + rendered(rest));
        }
        assert(seq![s[0]] + s.drop_first() =~= s);
    }
}

} // verus!
