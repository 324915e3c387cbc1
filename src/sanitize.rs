use vstd::prelude::*;

verus! {

/// What the HTML sanitizer makes of a text: unsafe markup stripped.
pub uninterp spec fn cleaned(s: Seq<char>) -> Seq<char>;

/// Relies on `ammonia::clean`: the sanitized text depends on the input alone.
#[verifier::external_body]
pub(crate) fn clean(s: &str) -> (r: String)
    ensures
        r@ == cleaned(s@),
{
    ammonia::clean(s)
}

/// Relies on `String::push`: the character is appended at the end.
#[verifier::external_body]
pub(crate) fn push_char(s: &mut String, c: char)
    ensures
        final(s)@ == old(s)@.push(c),
{
    s.push(c)
}

} // verus!
