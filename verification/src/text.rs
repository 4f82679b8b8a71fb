use vstd::prelude::*;
use vstd::string::StrSliceExecFns;

verus! {

// ---------------------------------------------------------------------------
// Character classes.  The Unicode tables live in std; each classification is
// taken on trust through one wrapper and named by one spec function.
// ---------------------------------------------------------------------------

/// What char::is_alphanumeric returns; it depends on the character alone.
pub uninterp spec fn is_alnum_char(c: char) -> bool;

/// Relies on char::is_alphanumeric: the Unicode alphanumeric test.
#[verifier::external_body]
pub(crate) fn alnum_char(c: char) -> (r: bool)
    ensures
        r == is_alnum_char(c),
{
    c.is_alphanumeric()
}

/// A word character of the marker syntax: alphanumeric or underscore.
pub open spec fn is_word_char(c: char) -> bool {
    is_alnum_char(c) || c == '_'
}

/// Executable form of [`is_word_char`].
pub(crate) fn word_char(c: char) -> (r: bool)
    ensures
        r == is_word_char(c),
{
    alnum_char(c) || c == '_'
}

/// What char::is_uppercase returns; it depends on the character alone.
pub uninterp spec fn is_upper_char(c: char) -> bool;

/// Relies on char::is_uppercase: the Unicode uppercase test.
#[verifier::external_body]
pub(crate) fn upper_char_test(c: char) -> (r: bool)
    ensures
        r == is_upper_char(c),
{
    c.is_uppercase()
}

/// What char::is_lowercase returns; it depends on the character alone.
pub uninterp spec fn is_lower_char(c: char) -> bool;

/// Relies on char::is_lowercase: the Unicode lowercase test.
#[verifier::external_body]
pub(crate) fn lower_char_test(c: char) -> (r: bool)
    ensures
        r == is_lower_char(c),
{
    c.is_lowercase()
}

/// What char::to_uppercase yields, as a character sequence; it depends on
/// the character alone.
pub uninterp spec fn char_upper(c: char) -> Seq<char>;

/// Relies on char::to_uppercase: the Unicode uppercase form of one character.
#[verifier::external_body]
pub(crate) fn char_to_upper(c: char) -> (r: Vec<char>)
    ensures
        r@ == char_upper(c),
{
    c.to_uppercase().collect()
}

/// What str::to_uppercase yields; it depends on the characters alone.
pub uninterp spec fn str_upper(s: Seq<char>) -> Seq<char>;

/// Relies on str::to_uppercase: the Unicode uppercase form of a string.
#[verifier::external_body]
pub(crate) fn chars_to_upper(v: &Vec<char>) -> (r: Vec<char>)
    ensures
        r@ == str_upper(v@),
{
    v.iter().collect::<String>().to_uppercase().chars().collect()
}

/// What str::to_lowercase yields; it depends on the characters alone.
pub uninterp spec fn str_lower(s: Seq<char>) -> Seq<char>;

/// Relies on str::to_lowercase: the Unicode lowercase form of a string.
#[verifier::external_body]
pub(crate) fn chars_to_lower(v: &Vec<char>) -> (r: Vec<char>)
    ensures
        r@ == str_lower(v@),
{
    v.iter().collect::<String>().to_lowercase().chars().collect()
}

// ---------------------------------------------------------------------------
// Conversions between strings and character vectors.
// ---------------------------------------------------------------------------

/// Collects the characters of a string slice into a vector.
pub(crate) fn str_to_chars(s: &str) -> (v: Vec<char>)
    ensures
        v@ == s@,
{
    let n = s.unicode_len();
    let mut v: Vec<char> = Vec::new();
    let mut i: usize = 0;
    while i < n
        invariant
            i <= n,
            n == s@.len(),
            v@ == s@.take(i as int),
        decreases n - i,
    {
        let c = s.get_char(i);
        v.push(c);
        proof {
            assert(s@.take(i as int).push(s@[i as int]) =~= s@.take(i + 1 as int));
        }
        i += 1;
    }
    proof {
        assert(s@.take(n as int) =~= s@);
    }
    v
}

/// Relies on String's FromIterator impl: builds the string holding exactly
/// the given characters, in order.
#[verifier::external_body]
pub(crate) fn chars_to_string(v: &Vec<char>) -> (s: String)
    ensures
        s@ == v@,
{
    v.iter().collect()
}

/// Copies a character vector.
pub(crate) fn copy_chars(v: &Vec<char>) -> (r: Vec<char>)
    ensures
        r@ == v@,
{
    let mut r: Vec<char> = Vec::new();
    let mut i: usize = 0;
    while i < v.len()
        invariant
            i <= v.len(),
            r@ == v@.take(i as int),
        decreases v.len() - i,
    {
        r.push(v[i]);
        proof {
            assert(v@.take(i as int).push(v@[i as int]) =~= v@.take(i + 1 as int));
        }
        i += 1;
    }
    proof {
        assert(v@.take(v@.len() as int) =~= v@);
    }
    r
}

/// Appends the characters of `v` to `out`.
#[verifier::loop_isolation(false)]
pub(crate) fn append_chars(out: &mut Vec<char>, v: &Vec<char>)
    ensures
        final(out)@ == old(out)@ + v@,
{
    let mut i: usize = 0;
    while i < v.len()
        invariant
            i <= v.len(),
            out@ == old(out)@ + v@.take(i as int),
        decreases v.len() - i,
    {
        out.push(v[i]);
        proof {
            assert((old(out)@ + v@.take(i as int)).push(v@[i as int]) =~= old(out)@ + v@.take(
                i + 1,
            ));
        }
        i += 1;
    }
    proof {
        assert(old(out)@ + v@.take(v@.len() as int) =~= old(out)@ + v@);
    }
}

/// Character-wise equality of two vectors.
pub(crate) fn chars_eq(a: &Vec<char>, b: &Vec<char>) -> (r: bool)
    ensures
        r == (a@ == b@),
{
    if a.len() != b.len() {
        return false;
    }
    let mut i: usize = 0;
    while i < a.len()
        invariant
            i <= a.len(),
            a@.len() == b@.len(),
            forall|j: int| 0 <= j < i ==> a@[j] == b@[j],
        decreases a.len() - i,
    {
        if a[i] != b[i] {
            return false;
        }
        i += 1;
    }
    proof {
        assert(a@ =~= b@);
    }
    true
}

// ---------------------------------------------------------------------------
// Capitalization inheritance.
// ---------------------------------------------------------------------------

/// The case adaptation of `content` under the case pattern of `sym`:
/// a symbol spelled with no uppercase leaves the content unchanged; one whose
/// first character is uppercase and that still holds a lowercase letter
/// uppercases the content's first character; one spelled without any
/// lowercase letter uppercases the whole content.
pub open spec fn capitalize_spec(sym: Seq<char>, content: Seq<char>) -> Seq<char> {
    if sym.len() > 0 && is_upper_char(sym[0]) {
        if exists|i: int| 0 <= i < sym.len() && is_lower_char(sym[i]) {
            if content.len() == 0 {
                content
            } else {
                char_upper(content[0]) + content.skip(1)
            }
        } else {
            str_upper(content)
        }
    } else {
        content
    }
}

/// Adapts the case of `content` to the case pattern of `sym`.
pub(crate) fn capitalize_chars(sym: &Vec<char>, content: &Vec<char>) -> (r: Vec<char>)
    ensures
        r@ == capitalize_spec(sym@, content@),
{
    if sym.len() > 0 && upper_char_test(sym[0]) {
        let mut has_lower = false;
        let mut i: usize = 0;
        while i < sym.len()
            invariant
                i <= sym.len(),
                has_lower == exists|j: int| 0 <= j < i && is_lower_char(sym@[j]),
            decreases sym.len() - i,
        {
            if lower_char_test(sym[i]) {
                has_lower = true;
            }
            i += 1;
        }
        if has_lower {
            if content.len() == 0 {
                Vec::new()
            } else {
                let mut r = char_to_upper(content[0]);
                let mut j: usize = 1;
                while j < content.len()
                    invariant
                        1 <= j <= content.len(),
                        content@.len() > 0,
                        r@ == char_upper(content@[0]) + content@.subrange(1, j as int),
                    decreases content.len() - j,
                {
                    r.push(content[j]);
                    proof {
                        assert(char_upper(content@[0]) + content@.subrange(1, j + 1 as int)
                            =~= (char_upper(content@[0]) + content@.subrange(1, j as int)).push(
                            content@[j as int],
                        ));
                    }
                    j += 1;
                }
                proof {
                    assert(content@.subrange(1, content@.len() as int) =~= content@.skip(1));
                    assert(char_upper(content@[0]) + content@.subrange(1, 1int) =~= char_upper(
                        content@[0],
                    ));
                }
                r
            }
        } else {
            chars_to_upper(content)
        }
    } else {
        copy_chars(content)
    }
}

} // verus!
