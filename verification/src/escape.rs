use vstd::prelude::*;

verus! {

// ---------------------------------------------------------------------------
// The pattern escaper.  An escape marker `~` followed by one syntax-significant
// character is replaced by a readable placeholder before any content is
// stored; the placeholders are turned back into the literal characters only on
// the final output of a top-level expansion.
// ---------------------------------------------------------------------------

/// The syntax-significant characters that an escape marker may precede.
pub open spec fn is_syntax_char(c: char) -> bool {
    ||| c == ' '
    ||| c == '~'
    ||| c == '['
    ||| c == ']'
    ||| c == '{'
    ||| c == '}'
    ||| c == '/'
    ||| c == '\u{b7}'
}

/// The placeholder standing for one escaped syntax character.
pub open spec fn placeholder(c: char) -> Seq<char>
    recommends
        is_syntax_char(c),
{
    if c == ' ' {
        seq!['~', '<', 's', 'p', 'a', 'c', 'e', '>']
    } else if c == '~' {
        seq!['~', '<', 't', 'i', 'l', 'd', 'e', '>']
    } else if c == '[' {
        seq!['~', '<', 'l', 'e', 'f', 't', 's', 'q', 'u', 'a', 'r', 'e', '>']
    } else if c == ']' {
        seq!['~', '<', 'r', 'i', 'g', 'h', 't', 's', 'q', 'u', 'a', 'r', 'e', '>']
    } else if c == '{' {
        seq!['~', '<', 'l', 'e', 'f', 't', 'c', 'u', 'r', 'l', 'y', '>']
    } else if c == '}' {
        seq!['~', '<', 'r', 'i', 'g', 'h', 't', 'c', 'u', 'r', 'l', 'y', '>']
    } else if c == '/' {
        seq!['~', '<', 's', 'l', 'a', 's', 'h', '>']
    } else {
        seq!['~', '<', 'm', 'e', 'd', 'i', 'a', 'n', '>']
    }
}

/// The escaped form of `t` from position `pos` on.  A marker followed by a
/// syntax character becomes that character's placeholder; a marker followed
/// by any other character (but a line break) is dropped and the character
/// kept; a marker at the end, or right before a line break, stays as written.
pub open spec fn escape_from(t: Seq<char>, pos: nat) -> Seq<char>
    decreases t.len() - pos,
{
    if pos >= t.len() {
        Seq::empty()
    } else if t[pos as int] == '~' && pos + 1 < t.len() && t[pos + 1 as int] != '\n' {
        if is_syntax_char(t[pos + 1 as int]) {
            placeholder(t[pos + 1 as int]) + escape_from(t, pos + 2)
        } else {
            seq![t[pos + 1 as int]] + escape_from(t, pos + 2)
        }
    } else {
        seq![t[pos as int]] + escape_from(t, pos + 1)
    }
}

/// Whether the placeholder of `c` stands at position `pos` of `t`.
pub open spec fn placeholder_matches(t: Seq<char>, pos: nat, c: char) -> bool {
    &&& pos + placeholder(c).len() <= t.len()
    &&& t.subrange(pos as int, pos + placeholder(c).len() as int) == placeholder(c)
}

/// The unescaped form of `t` from position `pos` on: each placeholder becomes
/// its literal character; everything else, a placeholder-shaped run with an
/// unknown tag included, is kept as written.
pub open spec fn unescape_from(t: Seq<char>, pos: nat) -> Seq<char>
    decreases t.len() - pos,
{
    if pos >= t.len() {
        Seq::empty()
    } else if placeholder_matches(t, pos, ' ') {
        seq![' '] + unescape_from(t, pos + 8)
    } else if placeholder_matches(t, pos, '~') {
        seq!['~'] + unescape_from(t, pos + 8)
    } else if placeholder_matches(t, pos, '[') {
        seq!['['] + unescape_from(t, pos + 13)
    } else if placeholder_matches(t, pos, ']') {
        seq![']'] + unescape_from(t, pos + 14)
    } else if placeholder_matches(t, pos, '{') {
        seq!['{'] + unescape_from(t, pos + 12)
    } else if placeholder_matches(t, pos, '}') {
        seq!['}'] + unescape_from(t, pos + 13)
    } else if placeholder_matches(t, pos, '/') {
        seq!['/'] + unescape_from(t, pos + 8)
    } else if placeholder_matches(t, pos, '\u{b7}') {
        seq!['\u{b7}'] + unescape_from(t, pos + 9)
    } else {
        seq![t[pos as int]] + unescape_from(t, pos + 1)
    }
}

/// Appends the placeholder of the syntax character `c`.
pub(crate) fn push_placeholder(out: &mut Vec<char>, c: char)
    requires
        is_syntax_char(c),
    ensures
        final(out)@ == old(out)@ + placeholder(c),
{
    out.push('~');
    out.push('<');
    if c == ' ' {
        out.push('s');
        out.push('p');
        out.push('a');
        out.push('c');
        out.push('e');
    } else if c == '~' {
        out.push('t');
        out.push('i');
        out.push('l');
        out.push('d');
        out.push('e');
    } else if c == '[' {
        out.push('l');
        out.push('e');
        out.push('f');
        out.push('t');
        out.push('s');
        out.push('q');
        out.push('u');
        out.push('a');
        out.push('r');
        out.push('e');
    } else if c == ']' {
        out.push('r');
        out.push('i');
        out.push('g');
        out.push('h');
        out.push('t');
        out.push('s');
        out.push('q');
        out.push('u');
        out.push('a');
        out.push('r');
        out.push('e');
    } else if c == '{' {
        out.push('l');
        out.push('e');
        out.push('f');
        out.push('t');
        out.push('c');
        out.push('u');
        out.push('r');
        out.push('l');
        out.push('y');
    } else if c == '}' {
        out.push('r');
        out.push('i');
        out.push('g');
        out.push('h');
        out.push('t');
        out.push('c');
        out.push('u');
        out.push('r');
        out.push('l');
        out.push('y');
    } else if c == '/' {
        out.push('s');
        out.push('l');
        out.push('a');
        out.push('s');
        out.push('h');
    } else {
        out.push('m');
        out.push('e');
        out.push('d');
        out.push('i');
        out.push('a');
        out.push('n');
    }
    out.push('>');
    proof {
        assert(out@ =~= old(out)@ + placeholder(c));
    }
}

/// Tests `c` against the syntax-significant set.
pub(crate) fn syntax_char(c: char) -> (r: bool)
    ensures
        r == is_syntax_char(c),
{
    c == ' ' || c == '~' || c == '[' || c == ']' || c == '{' || c == '}' || c == '/' || c
        == '\u{b7}'
}

/// Escapes a text: the executable form of [`escape_from`].
#[verifier::loop_isolation(false)]
pub(crate) fn escape_chars(t: &Vec<char>) -> (r: Vec<char>)
    ensures
        r@ == escape_from(t@, 0),
{
    let mut out: Vec<char> = Vec::new();
    let mut i: usize = 0;
    while i < t.len()
        invariant
            i <= t.len(),
            escape_from(t@, 0) == out@ + escape_from(t@, i as nat),
        decreases t.len() - i,
    {
        let ghost pre = out@;
        if t[i] == '~' && i + 1 < t.len() && t[i + 1] != '\n' {
            let c = t[i + 1];
            if syntax_char(c) {
                push_placeholder(&mut out, c);
                proof {
                    assert(escape_from(t@, i as nat) == placeholder(c) + escape_from(
                        t@,
                        (i + 2) as nat,
                    ));
                    assert(pre + escape_from(t@, i as nat) =~= out@ + escape_from(
                        t@,
                        (i + 2) as nat,
                    ));
                }
            } else {
                out.push(c);
                proof {
                    assert(escape_from(t@, i as nat) == seq![c] + escape_from(t@, (i + 2) as nat));
                    assert(pre + escape_from(t@, i as nat) =~= out@ + escape_from(
                        t@,
                        (i + 2) as nat,
                    ));
                }
            }
            i += 2;
        } else {
            out.push(t[i]);
            proof {
                assert(escape_from(t@, i as nat) == seq![t@[i as int]] + escape_from(
                    t@,
                    (i + 1) as nat,
                ));
                assert(pre + escape_from(t@, i as nat) =~= out@ + escape_from(t@, (i + 1) as nat));
            }
            i += 1;
        }
    }
    proof {
        assert(out@ + escape_from(t@, t@.len() as nat) =~= out@);
    }
    out
}

/// Tests whether the placeholder of `c` stands at `pos`.
#[verifier::loop_isolation(false)]
pub(crate) fn placeholder_test(t: &Vec<char>, pos: usize, c: char) -> (r: bool)
    requires
        is_syntax_char(c),
        pos <= t.len(),
    ensures
        r == placeholder_matches(t@, pos as nat, c),
{
    let mut pat: Vec<char> = Vec::new();
    push_placeholder(&mut pat, c);
    proof {
        assert(pat@ =~= placeholder(c));
    }
    if t.len() - pos < pat.len() {
        return false;
    }
    let mut k: usize = 0;
    while k < pat.len()
        invariant
            k <= pat.len(),
            pat@ == placeholder(c),
            pos + pat@.len() <= t@.len(),
            forall|j: int| 0 <= j < k ==> t@[pos + j] == pat@[j],
        decreases pat.len() - k,
    {
        if t[pos + k] != pat[k] {
            proof {
                assert(t@.subrange(pos as int, pos + placeholder(c).len() as int)[k as int]
                    != placeholder(c)[k as int]);
            }
            return false;
        }
        k += 1;
    }
    proof {
        assert(t@.subrange(pos as int, pos + placeholder(c).len() as int) =~= placeholder(c));
    }
    true
}

/// Unescapes a text: the executable form of [`unescape_from`].
#[verifier::loop_isolation(false)]
pub(crate) fn unescape_chars(t: &Vec<char>) -> (r: Vec<char>)
    ensures
        r@ == unescape_from(t@, 0),
{
    let mut out: Vec<char> = Vec::new();
    let mut i: usize = 0;
    while i < t.len()
        invariant
            i <= t.len(),
            unescape_from(t@, 0) == out@ + unescape_from(t@, i as nat),
        decreases t.len() - i,
    {
        let ghost pre = out@;
        let mut step: usize = 1;
        let mut lit: char = t[i];
        let mut hit: bool = true;
        if placeholder_test(t, i, ' ') {
            lit = ' ';
            step = 8;
        } else if placeholder_test(t, i, '~') {
            lit = '~';
            step = 8;
        } else if placeholder_test(t, i, '[') {
            lit = '[';
            step = 13;
        } else if placeholder_test(t, i, ']') {
            lit = ']';
            step = 14;
        } else if placeholder_test(t, i, '{') {
            lit = '{';
            step = 12;
        } else if placeholder_test(t, i, '}') {
            lit = '}';
            step = 13;
        } else if placeholder_test(t, i, '/') {
            lit = '/';
            step = 8;
        } else if placeholder_test(t, i, '\u{b7}') {
            lit = '\u{b7}';
            step = 9;
        } else {
            hit = false;
        }
        proof {
            assert(unescape_from(t@, i as nat) == seq![lit] + unescape_from(t@, (i + step) as nat));
        }
        out.push(lit);
        proof {
            assert(pre + unescape_from(t@, i as nat) =~= out@ + unescape_from(
                t@,
                (i + step) as nat,
            ));
        }
        i += step;
    }
    proof {
        assert(i == t@.len());
        assert(out@ + unescape_from(t@, t@.len() as nat) =~= out@);
    }
    out
}

// ---------------------------------------------------------------------------
// The round-trip law.
// ---------------------------------------------------------------------------

proof fn lemma_escape_id(t: Seq<char>, pos: nat)
    requires
        forall|i: int| 0 <= i < t.len() ==> t[i] != '~',
        pos <= t.len(),
    ensures
        escape_from(t, pos) == t.skip(pos as int),
    decreases t.len() - pos,
{
    if pos >= t.len() {
        assert(t.skip(pos as int) =~= Seq::<char>::empty());
    } else {
        lemma_escape_id(t, pos + 1);
        assert(seq![t[pos as int]] + t.skip(pos + 1 as int) =~= t.skip(pos as int));
    }
}

proof fn lemma_unescape_id(t: Seq<char>, pos: nat)
    requires
        forall|i: int| 0 <= i < t.len() ==> t[i] != '~',
        pos <= t.len(),
    ensures
        unescape_from(t, pos) == t.skip(pos as int),
    decreases t.len() - pos,
{
    if pos >= t.len() {
        assert(t.skip(pos as int) =~= Seq::<char>::empty());
    } else {
        assert forall|c: char| is_syntax_char(c) implies !placeholder_matches(t, pos, c) by {
            if placeholder_matches(t, pos, c) {
                assert(t.subrange(pos as int, pos + placeholder(c).len() as int)[0] == t[pos as int]);
                assert(placeholder(c)[0] == '~');
            }
        }
        assert(!placeholder_matches(t, pos, ' '));
        assert(!placeholder_matches(t, pos, '~'));
        assert(!placeholder_matches(t, pos, '['));
        assert(!placeholder_matches(t, pos, ']'));
        assert(!placeholder_matches(t, pos, '{'));
        assert(!placeholder_matches(t, pos, '}'));
        assert(!placeholder_matches(t, pos, '/'));
        assert(!placeholder_matches(t, pos, '\u{b7}'));
        lemma_unescape_id(t, pos + 1);
        assert(seq![t[pos as int]] + t.skip(pos + 1 as int) =~= t.skip(pos as int));
    }
}

/// Escape round trip: a text that holds no escape marker at all comes back
/// unchanged from escaping followed by unescaping.  (A text with a marker
/// does not: escaping interprets the marker, so `~~` comes back as `~`.)
pub proof fn lemma_escape_roundtrip(t: Seq<char>)
    requires
        forall|i: int| 0 <= i < t.len() ==> t[i] != '~',
    ensures
        unescape_from(escape_from(t, 0), 0) == t,
{
    lemma_escape_id(t, 0);
    assert(t.skip(0) =~= t);
    lemma_unescape_id(t, 0);
}

} // verus!
