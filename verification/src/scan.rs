use crate::gender::Gender;
use crate::text::{is_word_char, word_char};
use vstd::prelude::*;

verus! {

// ---------------------------------------------------------------------------
// Character runs.
// ---------------------------------------------------------------------------

/// A character of the agreement-markup segments: a word character or one of
/// the characters a placeholder is written with.
pub open spec fn is_agreement_char(c: char) -> bool {
    is_word_char(c) || c == '~' || c == '<' || c == '>'
}

/// Executable form of [`is_agreement_char`].
pub(crate) fn agreement_char(c: char) -> (r: bool)
    ensures
        r == is_agreement_char(c),
{
    word_char(c) || c == '~' || c == '<' || c == '>'
}

/// End of the run of word characters starting at `pos`.
pub open spec fn word_end(t: Seq<char>, pos: nat) -> nat
    decreases t.len() - pos,
{
    if pos < t.len() && is_word_char(t[pos as int]) {
        word_end(t, pos + 1)
    } else {
        pos
    }
}

/// Executable form of [`word_end`].
pub(crate) fn word_end_exec(t: &Vec<char>, pos: usize) -> (r: usize)
    requires
        pos <= t.len(),
    ensures
        r as nat == word_end(t@, pos as nat),
        pos <= r <= t.len(),
    decreases t.len() - pos,
{
    if pos < t.len() && word_char(t[pos]) {
        word_end_exec(t, pos + 1)
    } else {
        pos
    }
}

/// End of the run of agreement characters starting at `pos`.
pub open spec fn agr_end(t: Seq<char>, pos: nat) -> nat
    decreases t.len() - pos,
{
    if pos < t.len() && is_agreement_char(t[pos as int]) {
        agr_end(t, pos + 1)
    } else {
        pos
    }
}

/// Executable form of [`agr_end`].
pub(crate) fn agr_end_exec(t: &Vec<char>, pos: usize) -> (r: usize)
    requires
        pos <= t.len(),
    ensures
        r as nat == agr_end(t@, pos as nat),
        pos <= r <= t.len(),
    decreases t.len() - pos,
{
    if pos < t.len() && agreement_char(t[pos]) {
        agr_end_exec(t, pos + 1)
    } else {
        pos
    }
}

/// Copies `t[a..b]`.
#[verifier::loop_isolation(false)]
pub(crate) fn copy_range(t: &Vec<char>, a: usize, b: usize) -> (r: Vec<char>)
    requires
        a <= b <= t.len(),
    ensures
        r@ == t@.subrange(a as int, b as int),
{
    let mut r: Vec<char> = Vec::new();
    let mut k: usize = a;
    while k < b
        invariant
            a <= k <= b,
            r@ == t@.subrange(a as int, k as int),
        decreases b - k,
    {
        r.push(t[k]);
        proof {
            assert(t@.subrange(a as int, k as int).push(t@[k as int]) =~= t@.subrange(
                a as int,
                k + 1,
            ));
        }
        k += 1;
    }
    r
}

// ---------------------------------------------------------------------------
// Gender markers `[m]` / `[f]` / `[n]`.
// ---------------------------------------------------------------------------

/// The gender named by a single-letter marker character, either case.
pub open spec fn marker_gender(c: char) -> Option<Gender> {
    if c == 'm' || c == 'M' {
        Some(Gender::Male)
    } else if c == 'f' || c == 'F' {
        Some(Gender::Female)
    } else if c == 'n' || c == 'N' {
        Some(Gender::Neutral)
    } else {
        None
    }
}

/// Executable form of [`marker_gender`].
pub(crate) fn marker_letter(c: char) -> (r: Option<Gender>)
    ensures
        r == marker_gender(c),
{
    if c == 'm' || c == 'M' {
        Some(Gender::Male)
    } else if c == 'f' || c == 'F' {
        Some(Gender::Female)
    } else if c == 'n' || c == 'N' {
        Some(Gender::Neutral)
    } else {
        None
    }
}

/// Whether a bracketed gender marker stands at `pos`.
pub open spec fn marker_at(t: Seq<char>, pos: nat) -> bool {
    &&& pos + 3 <= t.len()
    &&& t[pos as int] == '['
    &&& marker_gender(t[(pos + 1) as int]) is Some
    &&& t[(pos + 2) as int] == ']'
}

/// Number of gender markers from `pos` on, scanned without overlap.
pub open spec fn marker_count(t: Seq<char>, pos: nat) -> nat
    decreases t.len() - pos,
{
    if pos >= t.len() {
        0
    } else if marker_at(t, pos) {
        1 + marker_count(t, pos + 3)
    } else {
        marker_count(t, pos + 1)
    }
}

/// The gender of the first marker from `pos` on; `Neutral` when none.
pub open spec fn first_marker(t: Seq<char>, pos: nat) -> Gender
    decreases t.len() - pos,
{
    if pos >= t.len() {
        Gender::Neutral
    } else if marker_at(t, pos) {
        marker_gender(t[(pos + 1) as int]).unwrap()
    } else {
        first_marker(t, pos + 1)
    }
}

/// The text from `pos` on with every gender marker removed.
pub open spec fn strip_markers(t: Seq<char>, pos: nat) -> Seq<char>
    decreases t.len() - pos,
{
    if pos >= t.len() {
        Seq::empty()
    } else if marker_at(t, pos) {
        strip_markers(t, pos + 3)
    } else {
        seq![t[pos as int]] + strip_markers(t, pos + 1)
    }
}

/// Scans the gender markers of a variant from `pos` on: how many there are,
/// the first one's gender, and the text with all of them removed.
pub(crate) fn scan_markers(t: &Vec<char>, pos: usize) -> (r: (usize, Gender, Vec<char>))
    requires
        pos <= t.len(),
    ensures
        r.0 as nat == marker_count(t@, pos as nat),
        r.1 == first_marker(t@, pos as nat),
        r.2@ == strip_markers(t@, pos as nat),
    decreases t.len() - pos,
{
    if pos >= t.len() {
        return (0, Gender::Neutral, Vec::new());
    }
    let mut is_marker: Option<Gender> = None;
    if t.len() - pos >= 3 && t[pos] == '[' && t[pos + 2] == ']' {
        is_marker = marker_letter(t[pos + 1]);
    }
    match is_marker {
        Some(g) => {
            proof {
                assert(marker_at(t@, pos as nat));
                lemma_marker_count_bound(t@, (pos + 3) as nat);
            }
            let sub = scan_markers(t, pos + 3);
            (sub.0 + 1, g, sub.2)
        },
        None => {
            proof {
                assert(!marker_at(t@, pos as nat));
            }
            let sub = scan_markers(t, pos + 1);
            let mut out = sub.2;
            out.insert(0, t[pos]);
            proof {
                assert(out@ =~= seq![t@[pos as int]] + strip_markers(t@, (pos + 1) as nat));
            }
            (sub.0, sub.1, out)
        },
    }
}

/// A marker count never exceeds the scanned length.
proof fn lemma_marker_count_bound(t: Seq<char>, pos: nat)
    requires
        pos <= t.len(),
    ensures
        marker_count(t, pos) <= t.len() - pos,
    decreases t.len() - pos,
{
    if pos >= t.len() {
    } else if marker_at(t, pos) {
        lemma_marker_count_bound(t, pos + 3);
    } else {
        lemma_marker_count_bound(t, pos + 1);
    }
}

// ---------------------------------------------------------------------------
// Symbol references `{name}` and `{{name}}`.
// ---------------------------------------------------------------------------

/// The memoized reference match at `pos`: the referenced name and the
/// position right after the closing brace.
pub open spec fn inst_match_at(t: Seq<char>, pos: nat) -> Option<(Seq<char>, nat)> {
    if pos < t.len() && t[pos as int] == '{' {
        let e = word_end(t, pos + 1);
        if e < t.len() && t[e as int] == '}' {
            Some((t.subrange((pos + 1) as int, e as int), (e + 1) as nat))
        } else {
            None
        }
    } else {
        None
    }
}

/// Executable form of [`inst_match_at`].
pub(crate) fn inst_match_exec(t: &Vec<char>, pos: usize) -> (r: Option<(Vec<char>, usize)>)
    requires
        pos < t.len(),
    ensures
        match r {
            Some(p) => inst_match_at(t@, pos as nat) == Some((p.0@, p.1 as nat)) && pos < p.1
                <= t.len(),
            None => inst_match_at(t@, pos as nat) is None,
        },
{
    if t[pos] == '{' {
        let e = word_end_exec(t, pos + 1);
        if e < t.len() && t[e] == '}' {
            Some((copy_range(t, pos + 1, e), e + 1))
        } else {
            None
        }
    } else {
        None
    }
}

/// The independent-reference match at `pos`: the referenced name and the
/// position right after the two closing braces.
pub open spec fn reinst_match_at(t: Seq<char>, pos: nat) -> Option<(Seq<char>, nat)> {
    if pos + 2 <= t.len() && t[pos as int] == '{' && t[(pos + 1) as int] == '{' {
        let e = word_end(t, pos + 2);
        if e + 2 <= t.len() && t[e as int] == '}' && t[(e + 1) as int] == '}' {
            Some((t.subrange((pos + 2) as int, e as int), (e + 2) as nat))
        } else {
            None
        }
    } else {
        None
    }
}

/// Executable form of [`reinst_match_at`].
pub(crate) fn reinst_match_exec(t: &Vec<char>, pos: usize) -> (r: Option<(Vec<char>, usize)>)
    requires
        pos < t.len(),
    ensures
        match r {
            Some(p) => reinst_match_at(t@, pos as nat) == Some((p.0@, p.1 as nat)) && pos < p.1
                <= t.len(),
            None => reinst_match_at(t@, pos as nat) is None,
        },
{
    if t.len() - pos >= 2 && t[pos] == '{' && t[pos + 1] == '{' {
        let e = word_end_exec(t, pos + 2);
        if t.len() - e >= 2 && t[e] == '}' && t[e + 1] == '}' {
            Some((copy_range(t, pos + 2, e), e + 2))
        } else {
            None
        }
    } else {
        None
    }
}

// ---------------------------------------------------------------------------
// Dot-form agreement markup.
// ---------------------------------------------------------------------------

/// One dot-agreement match: the root, its first suffix, up to two further
/// suffixes, an explicit gender-source override, and the match's end.
#[verifier::ext_equal]
pub struct DotsMatch {
    pub root: Seq<char>,
    pub a: Seq<char>,
    pub b: Option<Seq<char>>,
    pub c: Option<Seq<char>>,
    pub dep: Option<Seq<char>>,
    pub end: nat,
}

/// The bracketed agreement-character override at `pos`, and the position the
/// match ends at: right after the bracket when it is well formed, else `pos`.
pub open spec fn agr_bracket_at(t: Seq<char>, pos: nat) -> (Option<Seq<char>>, nat) {
    if pos < t.len() && t[pos as int] == '[' {
        let m = agr_end(t, pos + 1);
        if m > pos + 1 && m < t.len() && t[m as int] == ']' {
            (Some(t.subrange((pos + 1) as int, m as int)), (m + 1) as nat)
        } else {
            (None, pos)
        }
    } else {
        (None, pos)
    }
}

/// Executable form of [`agr_bracket_at`].
pub(crate) fn agr_bracket_exec(t: &Vec<char>, pos: usize) -> (r: (Option<Vec<char>>, usize))
    requires
        pos <= t.len(),
    ensures
        r.1 as nat == agr_bracket_at(t@, pos as nat).1,
        match r.0 {
            Some(v) => agr_bracket_at(t@, pos as nat).0 == Some(v@),
            None => agr_bracket_at(t@, pos as nat).0 is None,
        },
        pos <= r.1 <= t.len(),
{
    if pos < t.len() && t[pos] == '[' {
        let m = agr_end_exec(t, pos + 1);
        if m > pos + 1 && m < t.len() && t[m] == ']' {
            (Some(copy_range(t, pos + 1, m)), m + 1)
        } else {
            (None, pos)
        }
    } else {
        (None, pos)
    }
}

/// The dot-agreement match at `pos`, if the text there has the shape
/// `root·a[·b][·c][[override]]` with a non-empty root.
pub open spec fn dots_match_at(t: Seq<char>, pos: nat) -> Option<DotsMatch> {
    let j1 = agr_end(t, pos);
    if j1 > pos && j1 < t.len() && t[j1 as int] == '\u{b7}' {
        let root = t.subrange(pos as int, j1 as int);
        let j2 = agr_end(t, j1 + 1);
        let a = t.subrange((j1 + 1) as int, j2 as int);
        if j2 < t.len() && t[j2 as int] == '\u{b7}' {
            let j3 = agr_end(t, j2 + 1);
            let b = t.subrange((j2 + 1) as int, j3 as int);
            if j3 < t.len() && t[j3 as int] == '\u{b7}' {
                let j4 = agr_end(t, j3 + 1);
                let c = t.subrange((j3 + 1) as int, j4 as int);
                let br = agr_bracket_at(t, j4);
                Some(DotsMatch { root, a, b: Some(b), c: Some(c), dep: br.0, end: br.1 })
            } else {
                let br = agr_bracket_at(t, j3);
                Some(DotsMatch { root, a, b: Some(b), c: None, dep: br.0, end: br.1 })
            }
        } else {
            let br = agr_bracket_at(t, j2);
            Some(DotsMatch { root, a, b: None, c: None, dep: br.0, end: br.1 })
        }
    } else {
        None
    }
}

/// Executable counterpart of a [`DotsMatch`].
pub struct DotsHit {
    pub root: Vec<char>,
    pub a: Vec<char>,
    pub b: Option<Vec<char>>,
    pub c: Option<Vec<char>>,
    pub dep: Option<Vec<char>>,
    pub end: usize,
}

impl View for DotsHit {
    type V = DotsMatch;

    open spec fn view(&self) -> DotsMatch {
        DotsMatch {
            root: self.root@,
            a: self.a@,
            b: match self.b {
                Some(v) => Some(v@),
                None => None,
            },
            c: match self.c {
                Some(v) => Some(v@),
                None => None,
            },
            dep: match self.dep {
                Some(v) => Some(v@),
                None => None,
            },
            end: self.end as nat,
        }
    }
}

/// Executable form of [`dots_match_at`].
pub(crate) fn dots_try(t: &Vec<char>, pos: usize) -> (r: Option<DotsHit>)
    requires
        pos < t.len(),
    ensures
        match r {
            Some(h) => dots_match_at(t@, pos as nat) == Some(h@) && pos < h.end <= t.len(),
            None => dots_match_at(t@, pos as nat) is None,
        },
{
    let j1 = agr_end_exec(t, pos);
    if j1 > pos && j1 < t.len() && t[j1] == '\u{b7}' {
        let root = copy_range(t, pos, j1);
        let j2 = agr_end_exec(t, j1 + 1);
        let a = copy_range(t, j1 + 1, j2);
        if j2 < t.len() && t[j2] == '\u{b7}' {
            let j3 = agr_end_exec(t, j2 + 1);
            let b = copy_range(t, j2 + 1, j3);
            if j3 < t.len() && t[j3] == '\u{b7}' {
                let j4 = agr_end_exec(t, j3 + 1);
                let c = copy_range(t, j3 + 1, j4);
                let br = agr_bracket_exec(t, j4);
                Some(DotsHit { root, a, b: Some(b), c: Some(c), dep: br.0, end: br.1 })
            } else {
                let br = agr_bracket_exec(t, j3);
                Some(DotsHit { root, a, b: Some(b), c: None, dep: br.0, end: br.1 })
            }
        } else {
            let br = agr_bracket_exec(t, j2);
            Some(DotsHit { root, a, b: None, c: None, dep: br.0, end: br.1 })
        }
    } else {
        None
    }
}

/// What a dot-agreement match renders to under gender `g`: the root with the
/// suffix the gender selects; under `Neutral` both alternatives joined by a
/// slash.
pub open spec fn dots_render(m: DotsMatch, g: Gender) -> Seq<char> {
    match m.b {
        None => match g {
            Gender::Male => m.root,
            Gender::Female => m.root + m.a,
            Gender::Neutral => m.root + seq!['/'] + m.root + m.a,
        },
        Some(b) => match m.c {
            None => match g {
                Gender::Male => m.root + m.a,
                Gender::Female => m.root + b,
                Gender::Neutral => m.root + m.a + seq!['/'] + m.root + b,
            },
            Some(c) => match g {
                Gender::Male => m.root + m.a + c,
                Gender::Female => m.root + b + c,
                Gender::Neutral => m.root + m.a + c + seq!['/'] + m.root + b + c,
            },
        },
    }
}

/// Executable form of [`dots_render`].
pub(crate) fn dots_render_exec(h: &DotsHit, g: Gender) -> (r: Vec<char>)
    ensures
        r@ == dots_render(h@, g),
{
    let mut out: Vec<char> = Vec::new();
    crate::text::append_chars(&mut out, &h.root);
    match (&h.b, &h.c) {
        (None, _) => {
            match g {
                Gender::Male => {},
                Gender::Female => {
                    crate::text::append_chars(&mut out, &h.a);
                },
                Gender::Neutral => {
                    out.push('/');
                    crate::text::append_chars(&mut out, &h.root);
                    crate::text::append_chars(&mut out, &h.a);
                },
            }
        },
        (Some(b), None) => {
            match g {
                Gender::Male => {
                    crate::text::append_chars(&mut out, &h.a);
                },
                Gender::Female => {
                    crate::text::append_chars(&mut out, b);
                },
                Gender::Neutral => {
                    crate::text::append_chars(&mut out, &h.a);
                    out.push('/');
                    crate::text::append_chars(&mut out, &h.root);
                    crate::text::append_chars(&mut out, b);
                },
            }
        },
        (Some(b), Some(c)) => {
            match g {
                Gender::Male => {
                    crate::text::append_chars(&mut out, &h.a);
                    crate::text::append_chars(&mut out, c);
                },
                Gender::Female => {
                    crate::text::append_chars(&mut out, b);
                    crate::text::append_chars(&mut out, c);
                },
                Gender::Neutral => {
                    crate::text::append_chars(&mut out, &h.a);
                    crate::text::append_chars(&mut out, c);
                    out.push('/');
                    crate::text::append_chars(&mut out, &h.root);
                    crate::text::append_chars(&mut out, b);
                    crate::text::append_chars(&mut out, c);
                },
            }
        },
    }
    proof {
        assert(out@ =~= dots_render(h@, g));
    }
    out
}

// ---------------------------------------------------------------------------
// Slash-form agreement markup.
// ---------------------------------------------------------------------------

/// One slash-agreement match: the male and female branches, the optional
/// neutral branch, an explicit gender-source override, and the match's end.
#[verifier::ext_equal]
pub struct SlashMatch {
    pub male: Seq<char>,
    pub female: Seq<char>,
    pub neutral: Option<Seq<char>>,
    pub dep: Option<Seq<char>>,
    pub end: nat,
}

/// The bracketed word-character override at `pos`, and the position the match
/// ends at.
pub open spec fn word_bracket_at(t: Seq<char>, pos: nat) -> (Option<Seq<char>>, nat) {
    if pos < t.len() && t[pos as int] == '[' {
        let m = word_end(t, pos + 1);
        if m > pos + 1 && m < t.len() && t[m as int] == ']' {
            (Some(t.subrange((pos + 1) as int, m as int)), (m + 1) as nat)
        } else {
            (None, pos)
        }
    } else {
        (None, pos)
    }
}

/// Executable form of [`word_bracket_at`].
pub(crate) fn word_bracket_exec(t: &Vec<char>, pos: usize) -> (r: (Option<Vec<char>>, usize))
    requires
        pos <= t.len(),
    ensures
        r.1 as nat == word_bracket_at(t@, pos as nat).1,
        match r.0 {
            Some(v) => word_bracket_at(t@, pos as nat).0 == Some(v@),
            None => word_bracket_at(t@, pos as nat).0 is None,
        },
        pos <= r.1 <= t.len(),
{
    if pos < t.len() && t[pos] == '[' {
        let m = word_end_exec(t, pos + 1);
        if m > pos + 1 && m < t.len() && t[m] == ']' {
            (Some(copy_range(t, pos + 1, m)), m + 1)
        } else {
            (None, pos)
        }
    } else {
        (None, pos)
    }
}

/// The slash-agreement match at `pos`, if the text there has the shape
/// `male/female[/neutral][[override]]`.
pub open spec fn slash_match_at(t: Seq<char>, pos: nat) -> Option<SlashMatch> {
    let j1 = agr_end(t, pos);
    if j1 < t.len() && t[j1 as int] == '/' {
        let male = t.subrange(pos as int, j1 as int);
        let j2 = agr_end(t, j1 + 1);
        let female = t.subrange((j1 + 1) as int, j2 as int);
        if j2 < t.len() && t[j2 as int] == '/' {
            let j3 = agr_end(t, j2 + 1);
            let br = word_bracket_at(t, j3);
            Some(
                SlashMatch {
                    male,
                    female,
                    neutral: Some(t.subrange((j2 + 1) as int, j3 as int)),
                    dep: br.0,
                    end: br.1,
                },
            )
        } else {
            let br = word_bracket_at(t, j2);
            Some(SlashMatch { male, female, neutral: None, dep: br.0, end: br.1 })
        }
    } else {
        None
    }
}

/// Executable counterpart of a [`SlashMatch`].
pub struct SlashHit {
    pub male: Vec<char>,
    pub female: Vec<char>,
    pub neutral: Option<Vec<char>>,
    pub dep: Option<Vec<char>>,
    pub end: usize,
}

impl View for SlashHit {
    type V = SlashMatch;

    open spec fn view(&self) -> SlashMatch {
        SlashMatch {
            male: self.male@,
            female: self.female@,
            neutral: match self.neutral {
                Some(v) => Some(v@),
                None => None,
            },
            dep: match self.dep {
                Some(v) => Some(v@),
                None => None,
            },
            end: self.end as nat,
        }
    }
}

/// Executable form of [`slash_match_at`].
pub(crate) fn slash_try(t: &Vec<char>, pos: usize) -> (r: Option<SlashHit>)
    requires
        pos < t.len(),
    ensures
        match r {
            Some(h) => slash_match_at(t@, pos as nat) == Some(h@) && pos < h.end <= t.len(),
            None => slash_match_at(t@, pos as nat) is None,
        },
{
    let j1 = agr_end_exec(t, pos);
    if j1 < t.len() && t[j1] == '/' {
        let male = copy_range(t, pos, j1);
        let j2 = agr_end_exec(t, j1 + 1);
        let female = copy_range(t, j1 + 1, j2);
        if j2 < t.len() && t[j2] == '/' {
            let j3 = agr_end_exec(t, j2 + 1);
            let neutral = copy_range(t, j2 + 1, j3);
            let br = word_bracket_exec(t, j3);
            Some(SlashHit { male, female, neutral: Some(neutral), dep: br.0, end: br.1 })
        } else {
            let br = word_bracket_exec(t, j2);
            Some(SlashHit { male, female, neutral: None, dep: br.0, end: br.1 })
        }
    } else {
        None
    }
}

/// What a slash-agreement match renders to under gender `g`: the branch the
/// gender selects; under `Neutral` the explicit neutral branch when present,
/// else both alternatives joined by a slash.
pub open spec fn slash_render(m: SlashMatch, g: Gender) -> Seq<char> {
    match g {
        Gender::Male => m.male,
        Gender::Female => m.female,
        Gender::Neutral => match m.neutral {
            Some(n) => n,
            None => m.male + seq!['/'] + m.female,
        },
    }
}

/// Executable form of [`slash_render`].
pub(crate) fn slash_render_exec(h: &SlashHit, g: Gender) -> (r: Vec<char>)
    ensures
        r@ == slash_render(h@, g),
{
    let mut out: Vec<char> = Vec::new();
    match g {
        Gender::Male => {
            crate::text::append_chars(&mut out, &h.male);
        },
        Gender::Female => {
            crate::text::append_chars(&mut out, &h.female);
        },
        Gender::Neutral => {
            match &h.neutral {
                Some(n) => {
                    crate::text::append_chars(&mut out, n);
                },
                None => {
                    crate::text::append_chars(&mut out, &h.male);
                    out.push('/');
                    crate::text::append_chars(&mut out, &h.female);
                },
            }
        },
    }
    proof {
        assert(out@ =~= slash_render(h@, g));
    }
    out
}

} // verus!
