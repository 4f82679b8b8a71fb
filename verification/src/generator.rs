use crate::engine::{
    replace_content, replace_content_s, resolve_sym, resolve_sym_s, EnvModel, TblModel,
    DEPTH_LIMIT,
};
use crate::errors::{Error, ErrorModel};
use crate::escape::{escape_chars, escape_from, unescape_chars, unescape_from};
use crate::gender::Gender;
use crate::scan::copy_range;
use crate::table::{
    copy_env, lemma_chars_deep_view, Entry, EntryModel, Guard, NameMap, Rule, RuleModel,
};
use crate::text::{
    capitalize_chars, capitalize_spec, chars_to_lower, chars_to_string, copy_chars, is_word_char,
    str_lower, str_to_chars, word_char,
};
use vstd::prelude::*;
use vstd::slice::slice_index_get;

verus! {

// ---------------------------------------------------------------------------
// Registration: names, their trailing gender-dependency suffix, and escaping.
// ---------------------------------------------------------------------------

/// Start of the run of word characters that ends right before `e`.
pub open spec fn word_start_back(t: Seq<char>, e: nat) -> nat
    decreases e,
{
    if e >= 1 && e <= t.len() && is_word_char(t[(e - 1) as int]) {
        word_start_back(t, (e - 1) as nat)
    } else {
        e
    }
}

/// Executable form of [`word_start_back`].
pub(crate) fn word_start_back_exec(t: &Vec<char>, e: usize) -> (r: usize)
    requires
        e <= t.len(),
    ensures
        r as nat == word_start_back(t@, e as nat),
        r <= e,
    decreases e,
{
    if e >= 1 && word_char(t[e - 1]) {
        word_start_back_exec(t, e - 1)
    } else {
        e
    }
}

/// Splits a trailing bracketed gender-dependency suffix off a symbol name:
/// `base[dep]` becomes the base and the dependency; a name without such a
/// suffix keeps itself and no dependency.
pub open spec fn split_dep(name: Seq<char>) -> (Seq<char>, Option<Seq<char>>) {
    if name.len() >= 2 && name[name.len() - 1] == ']' {
        let s = word_start_back(name, (name.len() - 1) as nat);
        if s >= 1 && name[(s - 1) as int] == '[' {
            (name.subrange(0, (s - 1) as int), Some(name.subrange(s as int, name.len() - 1)))
        } else {
            (name, None)
        }
    } else {
        (name, None)
    }
}

/// Executable form of [`split_dep`].
pub(crate) fn split_dep_exec(name: &Vec<char>) -> (r: (Vec<char>, Option<Vec<char>>))
    ensures
        r.0@ == split_dep(name@).0,
        match r.1 {
            Some(d) => split_dep(name@).1 == Some(d@),
            None => split_dep(name@).1 is None,
        },
{
    if name.len() >= 2 && name[name.len() - 1] == ']' {
        let s = word_start_back_exec(name, name.len() - 1);
        if s >= 1 && name[s - 1] == '[' {
            (copy_range(name, 0, s - 1), Some(copy_range(name, s, name.len() - 1)))
        } else {
            (copy_chars(name), None)
        }
    } else {
        (copy_chars(name), None)
    }
}

/// What registering `name` with the given variants does to a rule table:
/// name and variants are escaped, the trailing dependency suffix is parsed
/// off, and the rule replaces any earlier rule of the base name.
pub open spec fn add_move_s(tbl: TblModel, name: Seq<char>, contents: Seq<Seq<char>>) -> TblModel {
    let esc = escape_from(name, 0);
    let sd = split_dep(esc);
    tbl.insert(
        sd.0,
        RuleModel {
            gender_dependency: sd.1,
            content: contents.map_values(|c: Seq<char>| escape_from(c, 0)),
        },
    )
}

/// What registering every pair of a table from `i` on does, each name
/// lower-cased first.
pub open spec fn add_table_s(
    tbl: TblModel,
    pairs: Seq<(Seq<char>, Seq<Seq<char>>)>,
    i: nat,
) -> TblModel
    decreases pairs.len() - i,
{
    if i >= pairs.len() {
        tbl
    } else {
        add_table_s(
            add_move_s(tbl, str_lower(pairs[i as int].0), pairs[i as int].1),
            pairs,
            i + 1,
        )
    }
}

/// What serde_json::from_str returns for an object of string keys bound to
/// arrays of strings: the key–value pairs, sorted by key; nothing when the
/// text does not parse as such an object.  It depends on the text alone.
pub uninterp spec fn json_table_of(s: Seq<char>) -> Option<Seq<(Seq<char>, Seq<Seq<char>>)>>;

/// Relies on serde_json::from_str, deserializing into an ordered map from
/// strings to arrays of strings: the parsed pairs come back sorted by key,
/// and text that is not such an object is refused with serde_json's message.
#[verifier::external_body]
fn parse_json_table(s: &str) -> (r: Result<Vec<(String, Vec<String>)>, String>)
    ensures
        match r {
            Ok(v) => json_table_of(s@) == Some(v.deep_view()),
            Err(_) => json_table_of(s@) is None,
        },
{
    match serde_json::from_str::<std::collections::BTreeMap<String, Vec<String>>>(s) {
        Ok(m) => Ok(m.into_iter().collect()),
        Err(e) => Err(format!("{}", e)),
    }
}

/// Copies a vector of strings.
#[verifier::loop_isolation(false)]
pub(crate) fn copy_strings(v: &Vec<String>) -> (r: Vec<String>)
    ensures
        r.deep_view() == v.deep_view(),
{
    let mut r: Vec<String> = Vec::new();
    proof {
        assert(r.deep_view() =~= v.deep_view().take(0));
    }
    let mut i: usize = 0;
    while i < v.len()
        invariant
            i <= v.len(),
            r.deep_view() == v.deep_view().take(i as int),
        decreases v.len() - i,
    {
        let ghost pre = r@;
        let ghost predv = r.deep_view();
        r.push(v[i].clone());
        proof {
            assert(predv.len() == pre.len());
            assert(predv.len() == i);
            assert(r@ == pre.push(r@[i as int]));
            assert forall|j: int| 0 <= j < r@.len() implies r.deep_view()[j] == v.deep_view().take(
                i + 1,
            )[j] by {
                assert(r.deep_view()[j] == r@[j]@);
                if j < i {
                    assert(r@[j] == pre[j]);
                    assert(predv[j] == pre[j]@);
                    assert(predv[j] == v.deep_view().take(i as int)[j]);
                } else {
                    assert(r@[j] == v@[i as int]);
                }
            }
            assert(r.deep_view() =~= v.deep_view().take(i + 1));
        }
        i += 1;
    }
    proof {
        assert(v.deep_view().take(v@.len() as int) =~= v.deep_view());
    }
    r
}

// ---------------------------------------------------------------------------
// Message mode.
// ---------------------------------------------------------------------------

/// The caller-supplied bindings of a message, as character sequences.
pub open spec fn pairs_deep(s: Seq<(&str, &str)>) -> Seq<(Seq<char>, Seq<char>)> {
    s.map_values(|p: (&str, &str)| (p.0@, p.1@))
}

/// Registers a message's bindings from `i` on: each value is escaped and
/// expanded as a single-variant rule without dependency, and its entry is
/// stored under the lower-cased name.
pub open spec fn msg_binds_s(
    tbl: TblModel,
    presets: EnvModel,
    env: EnvModel,
    rng: u64,
    binds: Seq<(Seq<char>, Seq<char>)>,
    i: nat,
    fuel: nat,
) -> Result<(EnvModel, u64), ErrorModel>
    decreases binds.len() - i,
{
    if i >= binds.len() {
        Ok((env, rng))
    } else {
        let rule = RuleModel {
            gender_dependency: None,
            content: seq![escape_from(binds[i as int].1, 0)],
        };
        match replace_content_s(tbl, presets, env, Seq::empty(), rng, rule, fuel) {
            Err(e) => Err(e),
            Ok((entry, env2, rng2)) => msg_binds_s(
                tbl,
                presets,
                env2.insert(str_lower(binds[i as int].0), entry),
                rng2,
                binds,
                i + 1,
                fuel,
            ),
        }
    }
}

/// Expands an ad hoc message: the bindings are registered, then the escaped
/// template is expanded as one more single-variant rule, and the final text
/// is unescaped.
pub open spec fn msg_s(
    g: GeneratorModel,
    template: Seq<char>,
    binds: Seq<(Seq<char>, Seq<char>)>,
    seed: u64,
) -> Result<Seq<char>, ErrorModel> {
    match msg_binds_s(g.rules, g.presets, g.presets, seed, binds, 0, DEPTH_LIMIT as nat) {
        Err(e) => Err(e),
        Ok((env, rng)) => {
            let rule = RuleModel {
                gender_dependency: None,
                content: seq![escape_from(template, 0)],
            };
            match replace_content_s(
                g.rules,
                g.presets,
                env,
                Seq::empty(),
                rng,
                rule,
                DEPTH_LIMIT as nat,
            ) {
                Err(e) => Err(e),
                Ok((entry, _env2, _rng2)) => Ok(unescape_from(entry.text, 0)),
            }
        },
    }
}

// ---------------------------------------------------------------------------
// The generator.
// ---------------------------------------------------------------------------

/// Model of a [`Generator`]: its rule table and its pre-set entries.
pub struct GeneratorModel {
    pub rules: TblModel,
    pub presets: EnvModel,
}

/// The generator: a table of replacement rules and the entries whose gender
/// was set in advance.  Rules are added with [`Generator::add`],
/// [`Generator::add_move`] or [`Generator::add_json`]; symbols are expanded
/// with [`Generator::instantiate`] or [`Generator::instantiate_from_seed`];
/// ad hoc text goes through [`Generator::msg`].
pub struct Generator {
    pub replaced: NameMap<Entry>,
    pub replacements: NameMap<Rule>,
}

impl View for Generator {
    type V = GeneratorModel;

    open spec fn view(&self) -> GeneratorModel {
        GeneratorModel { rules: self.replacements@, presets: self.replaced@ }
    }
}

/// What a seeded top-level expansion returns: the symbol resolved from a
/// fresh environment seeded with the pre-set entries, the result unescaped.
pub open spec fn instantiate_s(g: GeneratorModel, sym: Seq<char>, seed: u64) -> Result<
    Seq<char>,
    ErrorModel,
> {
    match resolve_sym_s(
        g.rules,
        g.presets,
        g.presets,
        Seq::empty(),
        seed,
        sym,
        DEPTH_LIMIT as nat,
    ) {
        Ok(ok) => Ok(unescape_from(ok.0, 0)),
        Err(e) => Err(e),
    }
}

impl Generator {
    /// Creates a new, empty generator.
    pub fn new() -> (r: Self)
        ensures
            r@.rules == Map::<Seq<char>, RuleModel>::empty(),
            r@.presets == Map::<Seq<char>, EntryModel>::empty(),
    {
        Generator { replacements: NameMap::new(), replaced: NameMap::new() }
    }

    /// Escapes a text: every `~`-escaped syntax character becomes its
    /// placeholder.
    pub fn pre_process(s: String) -> (r: String)
        ensures
            r@ == escape_from(s@, 0),
    {
        chars_to_string(&escape_chars(&str_to_chars(s.as_str())))
    }

    /// Unescapes a text: every placeholder becomes its literal character.
    pub fn post_process(s: String) -> (r: String)
        ensures
            r@ == unescape_from(s@, 0),
    {
        chars_to_string(&unescape_chars(&str_to_chars(s.as_str())))
    }

    /// Adapts the case of `content` to the case pattern of `symbol`: an
    /// initial uppercase carries over to the first character, an all-caps
    /// spelling to the whole content, and a lowercase spelling changes
    /// nothing.
    pub fn capitalize(symbol: &str, content: &str) -> (r: String)
        ensures
            r@ == capitalize_spec(symbol@, content@),
    {
        chars_to_string(&capitalize_chars(&str_to_chars(symbol), &str_to_chars(content)))
    }

    /// Adds a replacement rule under `symbol`, lower-cased first; `content`
    /// lists the variants one of which each expansion picks.
    pub fn add(&mut self, symbol: &str, content: &[&str]) -> (r: Result<(), Error>)
        ensures
            r is Ok,
            final(self)@.rules == add_move_s(
                old(self)@.rules,
                str_lower(symbol@),
                content@.map_values(|x: &str| x@),
            ),
            final(self)@.presets == old(self)@.presets,
    {
        let sym = chars_to_string(&chars_to_lower(&str_to_chars(symbol)));
        let mut c: Vec<String> = Vec::new();
        proof {
            assert(c.deep_view() =~= content@.map_values(|x: &str| x@).take(0));
        }
        let mut i: usize = 0;
        while i < content.len()
            invariant
                i <= content@.len(),
                c.deep_view() == content@.map_values(|x: &str| x@).take(i as int),
            decreases content@.len() - i,
        {
            let s: &&str = slice_index_get(content, i);
            let ghost pre = c@;
            let ghost predv = c.deep_view();
            c.push((*s).to_owned());
            proof {
                let m = content@.map_values(|x: &str| x@);
                assert(predv.len() == pre.len());
                assert(predv.len() == i);
                assert(c@ == pre.push(c@[i as int]));
                assert forall|j: int| 0 <= j < c@.len() implies c.deep_view()[j] == m.take(
                    i + 1,
                )[j] by {
                    assert(c.deep_view()[j] == c@[j]@);
                    if j < i {
                        assert(c@[j] == pre[j]);
                        assert(predv[j] == pre[j]@);
                        assert(predv[j] == m.take(i as int)[j]);
                    } else {
                        assert(c@[j]@ == content@[j]@);
                    }
                }
                assert(c.deep_view() =~= m.take(i + 1));
            }
            i += 1;
        }
        proof {
            assert(content@.map_values(|x: &str| x@).take(content@.len() as int)
                =~= content@.map_values(|x: &str| x@));
        }
        self.add_move(sym, c)
    }

    /// Adds a replacement rule, consuming its arguments.  The symbol is
    /// stored as written (no lower-casing), after escaping and after its
    /// trailing `[dependency]` suffix, if any, is parsed off.
    pub fn add_move(&mut self, symbol: String, content: Vec<String>) -> (r: Result<(), Error>)
        ensures
            r is Ok,
            final(self)@.rules == add_move_s(old(self)@.rules, symbol@, content.deep_view()),
            final(self)@.presets == old(self)@.presets,
    {
        let sym = str_to_chars(symbol.as_str());
        let esc = escape_chars(&sym);
        let sd = split_dep_exec(&esc);
        let ghost mapped = content.deep_view().map_values(|c: Seq<char>| escape_from(c, 0));
        let mut cvec: Vec<Vec<char>> = Vec::new();
        proof {
            assert(cvec.deep_view() =~= mapped.take(0));
        }
        let mut i: usize = 0;
        while i < content.len()
            invariant
                i <= content@.len(),
                mapped == content.deep_view().map_values(|c: Seq<char>| escape_from(c, 0)),
                cvec.deep_view() == mapped.take(i as int),
            decreases content@.len() - i,
        {
            let cs = str_to_chars(content[i].as_str());
            let ec = escape_chars(&cs);
            let ghost pre = cvec@;
            let ghost predv = cvec.deep_view();
            cvec.push(ec);
            proof {
                assert(predv.len() == pre.len());
                assert(predv.len() == i);
                assert(cvec@ == pre.push(cvec@[i as int]));
                assert forall|j: int| 0 <= j < cvec@.len() implies cvec.deep_view()[j]
                    == mapped.take(i + 1)[j] by {
                    lemma_chars_deep_view(cvec@[j]);
                    assert(cvec.deep_view()[j] == cvec@[j]@);
                    if j < i {
                        assert(cvec@[j] == pre[j]);
                        lemma_chars_deep_view(pre[j]);
                        assert(predv[j] == pre[j]@);
                        assert(predv[j] == mapped.take(i as int)[j]);
                    } else {
                        assert(cvec@[j]@ == escape_from(content.deep_view()[j], 0));
                        assert(mapped[j] == escape_from(content.deep_view()[j], 0));
                    }
                }
                assert(cvec.deep_view() =~= mapped.take(i + 1));
            }
            i += 1;
        }
        let rule = Rule { gender_dependency: sd.1, content: cvec };
        proof {
            assert(mapped.take(content@.len() as int) =~= mapped);
        }
        self.replacements.insert(sd.0, rule);
        Ok(())
    }

    /// Adds replacement rules in bulk, from a JSON object whose keys are
    /// symbol names, optionally suffixed `[dependency]`, and whose values
    /// are arrays of variants.  A malformed text is refused whole.
    #[verifier::loop_isolation(false)]
    pub fn add_json(&mut self, json: &str) -> (r: Result<(), Error>)
        ensures
            match r {
                Ok(_) => {
                    &&& json_table_of(json@) matches Some(t)
                    &&& final(self)@.rules == add_table_s(old(self)@.rules, t, 0)
                    &&& final(self)@.presets == old(self)@.presets
                },
                Err(e) => {
                    &&& json_table_of(json@) is None
                    &&& e@ is MalformedInput
                    &&& final(self)@.rules == old(self)@.rules
                    &&& final(self)@.presets == old(self)@.presets
                },
            },
    {
        let pairs = match parse_json_table(json) {
            Err(m) => {
                return Err(Error::MalformedInput(m));
            },
            Ok(v) => v,
        };
        let ghost t = pairs.deep_view();
        let ghost rules0 = self@.rules;
        let mut i: usize = 0;
        while i < pairs.len()
            invariant
                i <= pairs@.len(),
                t == pairs.deep_view(),
                add_table_s(rules0, t, 0) == add_table_s(self@.rules, t, i as nat),
                self@.presets == old(self)@.presets,
            decreases pairs@.len() - i,
        {
            let p = &pairs[i];
            let key = chars_to_string(&chars_to_lower(&str_to_chars(p.0.as_str())));
            let cvec = copy_strings(&p.1);
            proof {
                assert(t[i as int] == pairs@[i as int].deep_view());
                assert(pairs@[i as int].deep_view() == (
                    pairs@[i as int].0.deep_view(),
                    pairs@[i as int].1.deep_view(),
                ));
            }
            let _ = self.add_move(key, cvec);
            i += 1;
        }
        Ok(())
    }

    /// Seeds a gender for `symbol`, stored as written, with empty text: a
    /// later expansion that needs this symbol's gender finds it without any
    /// rule existing for it.
    pub fn set_gender(&mut self, symbol: &str, gender: Gender)
        ensures
            final(self)@.presets == old(self)@.presets.insert(
                symbol@,
                EntryModel { text: Seq::empty(), gender },
            ),
            final(self)@.rules == old(self)@.rules,
    {
        let entry = Entry { text: Vec::new(), gender };
        proof {
            assert(entry@.text =~= Seq::<char>::empty());
        }
        self.replaced.insert(str_to_chars(symbol), entry);
    }

    /// Expands `symbol` deterministically: the same generator, symbol and
    /// seed always return the same outcome.
    pub fn instantiate_from_seed(&self, symbol: &str, seed: u64) -> (r: Result<String, Error>)
        ensures
            match r {
                Ok(v) => instantiate_s(self@, symbol@, seed) matches Ok(t) && v@ == t,
                Err(e) => instantiate_s(self@, symbol@, seed) matches Err(em) && e@ == em,
            },
    {
        let sym = str_to_chars(symbol);
        let mut env = copy_env(&self.replaced);
        let mut guard = Guard::new();
        let mut rng: u64 = seed;
        match resolve_sym(
            &self.replacements,
            &self.replaced,
            &mut env,
            &mut guard,
            &mut rng,
            &sym,
            DEPTH_LIMIT,
        ) {
            Ok(t) => Ok(chars_to_string(&unescape_chars(&t))),
            Err(e) => Err(e),
        }
    }

    /// Expands `symbol` with a seed drawn from the entropy source: the
    /// outcome is one that some seed produces.
    pub fn instantiate(&self, symbol: &str) -> (r: Result<String, Error>)
        ensures
            match r {
                Ok(v) => exists|seed: u64|
                    #[trigger] instantiate_s(self@, symbol@, seed) matches Ok(t) && v@ == t,
                Err(e) => exists|seed: u64|
                    #[trigger] instantiate_s(self@, symbol@, seed) matches Err(em) && e@ == em,
            },
    {
        let seed = crate::rng::entropy_seed();
        let r = self.instantiate_from_seed(symbol, seed);
        proof {
            match r {
                Ok(ref v) => {
                    assert(instantiate_s(self@, symbol@, seed) matches Ok(t) && v@ == t);
                },
                Err(ref e) => {
                    assert(instantiate_s(self@, symbol@, seed) matches Err(em) && e@ == em);
                },
            }
        }
        r
    }

    /// Expands the message `s` deterministically under the given seed, with
    /// the bindings of `v` registered first.
    pub fn msg_from_seed(&self, s: &str, v: &[(&str, &str)], seed: u64) -> (r: Result<
        String,
        Error,
    >)
        ensures
            match r {
                Ok(out) => msg_s(self@, s@, pairs_deep(v@), seed) matches Ok(t) && out@ == t,
                Err(e) => msg_s(self@, s@, pairs_deep(v@), seed) matches Err(em) && e@ == em,
            },
    {
        let ghost binds = pairs_deep(v@);
        let mut env = copy_env(&self.replaced);
        let mut rng: u64 = seed;
        let mut i: usize = 0;
        while i < v.len()
            invariant
                i <= v@.len(),
                binds == pairs_deep(v@),
                msg_binds_s(self@.rules, self@.presets, self@.presets, seed, binds, 0, DEPTH_LIMIT as nat)
                    == msg_binds_s(self@.rules, self@.presets, env@, rng, binds, i as nat, DEPTH_LIMIT as nat),
            decreases v@.len() - i,
        {
            let p: &(&str, &str) = slice_index_get(v, i);
            let name = chars_to_lower(&str_to_chars(p.0));
            let value = escape_chars(&str_to_chars(p.1));
            let rule = Rule { gender_dependency: None, content: vec![value] };
            proof {
                assert forall|j: int| 0 <= j < rule.content@.len() implies rule@.content[j]
                    == rule.content@[j]@ by {
                    lemma_chars_deep_view(rule.content@[j]);
                }
                assert(rule@.content =~= seq![escape_from(binds[i as int].1, 0)]);
            }
            let mut guard = Guard::new();
            let entry = match replace_content(
                &self.replacements,
                &self.replaced,
                &mut env,
                &mut guard,
                &mut rng,
                &rule,
                DEPTH_LIMIT,
            ) {
                Err(e) => {
                    return Err(e);
                },
                Ok(en) => en,
            };
            env.insert(name, entry);
            i += 1;
        }
        let template = escape_chars(&str_to_chars(s));
        let rule = Rule { gender_dependency: None, content: vec![template] };
        proof {
            assert forall|j: int| 0 <= j < rule.content@.len() implies rule@.content[j]
                == rule.content@[j]@ by {
                lemma_chars_deep_view(rule.content@[j]);
            }
            assert(rule@.content =~= seq![escape_from(s@, 0)]);
        }
        let mut guard = Guard::new();
        match replace_content(
            &self.replacements,
            &self.replaced,
            &mut env,
            &mut guard,
            &mut rng,
            &rule,
            DEPTH_LIMIT,
        ) {
            Err(e) => Err(e),
            Ok(entry) => Ok(chars_to_string(&unescape_chars(&entry.text))),
        }
    }

    /// Expands an ad hoc message without registering it: each binding of `v`
    /// is expanded as a single-variant rule under its lower-cased name, then
    /// the template `s` is expanded the same way and unescaped.
    pub fn msg(&self, s: &str, v: &[(&str, &str)]) -> (r: Result<String, Error>)
        ensures
            match r {
                Ok(out) => exists|seed: u64|
                    #[trigger] msg_s(self@, s@, pairs_deep(v@), seed) matches Ok(t) && out@ == t,
                Err(e) => exists|seed: u64|
                    #[trigger] msg_s(self@, s@, pairs_deep(v@), seed) matches Err(em) && e@ == em,
            },
    {
        let seed = crate::rng::entropy_seed();
        let r = self.msg_from_seed(s, v, seed);
        proof {
            match r {
                Ok(ref out) => {
                    assert(msg_s(self@, s@, pairs_deep(v@), seed) matches Ok(t) && out@ == t);
                },
                Err(ref e) => {
                    assert(msg_s(self@, s@, pairs_deep(v@), seed) matches Err(em) && e@ == em);
                },
            }
        }
        r
    }
}

// ---------------------------------------------------------------------------
// Determinism.
// ---------------------------------------------------------------------------

/// Determinism: the outcome of a seeded expansion is a function of the
/// generator, the symbol and the seed alone, so two runs with the same three
/// agree, whether they succeed or fail.
pub proof fn lemma_seed_deterministic(
    g: GeneratorModel,
    sym: Seq<char>,
    seed: u64,
    r1: Result<Seq<char>, ErrorModel>,
    r2: Result<Seq<char>, ErrorModel>,
)
    requires
        r1 == instantiate_s(g, sym, seed),
        r2 == instantiate_s(g, sym, seed),
    ensures
        r1 == r2,
{
}

/// Memoization: once a symbol resolves, its entry stays; resolving it again,
/// with any guard, random state and fuel, returns the same text and changes
/// neither the environment nor the random state.  An independent reference
/// (`{{name}}`) escapes this by starting from the pre-set entries instead.
pub proof fn lemma_memoized(
    tbl: TblModel,
    presets: EnvModel,
    env: EnvModel,
    guard: Seq<Seq<char>>,
    rng: u64,
    sym: Seq<char>,
    fuel: nat,
    text: Seq<char>,
    env2: EnvModel,
    rng2: u64,
    guard3: Seq<Seq<char>>,
    rng3: u64,
    fuel3: nat,
)
    requires
        resolve_sym_s(tbl, presets, env, guard, rng, sym, fuel) == Ok::<
            (Seq<char>, EnvModel, u64),
            ErrorModel,
        >((text, env2, rng2)),
    ensures
        resolve_sym_s(tbl, presets, env2, guard3, rng3, sym, fuel3) == Ok::<
            (Seq<char>, EnvModel, u64),
            ErrorModel,
        >((text, env2, rng3)),
{
    let low = str_lower(sym);
    if env.contains_key(low) {
        assert(env2 == env);
    } else {
        assert(env2.contains_key(low));
    }
}

} // verus!
