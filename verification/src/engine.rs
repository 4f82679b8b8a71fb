use crate::errors::{Error, ErrorModel};
use crate::gender::Gender;
use crate::rng::{next_index, pick_index, pick_state};
use crate::scan::{
    dots_match_at, dots_render, dots_render_exec, dots_try, first_marker, inst_match_at,
    inst_match_exec, marker_count, reinst_match_at, reinst_match_exec, scan_markers,
    slash_match_at, slash_render, slash_render_exec, slash_try, strip_markers,
};
use crate::table::{copy_env, guard_has, Entry, EntryModel, Guard, NameMap, Rule, RuleModel};
use crate::text::{
    append_chars, capitalize_chars, capitalize_spec, chars_to_lower, chars_to_string, copy_chars,
    str_lower,
};
use vstd::prelude::*;

verus! {

/// The rule table, as a mapping.
pub type TblModel = Map<Seq<char>, RuleModel>;

/// A resolution environment, as a mapping.
pub type EnvModel = Map<Seq<char>, EntryModel>;

/// How deep one expansion may nest.  Independent references restart the
/// recursion guard, so a rule that reinstantiates itself would otherwise
/// recurse without bound; the engine rejects such expansions at this depth.
pub const DEPTH_LIMIT: u64 = 64;

/// Where a scan continues after a match: at the match's end, which every
/// match places behind its start and inside the text.
pub open spec fn advance(pos: nat, end: nat, len: nat) -> nat {
    if pos < end && end <= len {
        end
    } else {
        pos + 1
    }
}

// ---------------------------------------------------------------------------
// The resolution algorithm, as one spec-level interpreter.  Every executable
// engine function below returns exactly what these functions say.
// ---------------------------------------------------------------------------

/// Resolves one symbol: the memoized entry if the environment holds one;
/// otherwise the symbol's rule is expanded, stored and returned, capitalized
/// after the use-site spelling either way.
pub open spec fn resolve_sym_s(
    tbl: TblModel,
    presets: EnvModel,
    env: EnvModel,
    guard: Seq<Seq<char>>,
    rng: u64,
    sym: Seq<char>,
    fuel: nat,
) -> Result<(Seq<char>, EnvModel, u64), ErrorModel>
    decreases fuel, 0nat, 1nat,
{
    let low = str_lower(sym);
    if env.contains_key(low) {
        Ok((capitalize_spec(sym, env[low].text), env, rng))
    } else if guard_has(guard, low) {
        Err(ErrorModel::CyclicDependency(sym))
    } else if !tbl.contains_key(low) {
        Err(ErrorModel::UnknownSymbol(sym))
    } else if fuel == 0 {
        Err(ErrorModel::DepthExceeded)
    } else {
        match replace_content_s(tbl, presets, env, guard.push(low), rng, tbl[low], (fuel - 1) as nat) {
            Err(e) => Err(e),
            Ok((entry, env2, rng2)) => Ok(
                (capitalize_spec(sym, entry.text), env2.insert(low, entry), rng2),
            ),
        }
    }
}

/// The gender of `sym`: resolved first if the environment does not hold it
/// yet; a symbol that still has no entry afterwards has no gender source.
pub open spec fn get_gender_s(
    tbl: TblModel,
    presets: EnvModel,
    env: EnvModel,
    guard: Seq<Seq<char>>,
    rng: u64,
    sym: Seq<char>,
    fuel: nat,
) -> Result<(Gender, EnvModel, u64), ErrorModel>
    decreases fuel, 0nat, 2nat,
{
    if env.contains_key(sym) {
        Ok((env[sym].gender, env, rng))
    } else if fuel == 0 {
        Err(ErrorModel::DepthExceeded)
    } else {
        match resolve_sym_s(tbl, presets, env, guard, rng, sym, (fuel - 1) as nat) {
            Err(e) => Err(e),
            Ok((_text, env2, rng2)) => if env2.contains_key(sym) {
                Ok((env2[sym].gender, env2, rng2))
            } else {
                Err(ErrorModel::MissingGenderSource(sym))
            },
        }
    }
}

/// Replaces every independent reference `{{name}}` from `pos` on.  Each one
/// is resolved from a fresh copy of the pre-set entries with a fresh guard;
/// only the text and the advanced random state are kept.
pub open spec fn reinst_pass_s(
    tbl: TblModel,
    presets: EnvModel,
    rng: u64,
    t: Seq<char>,
    pos: nat,
    fuel: nat,
) -> Result<(Seq<char>, u64), ErrorModel>
    decreases fuel, t.len() - pos, 0nat,
{
    if fuel == 0 {
        Err(ErrorModel::DepthExceeded)
    } else if pos >= t.len() {
        Ok((Seq::empty(), rng))
    } else {
        match reinst_match_at(t, pos) {
            Some(m) => match resolve_sym_s(
                tbl,
                presets,
                presets,
                Seq::empty(),
                rng,
                m.0,
                (fuel - 1) as nat,
            ) {
                Err(e) => Err(e),
                Ok((txt, _env2, rng2)) => match reinst_pass_s(
                    tbl,
                    presets,
                    rng2,
                    t,
                    advance(pos, m.1, t.len()),
                    fuel,
                ) {
                    Err(e) => Err(e),
                    Ok((rest, rng3)) => Ok((txt + rest, rng3)),
                },
            },
            None => match reinst_pass_s(tbl, presets, rng, t, pos + 1, fuel) {
                Err(e) => Err(e),
                Ok((rest, rng2)) => Ok((seq![t[pos as int]] + rest, rng2)),
            },
        }
    }
}

/// Replaces every memoized reference `{name}` from `pos` on, against the
/// shared environment.
pub open spec fn inst_pass_s(
    tbl: TblModel,
    presets: EnvModel,
    env: EnvModel,
    guard: Seq<Seq<char>>,
    rng: u64,
    t: Seq<char>,
    pos: nat,
    fuel: nat,
) -> Result<(Seq<char>, EnvModel, u64), ErrorModel>
    decreases fuel, t.len() - pos, 0nat,
{
    if fuel == 0 {
        Err(ErrorModel::DepthExceeded)
    } else if pos >= t.len() {
        Ok((Seq::empty(), env, rng))
    } else {
        match inst_match_at(t, pos) {
            Some(m) => match resolve_sym_s(tbl, presets, env, guard, rng, m.0, (fuel - 1) as nat) {
                Err(e) => Err(e),
                Ok((txt, env2, rng2)) => match inst_pass_s(
                    tbl,
                    presets,
                    env2,
                    guard,
                    rng2,
                    t,
                    advance(pos, m.1, t.len()),
                    fuel,
                ) {
                    Err(e) => Err(e),
                    Ok((rest, env3, rng3)) => Ok((txt + rest, env3, rng3)),
                },
            },
            None => match inst_pass_s(tbl, presets, env, guard, rng, t, pos + 1, fuel) {
                Err(e) => Err(e),
                Ok((rest, env2, rng2)) => Ok((seq![t[pos as int]] + rest, env2, rng2)),
            },
        }
    }
}

/// Resolves every dot-agreement markup from `pos` on, under the inherited
/// gender `ga` or an explicit bracketed override.
pub open spec fn dots_pass_s(
    tbl: TblModel,
    presets: EnvModel,
    env: EnvModel,
    guard: Seq<Seq<char>>,
    rng: u64,
    ga: Gender,
    t: Seq<char>,
    pos: nat,
    fuel: nat,
) -> Result<(Seq<char>, EnvModel, u64), ErrorModel>
    decreases fuel, t.len() - pos, 0nat,
{
    if fuel == 0 {
        Err(ErrorModel::DepthExceeded)
    } else if pos >= t.len() {
        Ok((Seq::empty(), env, rng))
    } else {
        match dots_match_at(t, pos) {
            Some(m) => {
                let gstep = match m.dep {
                    Some(d) => get_gender_s(tbl, presets, env, guard, rng, d, (fuel - 1) as nat),
                    None => Ok((ga, env, rng)),
                };
                match gstep {
                    Err(e) => Err(e),
                    Ok((g, env2, rng2)) => match dots_pass_s(
                        tbl,
                        presets,
                        env2,
                        guard,
                        rng2,
                        ga,
                        t,
                        advance(pos, m.end, t.len()),
                        fuel,
                    ) {
                        Err(e) => Err(e),
                        Ok((rest, env3, rng3)) => Ok((dots_render(m, g) + rest, env3, rng3)),
                    },
                }
            },
            None => match dots_pass_s(tbl, presets, env, guard, rng, ga, t, pos + 1, fuel) {
                Err(e) => Err(e),
                Ok((rest, env2, rng2)) => Ok((seq![t[pos as int]] + rest, env2, rng2)),
            },
        }
    }
}

/// Resolves every slash-agreement markup from `pos` on.
pub open spec fn slash_pass_s(
    tbl: TblModel,
    presets: EnvModel,
    env: EnvModel,
    guard: Seq<Seq<char>>,
    rng: u64,
    ga: Gender,
    t: Seq<char>,
    pos: nat,
    fuel: nat,
) -> Result<(Seq<char>, EnvModel, u64), ErrorModel>
    decreases fuel, t.len() - pos, 0nat,
{
    if fuel == 0 {
        Err(ErrorModel::DepthExceeded)
    } else if pos >= t.len() {
        Ok((Seq::empty(), env, rng))
    } else {
        match slash_match_at(t, pos) {
            Some(m) => {
                let gstep = match m.dep {
                    Some(d) => get_gender_s(tbl, presets, env, guard, rng, d, (fuel - 1) as nat),
                    None => Ok((ga, env, rng)),
                };
                match gstep {
                    Err(e) => Err(e),
                    Ok((g, env2, rng2)) => match slash_pass_s(
                        tbl,
                        presets,
                        env2,
                        guard,
                        rng2,
                        ga,
                        t,
                        advance(pos, m.end, t.len()),
                        fuel,
                    ) {
                        Err(e) => Err(e),
                        Ok((rest, env3, rng3)) => Ok((slash_render(m, g) + rest, env3, rng3)),
                    },
                }
            },
            None => match slash_pass_s(tbl, presets, env, guard, rng, ga, t, pos + 1, fuel) {
                Err(e) => Err(e),
                Ok((rest, env2, rng2)) => Ok((seq![t[pos as int]] + rest, env2, rng2)),
            },
        }
    }
}

/// Expands one replacement rule, in this order: a variant is picked at
/// random; its single gender marker, if any, is extracted; independent and
/// memoized references are substituted; the rule's declared gender dependency
/// is resolved; dot- and then slash-agreement markup is rendered.  The entry
/// carries the marker's gender, not the agreement gender.
pub open spec fn replace_content_s(
    tbl: TblModel,
    presets: EnvModel,
    env: EnvModel,
    guard: Seq<Seq<char>>,
    rng: u64,
    rule: RuleModel,
    fuel: nat,
) -> Result<(EntryModel, EnvModel, u64), ErrorModel>
    decreases fuel, 0nat, 0nat,
{
    if fuel == 0 {
        Err(ErrorModel::DepthExceeded)
    } else {
        let picked = if rule.content.len() == 0 {
            (Seq::<char>::empty(), rng)
        } else {
            (rule.content[pick_index(rng, rule.content.len()) as int], pick_state(rng))
        };
        let s = picked.0;
        let rng1 = picked.1;
        if marker_count(s, 0) > 1 {
            Err(ErrorModel::MultipleGenderMarkers(s))
        } else {
            let g = first_marker(s, 0);
            let s1 = strip_markers(s, 0);
            match reinst_pass_s(tbl, presets, rng1, s1, 0, (fuel - 1) as nat) {
                Err(e) => Err(e),
                Ok((s2, rng2)) => match inst_pass_s(
                    tbl,
                    presets,
                    env,
                    guard,
                    rng2,
                    s2,
                    0,
                    (fuel - 1) as nat,
                ) {
                    Err(e) => Err(e),
                    Ok((s3, env3, rng3)) => {
                        let gstep = match rule.gender_dependency {
                            Some(d) => get_gender_s(
                                tbl,
                                presets,
                                env3,
                                guard,
                                rng3,
                                d,
                                (fuel - 1) as nat,
                            ),
                            None => Ok((Gender::Neutral, env3, rng3)),
                        };
                        match gstep {
                            Err(e) => Err(e),
                            Ok((ga, env4, rng4)) => match dots_pass_s(
                                tbl,
                                presets,
                                env4,
                                guard,
                                rng4,
                                ga,
                                s3,
                                0,
                                (fuel - 1) as nat,
                            ) {
                                Err(e) => Err(e),
                                Ok((s5, env5, rng5)) => match slash_pass_s(
                                    tbl,
                                    presets,
                                    env5,
                                    guard,
                                    rng5,
                                    ga,
                                    s5,
                                    0,
                                    (fuel - 1) as nat,
                                ) {
                                    Err(e) => Err(e),
                                    Ok((s6, env6, rng6)) => Ok(
                                        (EntryModel { text: s6, gender: g }, env6, rng6),
                                    ),
                                },
                            },
                        }
                    },
                },
            }
        }
    }
}

// ---------------------------------------------------------------------------
// The executable engine.  Each function returns exactly what its spec-level
// counterpart says, and leaves the guard as it found it on success.
// ---------------------------------------------------------------------------

/// Resolves one symbol against the shared environment.
pub(crate) fn resolve_sym(
    tbl: &NameMap<Rule>,
    presets: &NameMap<Entry>,
    env: &mut NameMap<Entry>,
    guard: &mut Guard,
    rng: &mut u64,
    sym: &Vec<char>,
    fuel: u64,
) -> (r: Result<Vec<char>, Error>)
    ensures
        ({
            let s = resolve_sym_s(tbl@, presets@, old(env)@, old(guard)@, *old(rng), sym@, fuel as nat);
            match r {
                Ok(v) => {
                    &&& s matches Ok(ok)
                    &&& v@ == ok.0
                    &&& final(env)@ == ok.1
                    &&& *final(rng) == ok.2
                    &&& final(guard)@ == old(guard)@
                },
                Err(e) => s matches Err(em) && e@ == em,
            }
        }),
    decreases fuel, 0nat, 1nat,
{
    let low = chars_to_lower(sym);
    if let Some(e) = env.get(&low) {
        return Ok(capitalize_chars(sym, &e.text));
    }
    if guard.contains(&low) {
        return Err(Error::CyclicDependency(chars_to_string(sym)));
    }
    let rule = match tbl.get(&low) {
        None => {
            return Err(Error::UnknownSymbol(chars_to_string(sym)));
        },
        Some(rule) => rule,
    };
    if fuel == 0 {
        return Err(Error::DepthExceeded);
    }
    guard.push(copy_chars(&low));
    let entry = match replace_content(tbl, presets, env, guard, rng, rule, fuel - 1) {
        Err(e) => {
            return Err(e);
        },
        Ok(entry) => entry,
    };
    let txt = capitalize_chars(sym, &entry.text);
    env.insert(low, entry);
    guard.pop();
    Ok(txt)
}

/// Resolves the gender of `sym`.
pub(crate) fn get_gender(
    tbl: &NameMap<Rule>,
    presets: &NameMap<Entry>,
    env: &mut NameMap<Entry>,
    guard: &mut Guard,
    rng: &mut u64,
    sym: &Vec<char>,
    fuel: u64,
) -> (r: Result<Gender, Error>)
    ensures
        ({
            let s = get_gender_s(tbl@, presets@, old(env)@, old(guard)@, *old(rng), sym@, fuel as nat);
            match r {
                Ok(g) => {
                    &&& s matches Ok(ok)
                    &&& g == ok.0
                    &&& final(env)@ == ok.1
                    &&& *final(rng) == ok.2
                    &&& final(guard)@ == old(guard)@
                },
                Err(e) => s matches Err(em) && e@ == em,
            }
        }),
    decreases fuel, 0nat, 2nat,
{
    if let Some(e) = env.get(sym) {
        return Ok(e.gender);
    }
    if fuel == 0 {
        return Err(Error::DepthExceeded);
    }
    match resolve_sym(tbl, presets, env, guard, rng, sym, fuel - 1) {
        Err(e) => Err(e),
        Ok(_text) => match env.get(sym) {
            Some(e) => Ok(e.gender),
            None => Err(Error::MissingGenderSource(chars_to_string(sym))),
        },
    }
}

/// Replaces every independent reference `{{name}}` from `pos` on.
pub(crate) fn reinst_pass(
    tbl: &NameMap<Rule>,
    presets: &NameMap<Entry>,
    rng: &mut u64,
    t: &Vec<char>,
    pos: usize,
    fuel: u64,
) -> (r: Result<Vec<char>, Error>)
    requires
        pos <= t.len(),
    ensures
        ({
            let s = reinst_pass_s(tbl@, presets@, *old(rng), t@, pos as nat, fuel as nat);
            match r {
                Ok(v) => s matches Ok(ok) && v@ == ok.0 && *final(rng) == ok.1,
                Err(e) => s matches Err(em) && e@ == em,
            }
        }),
    decreases fuel, t.len() - pos, 0nat,
{
    if fuel == 0 {
        return Err(Error::DepthExceeded);
    }
    if pos >= t.len() {
        return Ok(Vec::new());
    }
    match reinst_match_exec(t, pos) {
        Some(m) => {
            let mut env2 = copy_env(presets);
            let mut guard2 = Guard::new();
            let mut txt =
                match resolve_sym(tbl, presets, &mut env2, &mut guard2, rng, &m.0, fuel - 1) {
                Err(e) => {
                    return Err(e);
                },
                Ok(v) => v,
            };
            let rest = match reinst_pass(tbl, presets, rng, t, m.1, fuel) {
                Err(e) => {
                    return Err(e);
                },
                Ok(v) => v,
            };
            append_chars(&mut txt, &rest);
            Ok(txt)
        },
        None => {
            let rest = match reinst_pass(tbl, presets, rng, t, pos + 1, fuel) {
                Err(e) => {
                    return Err(e);
                },
                Ok(v) => v,
            };
            let ghost restv = rest@;
            let mut out = rest;
            out.insert(0, t[pos]);
            proof {
                assert(out@ =~= seq![t@[pos as int]] + restv);
            }
            Ok(out)
        },
    }
}

/// Replaces every memoized reference `{name}` from `pos` on.
pub(crate) fn inst_pass(
    tbl: &NameMap<Rule>,
    presets: &NameMap<Entry>,
    env: &mut NameMap<Entry>,
    guard: &mut Guard,
    rng: &mut u64,
    t: &Vec<char>,
    pos: usize,
    fuel: u64,
) -> (r: Result<Vec<char>, Error>)
    requires
        pos <= t.len(),
    ensures
        ({
            let s = inst_pass_s(
                tbl@,
                presets@,
                old(env)@,
                old(guard)@,
                *old(rng),
                t@,
                pos as nat,
                fuel as nat,
            );
            match r {
                Ok(v) => {
                    &&& s matches Ok(ok)
                    &&& v@ == ok.0
                    &&& final(env)@ == ok.1
                    &&& *final(rng) == ok.2
                    &&& final(guard)@ == old(guard)@
                },
                Err(e) => s matches Err(em) && e@ == em,
            }
        }),
    decreases fuel, t.len() - pos, 0nat,
{
    if fuel == 0 {
        return Err(Error::DepthExceeded);
    }
    if pos >= t.len() {
        return Ok(Vec::new());
    }
    match inst_match_exec(t, pos) {
        Some(m) => {
            let mut txt = match resolve_sym(tbl, presets, env, guard, rng, &m.0, fuel - 1) {
                Err(e) => {
                    return Err(e);
                },
                Ok(v) => v,
            };
            let rest = match inst_pass(tbl, presets, env, guard, rng, t, m.1, fuel) {
                Err(e) => {
                    return Err(e);
                },
                Ok(v) => v,
            };
            append_chars(&mut txt, &rest);
            Ok(txt)
        },
        None => {
            let rest = match inst_pass(tbl, presets, env, guard, rng, t, pos + 1, fuel) {
                Err(e) => {
                    return Err(e);
                },
                Ok(v) => v,
            };
            let ghost restv = rest@;
            let mut out = rest;
            out.insert(0, t[pos]);
            proof {
                assert(out@ =~= seq![t@[pos as int]] + restv);
            }
            Ok(out)
        },
    }
}

/// Resolves every dot-agreement markup from `pos` on.
pub(crate) fn dots_pass(
    tbl: &NameMap<Rule>,
    presets: &NameMap<Entry>,
    env: &mut NameMap<Entry>,
    guard: &mut Guard,
    rng: &mut u64,
    ga: Gender,
    t: &Vec<char>,
    pos: usize,
    fuel: u64,
) -> (r: Result<Vec<char>, Error>)
    requires
        pos <= t.len(),
    ensures
        ({
            let s = dots_pass_s(
                tbl@,
                presets@,
                old(env)@,
                old(guard)@,
                *old(rng),
                ga,
                t@,
                pos as nat,
                fuel as nat,
            );
            match r {
                Ok(v) => {
                    &&& s matches Ok(ok)
                    &&& v@ == ok.0
                    &&& final(env)@ == ok.1
                    &&& *final(rng) == ok.2
                    &&& final(guard)@ == old(guard)@
                },
                Err(e) => s matches Err(em) && e@ == em,
            }
        }),
    decreases fuel, t.len() - pos, 0nat,
{
    if fuel == 0 {
        return Err(Error::DepthExceeded);
    }
    if pos >= t.len() {
        return Ok(Vec::new());
    }
    match dots_try(t, pos) {
        Some(h) => {
            let g = match &h.dep {
                Some(d) => match get_gender(tbl, presets, env, guard, rng, d, fuel - 1) {
                    Err(e) => {
                        return Err(e);
                    },
                    Ok(g) => g,
                },
                None => ga,
            };
            let mut seg = dots_render_exec(&h, g);
            let rest = match dots_pass(tbl, presets, env, guard, rng, ga, t, h.end, fuel) {
                Err(e) => {
                    return Err(e);
                },
                Ok(v) => v,
            };
            append_chars(&mut seg, &rest);
            Ok(seg)
        },
        None => {
            let rest = match dots_pass(tbl, presets, env, guard, rng, ga, t, pos + 1, fuel) {
                Err(e) => {
                    return Err(e);
                },
                Ok(v) => v,
            };
            let ghost restv = rest@;
            let mut out = rest;
            out.insert(0, t[pos]);
            proof {
                assert(out@ =~= seq![t@[pos as int]] + restv);
            }
            Ok(out)
        },
    }
}

/// Resolves every slash-agreement markup from `pos` on.
pub(crate) fn slash_pass(
    tbl: &NameMap<Rule>,
    presets: &NameMap<Entry>,
    env: &mut NameMap<Entry>,
    guard: &mut Guard,
    rng: &mut u64,
    ga: Gender,
    t: &Vec<char>,
    pos: usize,
    fuel: u64,
) -> (r: Result<Vec<char>, Error>)
    requires
        pos <= t.len(),
    ensures
        ({
            let s = slash_pass_s(
                tbl@,
                presets@,
                old(env)@,
                old(guard)@,
                *old(rng),
                ga,
                t@,
                pos as nat,
                fuel as nat,
            );
            match r {
                Ok(v) => {
                    &&& s matches Ok(ok)
                    &&& v@ == ok.0
                    &&& final(env)@ == ok.1
                    &&& *final(rng) == ok.2
                    &&& final(guard)@ == old(guard)@
                },
                Err(e) => s matches Err(em) && e@ == em,
            }
        }),
    decreases fuel, t.len() - pos, 0nat,
{
    if fuel == 0 {
        return Err(Error::DepthExceeded);
    }
    if pos >= t.len() {
        return Ok(Vec::new());
    }
    match slash_try(t, pos) {
        Some(h) => {
            let g = match &h.dep {
                Some(d) => match get_gender(tbl, presets, env, guard, rng, d, fuel - 1) {
                    Err(e) => {
                        return Err(e);
                    },
                    Ok(g) => g,
                },
                None => ga,
            };
            let mut seg = slash_render_exec(&h, g);
            let rest = match slash_pass(tbl, presets, env, guard, rng, ga, t, h.end, fuel) {
                Err(e) => {
                    return Err(e);
                },
                Ok(v) => v,
            };
            append_chars(&mut seg, &rest);
            Ok(seg)
        },
        None => {
            let rest = match slash_pass(tbl, presets, env, guard, rng, ga, t, pos + 1, fuel) {
                Err(e) => {
                    return Err(e);
                },
                Ok(v) => v,
            };
            let ghost restv = rest@;
            let mut out = rest;
            out.insert(0, t[pos]);
            proof {
                assert(out@ =~= seq![t@[pos as int]] + restv);
            }
            Ok(out)
        },
    }
}

/// Expands one replacement rule.
#[verifier::rlimit(100)]
#[verifier::spinoff_prover]
pub(crate) fn replace_content(
    tbl: &NameMap<Rule>,
    presets: &NameMap<Entry>,
    env: &mut NameMap<Entry>,
    guard: &mut Guard,
    rng: &mut u64,
    rule: &Rule,
    fuel: u64,
) -> (r: Result<Entry, Error>)
    ensures
        ({
            let s = replace_content_s(
                tbl@,
                presets@,
                old(env)@,
                old(guard)@,
                *old(rng),
                rule@,
                fuel as nat,
            );
            match r {
                Ok(entry) => {
                    &&& s matches Ok(ok)
                    &&& entry@ == ok.0
                    &&& final(env)@ == ok.1
                    &&& *final(rng) == ok.2
                    &&& final(guard)@ == old(guard)@
                },
                Err(e) => s matches Err(em) && e@ == em,
            }
        }),
    decreases fuel, 0nat, 0nat,
{
    if fuel == 0 {
        return Err(Error::DepthExceeded);
    }
    let s: Vec<char> = if rule.content.len() == 0 {
        Vec::new()
    } else {
        let idx = next_index(rng, rule.content.len());
        proof {
            crate::table::lemma_chars_deep_view(rule.content@[idx as int]);
        }
        copy_chars(&rule.content[idx])
    };
    let scanned = scan_markers(&s, 0);
    if scanned.0 > 1 {
        return Err(Error::MultipleGenderMarkers(chars_to_string(&s)));
    }
    let g = scanned.1;
    let s1 = scanned.2;
    let s2 = match reinst_pass(tbl, presets, rng, &s1, 0, fuel - 1) {
        Err(e) => {
            return Err(e);
        },
        Ok(v) => v,
    };
    let s3 = match inst_pass(tbl, presets, env, guard, rng, &s2, 0, fuel - 1) {
        Err(e) => {
            return Err(e);
        },
        Ok(v) => v,
    };
    let ga = match &rule.gender_dependency {
        Some(d) => match get_gender(tbl, presets, env, guard, rng, d, fuel - 1) {
            Err(e) => {
                return Err(e);
            },
            Ok(g) => g,
        },
        None => Gender::Neutral,
    };
    let s5 = match dots_pass(tbl, presets, env, guard, rng, ga, &s3, 0, fuel - 1) {
        Err(e) => {
            return Err(e);
        },
        Ok(v) => v,
    };
    let s6 = match slash_pass(tbl, presets, env, guard, rng, ga, &s5, 0, fuel - 1) {
        Err(e) => {
            return Err(e);
        },
        Ok(v) => v,
    };
    Ok(Entry { text: s6, gender: g })
}

} // verus!
