use crate::gender::Gender;
use crate::text::chars_eq;
use vstd::prelude::*;

verus! {

// ---------------------------------------------------------------------------
// Resolved entries and replacement rules.
// ---------------------------------------------------------------------------

/// The result computed for one symbol within one top-level expansion: its
/// final text and the gender inferred from, or assigned to, it.
pub struct Entry {
    pub text: Vec<char>,
    pub gender: Gender,
}

/// Model of an [`Entry`].
pub struct EntryModel {
    pub text: Seq<char>,
    pub gender: Gender,
}

impl View for Entry {
    type V = EntryModel;

    open spec fn view(&self) -> EntryModel {
        EntryModel { text: self.text@, gender: self.gender }
    }
}

/// A replacement rule: the candidate variants of one symbol, and the symbol
/// whose gender this rule's agreement markup depends on, if one was declared.
pub struct Rule {
    pub gender_dependency: Option<Vec<char>>,
    pub content: Vec<Vec<char>>,
}

/// Model of a [`Rule`].
pub struct RuleModel {
    pub gender_dependency: Option<Seq<char>>,
    pub content: Seq<Seq<char>>,
}

impl View for Rule {
    type V = RuleModel;

    open spec fn view(&self) -> RuleModel {
        RuleModel {
            gender_dependency: match self.gender_dependency {
                Some(d) => Some(d@),
                None => None,
            },
            content: self.content.deep_view(),
        }
    }
}

// ---------------------------------------------------------------------------
// Name-keyed maps, stored as vectors of pairs.
// ---------------------------------------------------------------------------

/// The mapping held by a sequence of key–value pairs; a later pair wins.
pub open spec fn map_of<V: View>(s: Seq<(Vec<char>, V)>) -> Map<Seq<char>, V::V>
    decreases s.len(),
{
    if s.len() == 0 {
        Map::empty()
    } else {
        map_of(s.drop_last()).insert(s.last().0@, s.last().1@)
    }
}

/// A mapping from symbol names to values, keyed by exact character sequence.
pub struct NameMap<V> {
    pub pairs: Vec<(Vec<char>, V)>,
}

impl<V: View> View for NameMap<V> {
    type V = Map<Seq<char>, V::V>;

    open spec fn view(&self) -> Map<Seq<char>, V::V> {
        map_of(self.pairs@)
    }
}

impl<V: View> NameMap<V> {
    /// An empty mapping.
    pub fn new() -> (r: Self)
        ensures
            r@ == Map::<Seq<char>, V::V>::empty(),
    {
        NameMap { pairs: Vec::new() }
    }

    /// Binds `key` to `value`, replacing any earlier binding.
    pub fn insert(&mut self, key: Vec<char>, value: V)
        ensures
            final(self)@ == old(self)@.insert(key@, value@),
    {
        let ghost pre = self.pairs@;
        self.pairs.push((key, value));
        proof {
            assert(self.pairs@.drop_last() =~= pre);
        }
    }

    /// The value bound to `key`, if any.
    #[verifier::loop_isolation(false)]
    pub fn get<'a>(&'a self, key: &Vec<char>) -> (r: Option<&'a V>)
        ensures
            match r {
                Some(v) => self@.contains_key(key@) && v@ == self@[key@],
                None => !self@.contains_key(key@),
            },
    {
        let mut found: Option<&V> = None;
        let mut i: usize = 0;
        while i < self.pairs.len()
            invariant
                i <= self.pairs.len(),
                match found {
                    Some(v) => map_of(self.pairs@.take(i as int)).contains_key(key@) && v@ == map_of(
                        self.pairs@.take(i as int),
                    )[key@],
                    None => !map_of(self.pairs@.take(i as int)).contains_key(key@),
                },
            decreases self.pairs.len() - i,
        {
            let p = &self.pairs[i];
            if chars_eq(&p.0, key) {
                found = Some(&p.1);
            }
            proof {
                assert(self.pairs@.take(i + 1).drop_last() =~= self.pairs@.take(i as int));
                assert(self.pairs@.take(i + 1).last() == self.pairs@[i as int]);
            }
            i += 1;
        }
        proof {
            assert(self.pairs@.take(self.pairs@.len() as int) =~= self.pairs@);
        }
        found
    }

}

/// Copies a map of entries, pair by pair.
pub(crate) fn copy_env(src: &NameMap<Entry>) -> (r: NameMap<Entry>)
    ensures
        r@ == src@,
{
    let mut out: NameMap<Entry> = NameMap::new();
    let mut i: usize = 0;
    while i < src.pairs.len()
        invariant
            i <= src.pairs.len(),
            out@ == map_of(src.pairs@.take(i as int)),
        decreases src.pairs.len() - i,
    {
        let p = &src.pairs[i];
        let key = crate::text::copy_chars(&p.0);
        let value = Entry { text: crate::text::copy_chars(&p.1.text), gender: p.1.gender };
        proof {
            assert(value@ == p.1@);
            assert(src.pairs@.take(i + 1).drop_last() =~= src.pairs@.take(i as int));
            assert(src.pairs@.take(i + 1).last() == src.pairs@[i as int]);
        }
        out.insert(key, value);
        i += 1;
    }
    proof {
        assert(src.pairs@.take(src.pairs@.len() as int) =~= src.pairs@);
    }
    out
}

// ---------------------------------------------------------------------------
// The recursion guard.
// ---------------------------------------------------------------------------

/// The deep view of a character vector is its view.
pub proof fn lemma_chars_deep_view(v: Vec<char>)
    ensures
        v.deep_view() == v@,
{
    assert(v.deep_view() =~= v@);
}

/// Whether the guard `g` holds the name `k`.
pub open spec fn guard_has(g: Seq<Seq<char>>, k: Seq<char>) -> bool {
    exists|i: int| 0 <= i < g.len() && g[i] == k
}

/// The set of symbols currently being resolved, used to reject cyclic
/// dependencies.  Symbols are pushed and popped in call order.
pub struct Guard {
    pub names: Vec<Vec<char>>,
}

impl View for Guard {
    type V = Seq<Seq<char>>;

    open spec fn view(&self) -> Seq<Seq<char>> {
        self.names.deep_view()
    }
}

impl Guard {
    /// An empty guard.
    pub fn new() -> (r: Self)
        ensures
            r@ == Seq::<Seq<char>>::empty(),
    {
        let g = Guard { names: Vec::new() };
        proof {
            assert(g@ =~= Seq::<Seq<char>>::empty());
        }
        g
    }

    /// Whether `key` is being resolved.
    #[verifier::loop_isolation(false)]
    pub fn contains(&self, key: &Vec<char>) -> (r: bool)
        ensures
            r == guard_has(self@, key@),
    {
        let mut i: usize = 0;
        while i < self.names.len()
            invariant
                i <= self.names.len(),
                forall|j: int| 0 <= j < i ==> self@[j] != key@,
            decreases self.names.len() - i,
        {
            let hit = chars_eq(&self.names[i], key);
            proof {
                lemma_chars_deep_view(self.names@[i as int]);
            }
            if hit {
                proof {
                    assert(self@[i as int] == key@);
                }
                return true;
            }
            i += 1;
        }
        false
    }

    /// Marks `key` as being resolved.
    pub fn push(&mut self, key: Vec<char>)
        ensures
            final(self)@ == old(self)@.push(key@),
    {
        let ghost k = key@;
        let ghost pre = self.names@;
        self.names.push(key);
        proof {
            assert forall|j: int| 0 <= j < self.names@.len() implies self@[j] == old(self)@.push(
                k,
            )[j] by {
                lemma_chars_deep_view(self.names@[j]);
                if j < pre.len() {
                    lemma_chars_deep_view(pre[j]);
                }
            }
            assert(self@ =~= old(self)@.push(k));
        }
    }

    /// Unmarks the symbol pushed last.
    pub fn pop(&mut self)
        requires
            old(self)@.len() > 0,
        ensures
            final(self)@ == old(self)@.drop_last(),
    {
        let _ = self.names.pop();
        proof {
            assert(self@ =~= old(self)@.drop_last());
        }
    }
}

} // verus!
