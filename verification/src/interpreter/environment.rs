//! The variables of a run: names and their values, in the order in which the
//! names were first bound. A name keeps the first value it was given.
use vstd::prelude::*;

verus! {

/// An environment as a mathematical value: pairs of name and value, oldest
/// first.
pub type Bindings = Seq<(Seq<char>, Seq<char>)>;

/// The value of the first pair with the given name at or after position `i`.
pub open spec fn find_from(env: Bindings, name: Seq<char>, i: int) -> Option<Seq<char>>
    decreases env.len() - i,
{
    if 0 <= i < env.len() {
        if env[i].0 == name {
            Some(env[i].1)
        } else {
            find_from(env, name, i + 1)
        }
    } else {
        None
    }
}

/// Whether the name has a value.
pub open spec fn bound(env: Bindings, name: Seq<char>) -> bool {
    find_from(env, name, 0) is Some
}

/// The value of a name; the empty text where it has none.
pub open spec fn lookup(env: Bindings, name: Seq<char>) -> Seq<char> {
    match find_from(env, name, 0) {
        Some(value) => value,
        None => Seq::empty(),
    }
}

/// The environment after binding a name: unchanged where the name has a value
/// already, else with the pair added at the end.
pub open spec fn bind(env: Bindings, name: Seq<char>, value: Seq<char>) -> Bindings {
    if bound(env, name) {
        env
    } else {
        env.push((name, value))
    }
}

/// Whether no name occurs twice.
pub open spec fn distinct(env: Bindings) -> bool {
    forall|i: int, j: int| 0 <= i < j < env.len() ==> env[i].0 != env[j].0
}

/// A name has a value exactly if some pair carries it.
pub proof fn lemma_find_from(env: Bindings, name: Seq<char>, i: int)
    requires
        0 <= i,
    ensures
        find_from(env, name, i) is Some <==> exists|k: int| i <= k < env.len() && env[k].0 == name,
    decreases env.len() - i,
{
    if i < env.len() {
        if env[i].0 == name {
            assert(i <= i < env.len() && env[i].0 == name);
        } else {
            lemma_find_from(env, name, i + 1);
            if find_from(env, name, i) is Some {
                let k = choose|k: int| i + 1 <= k < env.len() && env[k].0 == name;
                assert(i <= k < env.len() && env[k].0 == name);
            }
            if exists|k: int| i <= k < env.len() && env[k].0 == name {
                let k = choose|k: int| i <= k < env.len() && env[k].0 == name;
                assert(i + 1 <= k < env.len() && env[k].0 == name);
            }
        }
    }
}

/// Adding a pair at the end changes nothing for a name that is found before
/// it, and gives the new value to the new name where it was not found.
pub proof fn lemma_find_after_push(env: Bindings, pair: (Seq<char>, Seq<char>), name: Seq<char>, i: int)
    requires
        0 <= i <= env.len(),
    ensures
        find_from(env.push(pair), name, i) == match find_from(env, name, i) {
            Some(value) => Some(value),
            None => if pair.0 == name {
                Some(pair.1)
            } else {
                None
            },
        },
    decreases env.len() - i,
{
    let longer = env.push(pair);
    if i < env.len() {
        assert(longer[i] == env[i]);
        if env[i].0 != name {
            lemma_find_after_push(env, pair, name, i + 1);
        }
    } else {
        assert(longer[i] == pair);
        assert(find_from(longer, name, i + 1) is None);
    }
}

/// The first value stays: binding a name that has a value changes nothing, and
/// after binding a name that has none the name has the value given.
pub proof fn lemma_first_write_wins(env: Bindings, name: Seq<char>, first: Seq<char>, second: Seq<char>)
    ensures
        bound(bind(env, name, first), name),
        !bound(env, name) ==> lookup(bind(env, name, first), name) == first,
        bound(env, name) ==> lookup(bind(env, name, first), name) == lookup(env, name),
        bind(bind(env, name, first), name, second) == bind(env, name, first),
{
    lemma_find_after_push(env, (name, first), name, 0);
}

/// Binding one name leaves the values of all other names as they were.
pub proof fn lemma_bind_other(env: Bindings, name: Seq<char>, value: Seq<char>, other: Seq<char>)
    requires
        other != name,
    ensures
        bound(bind(env, name, value), other) == bound(env, other),
        lookup(bind(env, name, value), other) == lookup(env, other),
{
    lemma_find_after_push(env, (name, value), other, 0);
}

/// Binding keeps the names distinct.
pub proof fn lemma_bind_distinct(env: Bindings, name: Seq<char>, value: Seq<char>)
    requires
        distinct(env),
    ensures
        distinct(bind(env, name, value)),
{
    if !bound(env, name) {
        lemma_find_from(env, name, 0);
        let longer = env.push((name, value));
        assert forall|i: int, j: int| 0 <= i < j < longer.len() implies longer[i].0 != longer[j].0 by {
            if j < env.len() {
                assert(longer[i] == env[i] && longer[j] == env[j]);
            } else {
                assert(longer[i] == env[i]);
                if env[i].0 == name {
                    assert(0 <= i < env.len() && env[i].0 == name);
                }
            }
        }
    }
}

/// The variables of a run.
pub struct Environment {
    entries: Vec<(String, String)>,
}

impl View for Environment {
    type V = Bindings;

    closed spec fn view(&self) -> Bindings {
        self.entries@.map_values(|pair: (String, String)| (pair.0@, pair.1@))
    }
}

impl Environment {
    /// No name occurs twice.
    pub open spec fn wf(&self) -> bool {
        distinct(self@)
    }

    pub fn new() -> (env: Environment)
        ensures
            env@ == Seq::<(Seq<char>, Seq<char>)>::empty(),
            env.wf(),
    {
        let env = Environment { entries: Vec::new() };
        assert(env@ =~= Seq::<(Seq<char>, Seq<char>)>::empty());
        env
    }

    /// How many names have a value.
    pub fn len(&self) -> (n: usize)
        ensures
            n == self@.len(),
    {
        self.entries.len()
    }

    /// The position of a name among the pairs, if it has a value.
    fn position(&self, name: &str) -> (at: Option<usize>)
        ensures
            match at {
                Some(i) => i < self@.len() && find_from(self@, name@, 0) == Some(self@[i as int].1),
                None => find_from(self@, name@, 0) is None,
            },
    {
        let mut i: usize = 0;
        while i < self.entries.len()
            invariant
                i <= self@.len(),
                self@.len() == self.entries@.len(),
                find_from(self@, name@, 0) == find_from(self@, name@, i as int),
            decreases self@.len() - i,
        {
            let found = {
                let pair = &self.entries[i];
                crate::text::same_text(&pair.0, name)
            };
            if found {
                return Some(i);
            }
            i += 1;
        }
        None
    }

    /// Whether the name has a value.
    pub fn contains(&self, name: &str) -> (b: bool)
        ensures
            b == bound(self@, name@),
    {
        self.position(name).is_some()
    }

    /// The value of a name; the empty text where it has none.
    pub fn lookup(&self, name: &str) -> (value: String)
        ensures
            value@ == lookup(self@, name@),
    {
        match self.position(name) {
            Some(i) => self.entries[i].1.clone(),
            None => String::new(),
        }
    }

    /// Gives a name its value, unless it has one: the first value stays.
    pub fn bind(&mut self, name: String, value: String)
        ensures
            final(self)@ == bind(old(self)@, name@, value@),
            old(self).wf() ==> final(self).wf(),
    {
        proof {
            if distinct(self@) {
                lemma_bind_distinct(self@, name@, value@);
            }
        }
        if !self.contains(name.as_str()) {
            let ghost before = self@;
            self.entries.push((name, value));
            assert(self@ =~= before.push((name@, value@)));
        }
    }

    /// The pairs of name and value, oldest first.
    pub fn entries(&self) -> (pairs: Vec<(String, String)>)
        ensures
            pairs@.map_values(|pair: (String, String)| (pair.0@, pair.1@)) == self@,
    {
        let mut pairs: Vec<(String, String)> = Vec::new();
        let mut i: usize = 0;
        while i < self.entries.len()
            invariant
                i <= self.entries@.len(),
                pairs@.len() == i,
                forall|k: int|
                    0 <= k < i ==> pairs@[k].0@ == self.entries@[k].0@ && pairs@[k].1@
                        == self.entries@[k].1@,
            decreases self.entries@.len() - i,
        {
            let pair = &self.entries[i];
            pairs.push((pair.0.clone(), pair.1.clone()));
            i += 1;
        }
        assert(pairs@.map_values(|pair: (String, String)| (pair.0@, pair.1@)) =~= self@);
        pairs
    }
}

} // verus!
