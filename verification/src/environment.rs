//! The environment: the values bound to variable names.
use vstd::prelude::*;
use vstd::string::StringExecFns;
use crate::error::CarlaeError;
use crate::text::{line_tag, line_tag_string};
use crate::token::Token;

verus! {

/// The message for reading a variable that holds no value.
pub open spec fn msg_undefined(line: nat, name: Seq<char>) -> Seq<char> {
    line_tag(line) + ": Variable `"@ + name + "` is not defined"@
}

/// Variable names and their values: each entry binds a name to a value, and
/// no name occurs twice. The entries are kept in a vector, searched by name,
/// so that the bindings can be stated exactly as a map.
pub struct Environment<V> {
    entries: Vec<(String, V)>,
}

impl<V> Environment<V> {
    /// The bound names, in the order they were first bound.
    pub closed spec fn keys(&self) -> Seq<Seq<char>> {
        self.entries@.map_values(|e: (String, V)| e.0@)
    }

    /// No name is bound twice.
    #[verifier::type_invariant]
    spec fn wf(&self) -> bool {
        forall|i: int, j: int| 0 <= i < j < self.keys().len() ==> self.keys()[i] != self.keys()[j]
    }

    /// The bindings, as a map from names to values.
    pub closed spec fn bindings(&self) -> Map<Seq<char>, V> {
        Map::new(
            |k: Seq<char>| self.keys().contains(k),
            |k: Seq<char>| self.entries@[self.keys().index_of(k)].1,
        )
    }

    proof fn lemma_index(&self, i: int)
        requires
            self.wf(),
            0 <= i < self.keys().len(),
        ensures
            self.keys().contains(self.keys()[i]),
            self.keys().index_of(self.keys()[i]) == i,
            self.bindings()[self.keys()[i]] == self.entries@[i].1,
    {
        let k = self.keys()[i];
        assert(self.keys().contains(k));
        let j = self.keys().index_of(k);
        assert(self.keys()[j] == k);
        if j != i {
            if j < i {
                assert(self.keys()[j] != self.keys()[i]);
            } else {
                assert(self.keys()[i] != self.keys()[j]);
            }
        }
    }

    /// An environment with no bindings.
    pub fn new() -> (res: Self)
        ensures
            res.bindings() == Map::<Seq<char>, V>::empty(),
    {
        let res = Self { entries: Vec::new() };
        assert(res.bindings() =~= Map::<Seq<char>, V>::empty());
        res
    }

    /// The index of `name`, if it is bound.
    fn find(&self, name: &String) -> (r: Option<usize>)
        ensures
            match r {
                Some(i) => i < self.keys().len() && self.keys()[i as int] == name@,
                None => !self.keys().contains(name@),
            },
    {
        let mut i: usize = 0;
        while i < self.entries.len()
            invariant
                i <= self.keys().len(),
                forall|j: int| 0 <= j < i ==> self.keys()[j] != name@,
            decreases self.keys().len() - i,
        {
            if self.entries[i].0 == *name {
                return Some(i);
            }
            i = i + 1;
        }
        assert(!self.keys().contains(name@));
        None
    }

    /// The value bound to the token's text, or an evaluation error naming
    /// the variable and the token's line.
    pub fn get(&self, name: &Token) -> (res: Result<&V, CarlaeError>)
        ensures
            self.bindings().contains_key(name.lexeme@) ==> (res matches Ok(v) && *v == self.bindings()[name.lexeme@]),
            !self.bindings().contains_key(name.lexeme@) ==> (res matches Err(CarlaeError::Evaluation(m))
                && m@ == msg_undefined(name.line as nat, name.lexeme@)),
    {
        proof {
            use_type_invariant(self);
        }
        match self.find(&name.lexeme) {
            Some(i) => {
                proof {
                    self.lemma_index(i as int);
                }
                Ok(&self.entries[i].1)
            },
            None => {
                let mut m = line_tag_string(name.line);
                m.append(": Variable `");
                m.append(name.lexeme.as_str());
                m.append("` is not defined");
                Err(CarlaeError::Evaluation(m))
            },
        }
    }

    /// Binds `name` to `value`, and gives back the value it was bound to before, if any.
    pub fn define(&mut self, name: &String, value: V) -> (res: Option<V>)
        ensures
            final(self).bindings() == old(self).bindings().insert(name@, value),
            old(self).bindings().contains_key(name@) ==> res == Some(old(self).bindings()[name@]),
            !old(self).bindings().contains_key(name@) ==> res is None,
    {
        proof {
            use_type_invariant(&*self);
        }
        match self.find(name) {
            Some(i) => {
                proof {
                    old(self).lemma_index(i as int);
                }
                let mut entries: Vec<(String, V)> = Vec::new();
                std::mem::swap(&mut entries, &mut self.entries);
                let (key, prev) = entries.remove(i);
                entries.insert(i, (key, value));
                assert(entries@.map_values(|e: (String, V)| e.0@) =~= old(self).keys());
                self.entries = entries;
                assert(self.keys() =~= old(self).keys());
                assert(self.entries@ =~= old(self).entries@.update(i as int, (key, value)));
                proof {
                    use_type_invariant(&*self);
                }
                assert forall|k: Seq<char>| #[trigger] self.bindings().contains_key(k) implies
                    self.bindings()[k] == old(self).bindings().insert(name@, value)[k] by {
                    let j = self.keys().index_of(k);
                    assert(self.keys()[j] == k);
                    self.lemma_index(j);
                    old(self).lemma_index(j);
                }
                assert(self.bindings() =~= old(self).bindings().insert(name@, value));
                Some(prev)
            },
            None => {
                let ghost old_keys = self.keys();
                let mut entries: Vec<(String, V)> = Vec::new();
                std::mem::swap(&mut entries, &mut self.entries);
                entries.push((name.clone(), value));
                assert(entries@.map_values(|e: (String, V)| e.0@) =~= old_keys.push(name@));
                assert forall|i: int, j: int| 0 <= i < j < old_keys.len() + 1 implies
                    #[trigger] old_keys.push(name@)[i] != #[trigger] old_keys.push(name@)[j] by {
                    if j == old_keys.len() {
                        assert(old_keys.contains(old_keys[i]));
                    }
                }
                self.entries = entries;
                assert(self.keys() =~= old_keys.push(name@));
                proof {
                    use_type_invariant(&*self);
                }
                assert forall|k: Seq<char>| #[trigger] self.bindings().contains_key(k) implies
                    self.bindings()[k] == old(self).bindings().insert(name@, value)[k] by {
                    let j = self.keys().index_of(k);
                    assert(self.keys()[j] == k);
                    self.lemma_index(j);
                    if j < old_keys.len() {
                        old(self).lemma_index(j);
                    }
                }
                assert forall|k: Seq<char>| #[trigger] old(self).bindings().insert(name@, value).contains_key(k) implies
                    self.bindings().contains_key(k) by {
                    if k != name@ {
                        let j = old_keys.index_of(k);
                        assert(old_keys[j] == k);
                        assert(self.keys()[j] == k);
                    } else {
                        assert(self.keys()[old_keys.len() as int] == k);
                    }
                }
                assert(self.bindings() =~= old(self).bindings().insert(name@, value));
                None
            },
        }
    }
}

/// A read after a write gives back what the write wrote, and a write leaves
/// every other name as it was: after `define(name, value)`, `get` of `name`
/// gives `value`, and `get` of any other name gives what it gave before.
pub proof fn law_read_after_write<V>(before: &Environment<V>, after: &Environment<V>, name: Seq<char>, value: V, other: Seq<char>)
    requires
        after.bindings() == before.bindings().insert(name, value),
    ensures
        after.bindings().contains_key(name),
        after.bindings()[name] == value,
        other != name ==> after.bindings().contains_key(other) == before.bindings().contains_key(other),
        other != name && before.bindings().contains_key(other) ==> after.bindings()[other] == before.bindings()[other],
{
}

} // verus!
