//! Configuration with per-key overrides of a base value.
use vstd::prelude::*;

verus! {

/// Index of the last override of the key, if any.
pub open spec fn last_override<V>(overrides: Seq<(String, V)>, key: Seq<char>) -> Option<int>
    decreases overrides.len(),
{
    if overrides.len() == 0 {
        None
    } else if overrides.last().0@ == key {
        Some(overrides.len() - 1)
    } else {
        last_override(overrides.drop_last(), key)
    }
}

/// The last override of the key holds the key.
pub proof fn lemma_last_override<V>(overrides: Seq<(String, V)>, key: Seq<char>)
    ensures
        last_override(overrides, key) matches Some(i) ==> 0 <= i < overrides.len() && overrides[i].0@
            == key,
    decreases overrides.len(),
{
    if overrides.len() > 0 && overrides.last().0@ != key {
        lemma_last_override(overrides.drop_last(), key);
    }
}

/// Base configuration value with per-key overrides; the last override of a key counts.
#[derive(Debug)]
pub struct ConfigResolver<V> {
    pub base: V,
    pub overrides: Vec<(String, V)>,
}

impl<V> ConfigResolver<V> {
    /// Resolver of the base value and the overrides.
    pub fn new(base: V, overrides: Vec<(String, V)>) -> (r: Self)
        ensures
            r.base == base,
            r.overrides == overrides,
    {
        ConfigResolver { base, overrides }
    }

    /// The override of the key, if any.
    fn find(&self, key: &str) -> (r: Option<usize>)
        ensures
            match last_override(self.overrides@, key@) {
                Some(i) => r == Some(i as usize),
                None => r is None,
            },
            r matches Some(j) ==> j < self.overrides@.len() && self.overrides@[j as int].0@ == key@
                && last_override(self.overrides@, key@) == Some(j as int),
    {
        proof {
            lemma_last_override(self.overrides@, key@);
        }
        let mut i = self.overrides.len();
        assert(self.overrides@.subrange(0, i as int) =~= self.overrides@);
        while i > 0
            invariant
                i <= self.overrides@.len(),
                last_override(self.overrides@, key@) == last_override(self.overrides@.subrange(0, i as int), key@),
            decreases i,
        {
            let ghost pre = self.overrides@.subrange(0, i as int);
            assert(pre.drop_last() =~= self.overrides@.subrange(0, i - 1));
            if crate::text::str_eq(self.overrides[i - 1].0.as_str(), key) {
                return Some(i - 1);
            }
            i = i - 1;
        }
        None
    }

    /// `field` of the override of the key, or of the base value.
    pub fn get<Out, F: Fn(&V) -> Out>(&self, key: &str, field: F) -> (r: Out)
        requires
            forall|v: &V| field.requires((v,)),
        ensures
            match last_override(self.overrides@, key@) {
                Some(i) => field.ensures((&self.overrides@[i].1,), r),
                None => field.ensures((&self.base,), r),
            },
    {
        proof {
            lemma_last_override(self.overrides@, key@);
        }
        match self.find(key) {
            None => field(&self.base),
            Some(i) => {
                let v = &self.overrides[i].1;
                assert(last_override(self.overrides@, key@) == Some(i as int));
                assert(*v == self.overrides@[i as int].1);
                field(v)
            },
        }
    }

    /// `field` of the override of the key, falling back to `field` of the base value when it
    /// gives `None` or when the key has no override.
    pub fn get_opt<Out, F: Fn(&V) -> Option<Out>>(&self, key: &str, field: F) -> (r: Option<Out>)
        requires
            forall|v: &V| field.requires((v,)),
        ensures
            match last_override(self.overrides@, key@) {
                Some(i) => (exists|x: Option<Out>| field.ensures((&self.overrides@[i].1,), x) && (
                x is Some ==> r == x) && (x is None ==> field.ensures((&self.base,), r))),
                None => field.ensures((&self.base,), r),
            },
    {
        proof {
            lemma_last_override(self.overrides@, key@);
        }
        match self.find(key) {
            None => field(&self.base),
            Some(i) => match {
                assert(last_override(self.overrides@, key@) == Some(i as int));
                field(&self.overrides[i].1)
            } {
                Some(x) => Some(x),
                None => field(&self.base),
            },
        }
    }
}

} // verus!
