//! Interning of names, with aliases.
//!
//! Every name is either canonical or an alias of a canonical name, and
//! keeps that kind once registered. A canonical name is identified by its
//! dense index: the `n`-th canonical name registered gets the index `n`.
use vstd::prelude::*;

verus! {

/// Error on [`InternStore`] operations.
#[derive(Debug, PartialEq, Eq, Clone, Copy)]
pub enum InternError {
    /// The given alias is already registered as canonical.
    AlreadyCanonical,
    /// The given canonical is already registered as an alias.
    AlreadyAlias,
}

impl InternError {
    /// Message of the error.
    pub fn message(&self) -> (r: &'static str)
        ensures
            r@ == match self {
                InternError::AlreadyCanonical => "given alias is already registered as canonical"@,
                InternError::AlreadyAlias => "given canonical is already registered as an alias"@,
            },
    {
        match self {
            InternError::AlreadyCanonical => "given alias is already registered as canonical",
            InternError::AlreadyAlias => "given canonical is already registered as an alias",
        }
    }
}

/// Stored value in [`InternStore`].
#[derive(Debug, PartialEq, Eq, Clone)]
pub enum StoredValue<T> {
    /// Canonical value.
    Canonical(T),
    /// Alias pointing to the canonical.
    Alias { alias: String, canonical: T },
}

impl<T: Copy> StoredValue<T> {
    /// Returns the canonical value, of the canonical itself or of the alias.
    pub fn as_canonical(&self) -> (r: T)
        ensures
            r == match self {
                StoredValue::Canonical(x) => *x,
                StoredValue::Alias { canonical, .. } => *canonical,
            },
    {
        match self {
            StoredValue::Canonical(x) => *x,
            StoredValue::Alias { canonical, .. } => *canonical,
        }
    }
}

/// Abstract content of an [`InternStore`]: the canonical names by index, and the aliases.
pub struct InternView {
    pub names: Seq<Seq<char>>,
    pub aliases: Seq<(Seq<char>, nat)>,
}

impl InternView {
    /// Names are registered at most once, either as canonical or as alias,
    /// and each alias points to a canonical name.
    pub open spec fn wf(self) -> bool {
        &&& forall|i: int, j: int|
            0 <= i < j < self.names.len() ==> #[trigger] self.names[i] != #[trigger] self.names[j]
        &&& forall|i: int, j: int|
            0 <= i < j < self.aliases.len() ==> #[trigger] self.aliases[i].0
                != #[trigger] self.aliases[j].0
        &&& forall|i: int, j: int|
            0 <= i < self.names.len() && 0 <= j < self.aliases.len() ==> #[trigger] self.names[i]
                != #[trigger] self.aliases[j].0
        &&& forall|j: int| 0 <= j < self.aliases.len() ==> #[trigger] self.aliases[j].1 < self.names.len()
    }

    /// `s` is registered as canonical.
    pub open spec fn is_canonical(self, s: Seq<char>) -> bool {
        exists|i: int| 0 <= i < self.names.len() && self.names[i] == s
    }

    /// `s` is registered as alias.
    pub open spec fn is_alias(self, s: Seq<char>) -> bool {
        exists|j: int| 0 <= j < self.aliases.len() && self.aliases[j].0 == s
    }

    /// Index of the canonical name `s`.
    pub open spec fn canonical_index(self, s: Seq<char>) -> int {
        choose|i: int| 0 <= i < self.names.len() && self.names[i] == s
    }

    /// Canonical index the alias `s` points to.
    pub open spec fn alias_target(self, s: Seq<char>) -> nat {
        self.aliases[choose|j: int| 0 <= j < self.aliases.len() && self.aliases[j].0 == s].1
    }

    /// Every name registered in `self` resolves to the same index in `other`.
    pub open spec fn extended_by(self, other: InternView) -> bool {
        forall|s: Seq<char>| self.resolve(s) is Some ==> #[trigger] other.resolve(s) == self.resolve(s)
    }

    /// Canonical index that `s` resolves to, if registered.
    pub open spec fn resolve(self, s: Seq<char>) -> Option<nat> {
        if self.is_canonical(s) {
            Some(self.canonical_index(s) as nat)
        } else if self.is_alias(s) {
            Some(self.alias_target(s))
        } else {
            None
        }
    }
}

/// A registered name resolves to a canonical index.
pub proof fn lemma_resolve_bound(v: InternView, s: Seq<char>)
    requires
        v.wf(),
    ensures
        v.resolve(s) matches Some(n) ==> n < v.names.len(),
{
    if v.is_canonical(s) {
        let i = v.canonical_index(s);
        assert(0 <= i < v.names.len());
    } else if v.is_alias(s) {
        let j = choose|j: int| 0 <= j < v.aliases.len() && v.aliases[j].0 == s;
        assert(v.aliases[j].1 < v.names.len());
    }
}

/// After a name is registered as canonical (appended, or already there), the canonical
/// names are those before and the name.
pub proof fn lemma_canonical_after(v: InternView, w: InternView, value: Seq<char>)
    requires
        w.names == v.names.push(value) || (w.names == v.names && v.is_canonical(value)),
    ensures
        forall|s: Seq<char>| #[trigger] w.is_canonical(s) <==> (v.is_canonical(s) || s == value),
{
    assert forall|s: Seq<char>| #[trigger] w.is_canonical(s) <==> (v.is_canonical(s) || s == value) by {
        if v.is_canonical(s) {
            let i = choose|i: int| 0 <= i < v.names.len() && v.names[i] == s;
            assert(w.names[i] == s);
        }
        if s == value && w.names == v.names.push(value) {
            assert(w.names[v.names.len() as int] == s);
        }
        if w.is_canonical(s) {
            let i = choose|i: int| 0 <= i < w.names.len() && w.names[i] == s;
            if i < v.names.len() {
                assert(v.names[i] == s);
            }
        }
    }
}

/// Two stores with the same canonical names agree on which names are canonical.
pub proof fn lemma_same_canonical(v: InternView, w: InternView)
    requires
        w.names == v.names,
    ensures
        forall|s: Seq<char>| #[trigger] w.is_canonical(s) <==> v.is_canonical(s),
{
    assert forall|s: Seq<char>| #[trigger] w.is_canonical(s) <==> v.is_canonical(s) by {
        if v.is_canonical(s) {
            let i = choose|i: int| 0 <= i < v.names.len() && v.names[i] == s;
            assert(w.names[i] == s);
        }
        if w.is_canonical(s) {
            let i = choose|i: int| 0 <= i < w.names.len() && w.names[i] == s;
            assert(v.names[i] == s);
        }
    }
}

/// Extending a store twice extends it.
pub proof fn lemma_extended_trans(a: InternView, b: InternView, c: InternView)
    requires
        a.extended_by(b),
        b.extended_by(c),
    ensures
        a.extended_by(c),
{
    assert forall|s: Seq<char>| a.resolve(s) is Some implies #[trigger] c.resolve(s) == a.resolve(s) by {
        assert(b.resolve(s) == a.resolve(s));
    }
}

/// After an alias is registered (appended, or already there), the aliases are those before
/// and the new one.
pub proof fn lemma_alias_after(v: InternView, w: InternView, t: Seq<char>, c: nat)
    requires
        w.aliases == v.aliases.push((t, c)) || (w.aliases == v.aliases && v.is_alias(t)),
    ensures
        forall|s: Seq<char>| #[trigger] w.is_alias(s) <==> (v.is_alias(s) || s == t),
{
    assert forall|s: Seq<char>| #[trigger] w.is_alias(s) <==> (v.is_alias(s) || s == t) by {
        if v.is_alias(s) {
            let j = choose|j: int| 0 <= j < v.aliases.len() && v.aliases[j].0 == s;
            assert(w.aliases[j].0 == s);
        }
        if s == t && w.aliases == v.aliases.push((t, c)) {
            assert(w.aliases[v.aliases.len() as int].0 == s);
        }
        if w.is_alias(s) {
            let j = choose|j: int| 0 <= j < w.aliases.len() && w.aliases[j].0 == s;
            if j < v.aliases.len() {
                assert(v.aliases[j].0 == s);
            }
        }
    }
}

/// Two stores with the same aliases agree on which names are aliases.
pub proof fn lemma_same_alias(v: InternView, w: InternView)
    requires
        w.aliases == v.aliases,
    ensures
        forall|s: Seq<char>| #[trigger] w.is_alias(s) <==> v.is_alias(s),
{
    assert forall|s: Seq<char>| #[trigger] w.is_alias(s) <==> v.is_alias(s) by {
        if v.is_alias(s) {
            let j = choose|j: int| 0 <= j < v.aliases.len() && v.aliases[j].0 == s;
            assert(w.aliases[j].0 == s);
        }
        if w.is_alias(s) {
            let j = choose|j: int| 0 <= j < w.aliases.len() && w.aliases[j].0 == s;
            assert(v.aliases[j].0 == s);
        }
    }
}

/// The store after ensuring `s`, and the index `s` resolves to: unchanged when it is
/// registered, else `s` appended as a canonical name.
pub open spec fn ensured(v: InternView, s: Seq<char>) -> (InternView, nat) {
    match v.resolve(s) {
        Some(n) => (v, n),
        None => (InternView { names: v.names.push(s), aliases: v.aliases }, v.names.len()),
    }
}

/// Ensuring two different names, neither of them an alias, gives two different indices.
pub proof fn law_ensure_distinct(v: InternView, s1: Seq<char>, s2: Seq<char>)
    requires
        v.wf(),
        s1 != s2,
        !v.is_alias(s1),
        !v.is_alias(s2),
    ensures
        ensured(v, s1).1 != ensured(ensured(v, s1).0, s2).1,
{
    let (v1, n1) = ensured(v, s1);
    assert(v1.names[n1 as int] == s1 && n1 < v1.names.len()) by {
        if v.is_canonical(s1) {
            let i = v.canonical_index(s1);
            assert(v.names[i] == s1);
        } else {
            assert(v.resolve(s1) is None);
        }
    }
    assert(!v1.is_alias(s2)) by {
        if v1.is_alias(s2) {
            let j = choose|j: int| 0 <= j < v1.aliases.len() && v1.aliases[j].0 == s2;
            assert(v.aliases[j].0 == s2);
        }
    }
    if v1.is_canonical(s2) {
        let j = v1.canonical_index(s2);
        assert(v1.names[j] == s2);
    }
}

/// Registering a new canonical name keeps what the other names resolve to.
proof fn lemma_push_extends(v: InternView, w: InternView, value: Seq<char>)
    requires
        v.wf(),
        w.wf(),
        v.resolve(value) is None,
        w.names == v.names.push(value),
        w.aliases == v.aliases,
    ensures
        v.extended_by(w),
{
    assert forall|s: Seq<char>| v.resolve(s) is Some implies #[trigger] w.resolve(s) == v.resolve(s) by {
        if v.is_canonical(s) {
            let i = v.canonical_index(s);
            assert(w.names[i] == s);
            assert(w.is_canonical(s));
            let k = w.canonical_index(s);
            if k != i {
                assert(w.names[k] != w.names[i]);
            }
        } else {
            assert(v.is_alias(s));
            let j = choose|j: int| 0 <= j < v.aliases.len() && v.aliases[j].0 == s;
            assert(w.aliases[j].0 == s);
            if w.is_canonical(s) {
                let k = w.canonical_index(s);
                if k < v.names.len() {
                    assert(v.names[k] == s);
                    assert(v.is_canonical(s));
                } else {
                    assert(s == value);
                }
            }
            assert(w.is_alias(s));
        }
    }
}

/// Interned names with aliases.
pub struct InternStore {
    names: Vec<String>,
    aliases: Vec<(String, usize)>,
}

impl View for InternStore {
    type V = InternView;

    closed spec fn view(&self) -> InternView {
        InternView {
            names: self.names@.map_values(|s: String| s@),
            aliases: self.aliases@.map_values(|a: (String, usize)| (a.0@, a.1 as nat)),
        }
    }
}

impl InternStore {
    #[verifier::type_invariant]
    spec fn inv(self) -> bool {
        self@.wf()
    }

    /// The store always satisfies [`InternView::wf`].
    pub fn check_wf(&self)
        ensures
            self@.wf(),
    {
        proof {
            use_type_invariant(self);
        }
    }

    /// Creates an empty store.
    pub fn new() -> (r: Self)
        ensures
            r@.names.len() == 0,
            r@.aliases.len() == 0,
    {
        let r = InternStore { names: Vec::new(), aliases: Vec::new() };
        assert(r@.names =~= Seq::<Seq<char>>::empty());
        assert(r@.aliases =~= Seq::<(Seq<char>, nat)>::empty());
        r
    }

    /// Number of canonical names.
    pub fn len(&self) -> (r: usize)
        ensures
            r == self@.names.len(),
    {
        self.names.len()
    }

    /// Name of the canonical index `i`, if registered.
    pub fn name(&self, i: usize) -> (r: Option<&String>)
        ensures
            r is Some <==> i < self@.names.len(),
            r matches Some(s) ==> s@ == self@.names[i as int],
    {
        if i < self.names.len() {
            Some(&self.names[i])
        } else {
            None
        }
    }

    fn find_canonical(&self, value: &String) -> (r: Option<usize>)
        ensures
            r is Some <==> self@.is_canonical(value@),
            r matches Some(i) ==> i < self@.names.len() && self@.names[i as int] == value@
                && i == self@.canonical_index(value@),
    {
        proof {
            use_type_invariant(self);
        }
        let mut i: usize = 0;
        while i < self.names.len()
            invariant
                i <= self.names.len(),
                self@.wf(),
                forall|k: int| 0 <= k < i ==> self@.names[k] != value@,
            decreases self.names.len() - i,
        {
            assert(self@.names[i as int] == self.names@[i as int]@);
            if self.names[i] == *value {
                let ghost k = self@.canonical_index(value@);
                assert(self@.names[i as int] == value@);
                assert(k == i) by {
                    if k != i {
                        if k < i {
                            assert(self@.names[k] != self@.names[i as int]);
                        } else {
                            assert(self@.names[i as int] != self@.names[k]);
                        }
                    }
                }
                return Some(i);
            }
            i = i + 1;
        }
        None
    }

    fn find_alias(&self, value: &String) -> (r: Option<usize>)
        ensures
            r is Some <==> self@.is_alias(value@),
            r matches Some(j) ==> j < self@.aliases.len() && self@.aliases[j as int].0 == value@
                && self@.aliases[j as int].1 == self@.alias_target(value@),
    {
        proof {
            use_type_invariant(self);
        }
        let mut j: usize = 0;
        while j < self.aliases.len()
            invariant
                j <= self.aliases.len(),
                self@.wf(),
                forall|k: int| 0 <= k < j ==> self@.aliases[k].0 != value@,
            decreases self.aliases.len() - j,
        {
            assert(self@.aliases[j as int].0 == self.aliases@[j as int].0@);
            if self.aliases[j].0 == *value {
                let ghost k = choose|k: int|
                    0 <= k < self@.aliases.len() && self@.aliases[k].0 == value@;
                assert(self@.aliases[j as int].0 == value@);
                assert(k == j) by {
                    if k != j {
                        if k < j {
                            assert(self@.aliases[k].0 != self@.aliases[j as int].0);
                        } else {
                            assert(self@.aliases[j as int].0 != self@.aliases[k].0);
                        }
                    }
                }
                return Some(j);
            }
            j = j + 1;
        }
        None
    }

    /// Looks up `value`, as canonical or as alias.
    pub fn get(&self, value: &str) -> (r: Option<StoredValue<usize>>)
        ensures
            self@.is_canonical(value@) ==> r == Some(
                StoredValue::Canonical(self@.canonical_index(value@) as usize),
            ),
            !self@.is_canonical(value@) && self@.is_alias(value@) ==> (r matches Some(
                StoredValue::Alias { alias, canonical },
            ) && alias@ == value@ && canonical == self@.alias_target(value@)),
            !self@.is_canonical(value@) && !self@.is_alias(value@) ==> r is None,
    {
        let v = value.to_owned();
        match self.find_canonical(&v) {
            Some(i) => Some(StoredValue::Canonical(i)),
            None => match self.find_alias(&v) {
                Some(j) => Some(StoredValue::Alias { alias: v, canonical: self.aliases[j].1 }),
                None => None,
            },
        }
    }

    /// Returns the canonical index that `value` resolves to, if registered.
    pub fn resolve(&self, value: &str) -> (r: Option<usize>)
        ensures
            r == match self@.resolve(value@) {
                Some(n) => Some(n as usize),
                None => None::<usize>,
            },
            r matches Some(i) ==> self@.resolve(value@) == Some(i as nat) && i < self@.names.len(),
    {
        proof {
            use_type_invariant(self);
            assert(self@.names.len() == self.names@.len());
            if self@.is_canonical(value@) {
                let i = self@.canonical_index(value@);
                assert(0 <= i < self@.names.len());
            } else if self@.is_alias(value@) {
                let j = choose|j: int| 0 <= j < self@.aliases.len() && self@.aliases[j].0 == value@;
                assert(self@.aliases[j].1 < self@.names.len());
            }
        }
        let v = value.to_owned();
        match self.find_canonical(&v) {
            Some(i) => Some(i),
            None => match self.find_alias(&v) {
                Some(j) => Some(self.aliases[j].1),
                None => None,
            },
        }
    }

    /// Registers the unregistered `value`, as canonical or as alias of `canonical`.
    fn insert(&mut self, value: &str, canonical: Option<usize>) -> (r: usize)
        requires
            old(self)@.resolve(value@) is None,
            canonical matches Some(c) ==> c < old(self)@.names.len(),
        ensures
            canonical is None ==> final(self)@.names == old(self)@.names.push(value@)
                && final(self)@.aliases == old(self)@.aliases && r == old(self)@.names.len(),
            canonical matches Some(c) ==> final(self)@.names == old(self)@.names
                && final(self)@.aliases == old(self)@.aliases.push((value@, c as nat)) && r == c,
    {
        proof {
            use_type_invariant(&*self);
        }
        let ghost prev = self@;
        let v = value.to_owned();
        let mut aliases: Vec<(String, usize)> = Vec::new();
        let mut names: Vec<String> = Vec::new();
        std::mem::swap(&mut aliases, &mut self.aliases);
        std::mem::swap(&mut names, &mut self.names);
        let r = match canonical {
            None => {
                let n = names.len();
                names.push(v);
                n
            },
            Some(c) => {
                aliases.push((v, c));
                c
            },
        };
        let ghost new_view = InternView {
            names: names@.map_values(|s: String| s@),
            aliases: aliases@.map_values(|a: (String, usize)| (a.0@, a.1 as nat)),
        };
        proof {
            match canonical {
                None => {
                    assert(new_view.names =~= prev.names.push(value@));
                    assert(new_view.aliases =~= prev.aliases);
                },
                Some(c) => {
                    assert(new_view.names =~= prev.names);
                    assert(new_view.aliases =~= prev.aliases.push((value@, c as nat)));
                },
            }
            assert(new_view.wf());
        }
        std::mem::swap(&mut names, &mut self.names);
        std::mem::swap(&mut aliases, &mut self.aliases);
        r
    }

    /// Returns the canonical index of `value`, registering it as canonical if unknown.
    pub fn ensure(&mut self, value: &str) -> (r: usize)
        ensures
            final(self)@.resolve(value@) == Some(r as nat),
            old(self)@.resolve(value@) matches Some(n) ==> r == n && final(self)@ == old(self)@,
            old(self)@.resolve(value@) is None ==> final(self)@.names == old(self)@.names.push(
                value@,
            ) && final(self)@.aliases == old(self)@.aliases && r == old(self)@.names.len(),
            old(self)@.extended_by(final(self)@),
            (final(self)@, r as nat) == ensured(old(self)@, value@),
    {
        proof {
            use_type_invariant(&*self);
        }
        let count = self.names.len();
        match self.resolve(value) {
            Some(found) => {
                proof {
                    assert(self@.names.len() == self.names@.len());
                    if self@.is_canonical(value@) {
                        let i = self@.canonical_index(value@);
                        assert(0 <= i < self@.names.len());
                    } else {
                        let j = choose|j: int|
                            0 <= j < self@.aliases.len() && self@.aliases[j].0 == value@;
                        assert(self@.aliases[j].1 < self@.names.len());
                    }
                    let n = self@.resolve(value@).unwrap();
                    assert(n < self@.names.len());
                    assert(n < count);
                    assert(found == n as usize);
                }
                found
            },
            None => {
                let ghost prev = self@;
                let r = self.insert(value, None);
                proof {
                    use_type_invariant(&*self);
                    lemma_push_extends(prev, self@, value@);
                    let n = prev.names.len() as int;
                    assert(self@.names[n] == value@);
                    assert(self@.is_canonical(value@));
                    let k = self@.canonical_index(value@);
                    assert(k == n) by {
                        if k != n {
                            assert(self@.names[k] != self@.names[n]);
                        }
                    }
                    assert(self@.resolve(value@) == Some(r as nat));
                }
                r
            },
        }
    }

    /// Registers `value` as canonical, unless it is an alias.
    pub fn insert_canonical(&mut self, value: &str) -> (r: Result<usize, InternError>)
        ensures
            old(self)@.is_canonical(value@) ==> r == Ok::<usize, InternError>(
                old(self)@.canonical_index(value@) as usize,
            ) && final(self)@ == old(self)@,
            !old(self)@.is_canonical(value@) && old(self)@.is_alias(value@) ==> r == Err::<
                usize,
                InternError,
            >(InternError::AlreadyAlias) && final(self)@ == old(self)@,
            !old(self)@.is_canonical(value@) && !old(self)@.is_alias(value@) ==> r == Ok::<
                usize,
                InternError,
            >(old(self)@.names.len() as usize) && final(self)@.names == old(self)@.names.push(
                value@,
            ) && final(self)@.aliases == old(self)@.aliases,
            r matches Ok(i) ==> final(self)@.resolve(value@) == Some(i as nat),
    {
        proof {
            use_type_invariant(&*self);
        }
        let count = self.names.len();
        match self.get(value) {
            None => {
                let ghost prev = self@;
                let r = self.insert(value, None);
                proof {
                    use_type_invariant(&*self);
                    lemma_push_extends(prev, self@, value@);
                    let n = prev.names.len() as int;
                    assert(self@.names[n] == value@);
                    let k = self@.canonical_index(value@);
                    assert(k == n) by {
                        if k != n {
                            assert(self@.names[k] != self@.names[n]);
                        }
                    }
                }
                Ok(r)
            },
            Some(StoredValue::Canonical(found)) => {
                proof {
                    let k = self@.canonical_index(value@);
                    assert(0 <= k < count);
                }
                Ok(found)
            },
            Some(StoredValue::Alias { .. }) => Err(InternError::AlreadyAlias),
        }
    }

    /// Registers `value` as an alias of `canonical`, unless it is canonical.
    /// An existing alias is kept as it is.
    pub fn insert_alias(&mut self, value: &str, canonical: usize) -> (r: Result<(), InternError>)
        requires
            canonical < old(self)@.names.len(),
        ensures
            old(self)@.is_canonical(value@) ==> r == Err::<(), InternError>(
                InternError::AlreadyCanonical,
            ) && final(self)@ == old(self)@,
            !old(self)@.is_canonical(value@) && old(self)@.is_alias(value@) ==> r == Ok::<
                (),
                InternError,
            >(()) && final(self)@ == old(self)@,
            !old(self)@.is_canonical(value@) && !old(self)@.is_alias(value@) ==> r == Ok::<
                (),
                InternError,
            >(()) && final(self)@.names == old(self)@.names && final(self)@.aliases == old(
                self,
            )@.aliases.push((value@, canonical as nat)),
    {
        match self.get(value) {
            Some(StoredValue::Canonical(_)) => Err(InternError::AlreadyCanonical),
            Some(StoredValue::Alias { .. }) => Ok(()),
            None => {
                self.insert(value, Some(canonical));
                Ok(())
            },
        }
    }

    /// All registered names: the canonical ones in index order, then the aliases.
    pub fn iter(&self) -> (r: Vec<StoredValue<usize>>)
        ensures
            r.len() == self@.names.len() + self@.aliases.len(),
            forall|i: int|
                0 <= i < self@.names.len() ==> r[i] == StoredValue::Canonical(i as usize),
            forall|j: int|
                0 <= j < self@.aliases.len() ==> ((#[trigger] r[self@.names.len() + j]) matches StoredValue::Alias {
                    alias,
                    canonical,
                } && alias@ == self@.aliases[j].0 && canonical == self@.aliases[j].1),
    {
        let mut r: Vec<StoredValue<usize>> = Vec::new();
        let mut i: usize = 0;
        while i < self.names.len()
            invariant
                i <= self.names.len(),
                r.len() == i,
                forall|k: int| 0 <= k < i ==> r[k] == StoredValue::Canonical(k as usize),
            decreases self.names.len() - i,
        {
            r.push(StoredValue::Canonical(i));
            i = i + 1;
        }
        let mut j: usize = 0;
        while j < self.aliases.len()
            invariant
                j <= self.aliases.len(),
                r.len() == self.names.len() + j,
                forall|k: int| 0 <= k < self.names.len() ==> r[k] == StoredValue::Canonical(k as usize),
                forall|k: int|
                    0 <= k < j ==> ((#[trigger] r[self.names.len() + k]) matches StoredValue::Alias {
                        alias,
                        canonical,
                    } && alias@ == self@.aliases[k].0 && canonical == self@.aliases[k].1),
            decreases self.aliases.len() - j,
        {
            let a = self.aliases[j].0.clone();
            r.push(StoredValue::Alias { alias: a, canonical: self.aliases[j].1 });
            j = j + 1;
        }
        r
    }
    /// A cursor over the registered names, see [`Iter`].
    pub fn values(&self) -> (r: Iter<'_>)
        ensures
            r.store() == self@,
            r.position() == 0,
    {
        Iter { store: self, name_pos: 0, alias_pos: 0 }
    }
}

/// Cursor over the names of a store: the canonical ones in index order, then the aliases.
pub struct Iter<'a> {
    store: &'a InternStore,
    name_pos: usize,
    alias_pos: usize,
}

impl<'a> Iter<'a> {
    #[verifier::type_invariant]
    spec fn inv(self) -> bool {
        &&& self.name_pos <= self.store.names@.len()
        &&& self.alias_pos <= self.store.aliases@.len()
        &&& self.alias_pos > 0 ==> self.name_pos == self.store.names@.len()
    }

    /// The content of the store.
    pub closed spec fn store(&self) -> InternView {
        self.store@
    }

    /// How many names the cursor gave.
    pub closed spec fn position(&self) -> nat {
        (self.name_pos + self.alias_pos) as nat
    }

    /// The next name: the canonical name at the position while there is one, then the alias
    /// after the canonical names; `None` at the end.
    pub fn next(&mut self) -> (r: Option<StoredValue<usize>>)
        ensures
            final(self).store() == old(self).store(),
            old(self).position() < old(self).store().names.len() ==> r == Some(
                StoredValue::Canonical(old(self).position() as usize),
            ) && final(self).position() == old(self).position() + 1,
            old(self).store().names.len() <= old(self).position() < old(self).store().names.len() + old(
                self,
            ).store().aliases.len() ==> (r matches Some(StoredValue::Alias { alias, canonical }) && alias@ == old(
                self,
            ).store().aliases[old(self).position() - old(self).store().names.len()].0 && canonical == old(
                self,
            ).store().aliases[old(self).position() - old(self).store().names.len()].1) && final(self).position()
                == old(self).position() + 1,
            old(self).position() >= old(self).store().names.len() + old(self).store().aliases.len() ==> r is None
                && final(self).position() == old(self).position(),
    {
        proof {
            use_type_invariant(&*self);
        }
        if self.name_pos < self.store.names.len() {
            let i = self.name_pos;
            self.name_pos = i + 1;
            Some(StoredValue::Canonical(i))
        } else if self.alias_pos < self.store.aliases.len() {
            let j = self.alias_pos;
            let alias = self.store.aliases[j].0.clone();
            let canonical = self.store.aliases[j].1;
            self.alias_pos = j + 1;
            Some(StoredValue::Alias { alias, canonical })
        } else {
            None
        }
    }
}

} // verus!
