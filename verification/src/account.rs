//! Accounts, interned into dense indices.
use crate::intern::{InternError, InternStore, InternView, StoredValue};
use vstd::prelude::*;

verus! {

/// Interned account: the index of its canonical name.
#[derive(Debug, PartialEq, Eq, Structural, Clone, Copy, Hash, PartialOrd, Ord)]
pub struct Account(pub usize);

impl Account {
    /// Returns the index.
    pub fn as_index(&self) -> (r: usize)
        ensures
            r == self.0,
    {
        self.0
    }

    /// Returns the name of the account in the `store`, or the empty string if unknown.
    pub fn as_str<'a>(&self, store: &'a AccountStore) -> (r: &'a str)
        ensures
            self.0 < store@.names.len() ==> r@ == store@.names[self.0 as int],
            self.0 >= store@.names.len() ==> r@ == Seq::<char>::empty(),
    {
        match store.name(*self) {
            Some(s) => s.as_str(),
            None => {
                proof {
                    reveal_strlit("");
                }
                ""
            },
        }
    }
}

/// Manages [`Account`] instances.
pub struct AccountStore {
    intern: InternStore,
}

impl View for AccountStore {
    type V = InternView;

    closed spec fn view(&self) -> InternView {
        self.intern@
    }
}

impl AccountStore {
    /// Creates an empty store.
    pub fn new() -> (r: Self)
        ensures
            r@.names.len() == 0,
            r@.aliases.len() == 0,
    {
        AccountStore { intern: InternStore::new() }
    }

    /// The store always satisfies [`InternView::wf`].
    pub fn check_wf(&self)
        ensures
            self@.wf(),
    {
        self.intern.check_wf();
    }

    /// Returns the account of `value`, resolving the alias, and registers
    /// `value` as canonical if unknown.
    pub fn ensure(&mut self, value: &str) -> (r: Account)
        ensures
            final(self)@.resolve(value@) == Some(r.0 as nat),
            old(self)@.resolve(value@) matches Some(n) ==> r.0 == n && final(self)@ == old(self)@,
            old(self)@.resolve(value@) is None ==> final(self)@.names == old(self)@.names.push(
                value@,
            ) && final(self)@.aliases == old(self)@.aliases && r.0 == old(self)@.names.len(),
            old(self)@.extended_by(final(self)@),
    {
        Account(self.intern.ensure(value))
    }

    /// Returns the account of `value` if and only if it's registered.
    pub fn resolve(&self, value: &str) -> (r: Option<Account>)
        ensures
            r == match self@.resolve(value@) {
                Some(n) => Some(Account(n as usize)),
                None => None::<Account>,
            },
            r matches Some(a) ==> self@.resolve(value@) == Some(a.0 as nat),
    {
        match self.intern.resolve(value) {
            Some(i) => Some(Account(i)),
            None => None,
        }
    }

    /// Registers `value` as canonical, unless it is an alias.
    pub fn insert_canonical(&mut self, value: &str) -> (r: Result<Account, InternError>)
        ensures
            match r {
                Ok(a) => final(self)@.resolve(value@) == Some(a.0 as nat),
                Err(e) => e == InternError::AlreadyAlias && final(self)@ == old(self)@
                    && !old(self)@.is_canonical(value@) && old(self)@.is_alias(value@),
            },
            !old(self)@.is_canonical(value@) && old(self)@.is_alias(value@) ==> r is Err,
            r matches Ok(a) ==> a.0 < final(self)@.names.len(),
            r is Ok ==> final(self)@.aliases == old(self)@.aliases,
            r is Ok ==> forall|s: Seq<char>|
                #[trigger] final(self)@.is_canonical(s) <==> (old(self)@.is_canonical(s) || s == value@),
    {
        let r = match self.intern.insert_canonical(value) {
            Ok(i) => Ok(Account(i)),
            Err(e) => Err(e),
        };
        self.intern.check_wf();
        proof {
            crate::intern::lemma_resolve_bound(self@, value@);
            if r is Ok {
                crate::intern::lemma_canonical_after(old(self)@, self@, value@);
            }
        }
        r
    }

    /// Registers `value` as an alias of `canonical`.
    /// Returns error if `value` is already registered as canonical.
    pub fn register_alias(&mut self, value: &str, canonical: Account) -> (r: Result<
        (),
        InternError,
    >)
        requires
            canonical.0 < old(self)@.names.len(),
        ensures
            old(self)@.is_canonical(value@) ==> r == Err::<(), InternError>(
                InternError::AlreadyCanonical,
            ) && final(self)@ == old(self)@,
            !old(self)@.is_canonical(value@) ==> r is Ok,
            !old(self)@.is_canonical(value@) && !old(self)@.is_alias(value@) ==> final(self)@.names
                == old(self)@.names && final(self)@.aliases == old(self)@.aliases.push(
                (value@, canonical.0 as nat),
            ),
            !old(self)@.is_canonical(value@) && old(self)@.is_alias(value@) ==> final(self)@ == old(
                self,
            )@,
    {
        self.intern.insert_alias(value, canonical.0)
    }

    /// Name of the canonical account, if registered.
    pub fn name(&self, a: Account) -> (r: Option<&String>)
        ensures
            r is Some <==> a.0 < self@.names.len(),
            r matches Some(s) ==> s@ == self@.names[a.0 as int],
    {
        self.intern.name(a.0)
    }

    /// Number of canonical accounts.
    pub fn len(&self) -> (r: usize)
        ensures
            r == self@.names.len(),
    {
        self.intern.len()
    }

    /// All registered names: the canonical accounts in index order, then the aliases.
    pub fn iter(&self) -> (r: Vec<StoredValue<Account>>)
        ensures
            r.len() == self@.names.len() + self@.aliases.len(),
            forall|i: int| 0 <= i < self@.names.len() ==> r[i] == StoredValue::Canonical(Account(i as usize)),
            forall|j: int|
                0 <= j < self@.aliases.len() ==> ((#[trigger] r[self@.names.len() + j]) matches StoredValue::Alias {
                    alias,
                    canonical,
                } && alias@ == self@.aliases[j].0 && canonical.0 == self@.aliases[j].1),
    {
        let items = self.intern.iter();
        let mut r: Vec<StoredValue<Account>> = Vec::new();
        let mut i: usize = 0;
        while i < items.len()
            invariant
                i <= items.len(),
                r.len() == i,
                items.len() == self@.names.len() + self@.aliases.len(),
                forall|k: int| 0 <= k < self@.names.len() ==> items[k] == StoredValue::Canonical(k as usize),
                forall|j: int|
                    0 <= j < self@.aliases.len() ==> ((#[trigger] items[self@.names.len() + j]) matches StoredValue::Alias {
                        alias,
                        canonical,
                    } && alias@ == self@.aliases[j].0 && canonical == self@.aliases[j].1),
                forall|k: int| 0 <= k < i ==> #[trigger] r[k] == match items[k] {
                    StoredValue::Canonical(x) => StoredValue::Canonical(Account(x)),
                    StoredValue::Alias { alias, canonical } => StoredValue::Alias { alias, canonical: Account(canonical) },
                },
            decreases items.len() - i,
        {
            let item = match &items[i] {
                StoredValue::Canonical(x) => StoredValue::Canonical(Account(*x)),
                StoredValue::Alias { alias, canonical } => StoredValue::Alias {
                    alias: alias.clone(),
                    canonical: Account(*canonical),
                },
            };
            r.push(item);
            i = i + 1;
        }
        assert forall|j: int|
            0 <= j < self@.aliases.len() implies ((#[trigger] r[self@.names.len() + j]) matches StoredValue::Alias {
                alias,
                canonical,
            } && alias@ == self@.aliases[j].0 && canonical.0 == self@.aliases[j].1) by {
            assert(items[self@.names.len() + j] is Alias);
        }
        r
    }
}

} // verus!
