//! Commodities, interned into dense tags.
use crate::intern::{InternError, InternStore, InternView};
use crate::pretty::PrettyDecimal;
use crate::text::{decimal_digits, push_str, push_usize};
use vstd::prelude::*;

verus! {

/// Name of a commodity.
#[derive(Debug, PartialEq, Eq, Clone)]
pub struct Commodity(String);

impl Commodity {
    /// Text of the commodity.
    pub closed spec fn text(&self) -> Seq<char> {
        self.0@
    }

    /// Returns the name.
    pub fn as_str(&self) -> (r: &str)
        ensures
            r@ == self.text(),
    {
        self.0.as_str()
    }
}

/// Owned commodity name, useful to store in the errors.
#[derive(Debug, PartialEq, Eq, Clone)]
pub struct OwnedCommodity(String);

impl OwnedCommodity {
    /// Creates a new instance.
    pub fn from_string(v: String) -> (r: Self)
        ensures
            r.text() == v@,
    {
        OwnedCommodity(v)
    }

    /// Returns the underlying text.
    pub fn as_str(&self) -> (r: &str)
        ensures
            r@ == self.text(),
    {
        self.0.as_str()
    }

    /// Returns the underlying [`String`].
    pub fn into_string(self) -> (r: String)
        ensures
            r@ == self.text(),
    {
        self.0
    }

    /// Text of the commodity.
    pub closed spec fn text(&self) -> Seq<char> {
        self.0@
    }
}

/// Dense index of a registered commodity.
#[derive(Debug, PartialEq, Eq, Structural, Clone, Copy, Hash, PartialOrd, Ord)]
pub struct CommodityTag(pub usize);

impl CommodityTag {
    /// Returns the index of the commodity, in `0..len` of its store.
    pub fn as_index(&self) -> (r: usize)
        ensures
            r == self.0,
    {
        self.0
    }

    /// Name of the commodity, or `unknown#<index>` when the store doesn't know it.
    pub fn to_str_lossy(self, store: &CommodityStore) -> (r: String)
        ensures
            r@ == store@.lossy_name(self.0 as nat),
    {
        match store.name(self) {
            Some(s) => s.clone(),
            None => {
                let mut r = String::new();
                push_str(&mut r, "unknown#");
                push_usize(&mut r, self.0);
                proof {
                    reveal_strlit("unknown#");
                }
                r
            },
        }
    }

    /// [`OwnedCommodity`] of the name, see [`CommodityTag::to_str_lossy`].
    pub fn to_owned_lossy(self, store: &CommodityStore) -> (r: OwnedCommodity)
        ensures
            r.text() == store@.lossy_name(self.0 as nat),
    {
        OwnedCommodity::from_string(self.to_str_lossy(store))
    }
}

/// Map from [`CommodityTag`] to values.
#[derive(Debug, PartialEq, Eq, Clone)]
pub struct CommodityMap<T> {
    inner: Vec<Option<T>>,
}

impl<T> View for CommodityMap<T> {
    type V = Seq<Option<T>>;

    closed spec fn view(&self) -> Seq<Option<T>> {
        self.inner@
    }
}

/// Value of the map at the index, `None` beyond its current size.
pub open spec fn map_at<T>(m: Seq<Option<T>>, i: nat) -> Option<T> {
    if i < m.len() {
        m[i as int]
    } else {
        None
    }
}

/// No trailing `None`.
pub open spec fn none_trimmed<T>(m: Seq<Option<T>>) -> bool {
    m.len() == 0 || m.last() is Some
}

/// The sequence without its trailing `None` values.
pub open spec fn trim_none<T>(m: Seq<Option<T>>) -> Seq<Option<T>>
    decreases m.len(),
{
    if m.len() > 0 && m.last() is None {
        trim_none(m.drop_last())
    } else {
        m
    }
}

/// Trimming keeps every value and leaves no trailing `None`.
pub proof fn lemma_trim_none<T>(m: Seq<Option<T>>)
    ensures
        none_trimmed(trim_none(m)),
        trim_none(m).len() <= m.len(),
        forall|i: nat| #[trigger] map_at(trim_none(m), i) == map_at(m, i),
    decreases m.len(),
{
    if m.len() > 0 && m.last() is None {
        lemma_trim_none(m.drop_last());
        assert forall|i: nat| #[trigger] map_at(trim_none(m), i) == map_at(m, i) by {
            assert(map_at(trim_none(m.drop_last()), i) == map_at(m.drop_last(), i));
        }
    }
}

/// Two trimmed sequences with the same values are equal.
pub proof fn lemma_none_trimmed_ext<T>(a: Seq<Option<T>>, b: Seq<Option<T>>)
    requires
        none_trimmed(a),
        none_trimmed(b),
        forall|i: nat| #[trigger] map_at(a, i) == map_at(b, i),
    ensures
        a == b,
{
    if a.len() < b.len() {
        assert(map_at(a, (b.len() - 1) as nat) == map_at(b, (b.len() - 1) as nat));
    } else if b.len() < a.len() {
        assert(map_at(a, (a.len() - 1) as nat) == map_at(b, (a.len() - 1) as nat));
    }
    assert forall|i: int| 0 <= i < a.len() implies a[i] == b[i] by {
        assert(map_at(a, i as nat) == map_at(b, i as nat));
    }
    assert(a =~= b);
}

impl<T> CommodityMap<T> {
    /// Creates an empty map.
    pub fn new() -> (r: Self)
        ensures
            r@.len() == 0,
    {
        CommodityMap { inner: Vec::new() }
    }

    /// Creates an empty map, with room for `capacity` entries.
    pub fn with_capacity(capacity: usize) -> (r: Self)
        ensures
            r@.len() == 0,
    {
        CommodityMap { inner: Vec::with_capacity(capacity) }
    }

    /// Returns the element of `k`.
    pub fn get(&self, k: CommodityTag) -> (r: Option<&T>)
        ensures
            r == match map_at(self@, k.0 as nat) {
                Some(v) => Some(&v),
                None => None::<&T>,
            },
    {
        if k.0 < self.inner.len() {
            match &self.inner[k.0] {
                Some(r) => Some(r),
                None => None,
            }
        } else {
            None
        }
    }

    /// Makes the map long enough to hold `k`.
    fn ensure_size(&mut self, k: CommodityTag)
        ensures
            final(self)@.len() == if old(self)@.len() <= k.0 {
                k.0 + 1
            } else {
                old(self)@.len() as int
            },
            forall|i: nat| #[trigger] map_at(final(self)@, i) == map_at(old(self)@, i),
    {
        let ghost prev = self@;
        while self.inner.len() <= k.0
            invariant
                prev.len() <= self@.len(),
                self@.subrange(0, prev.len() as int) == prev,
                forall|i: int| prev.len() <= i < self@.len() ==> self@[i] is None,
                self@.len() <= prev.len() || self@.len() <= k.0 + 1,
            decreases k.0 + 1 - self.inner.len(),
        {
            self.inner.push(None);
        }
        assert forall|i: nat| #[trigger] map_at(self@, i) == map_at(prev, i) by {
            if i < prev.len() {
                assert(self@[i as int] == self@.subrange(0, prev.len() as int)[i as int]);
            }
        }
    }

    /// Sets the value of `k`.
    pub fn set(&mut self, k: CommodityTag, v: T)
        ensures
            map_at(final(self)@, k.0 as nat) == Some(v),
            forall|i: nat| i != k.0 ==> #[trigger] map_at(final(self)@, i) == map_at(old(self)@, i),
    {
        self.ensure_size(k);
        let ghost mid = self@;
        self.inner.set(k.0, Some(v));
        assert forall|i: nat| i != k.0 implies #[trigger] map_at(self@, i) == map_at(old(self)@, i) by {
            assert(map_at(mid, i) == map_at(old(self)@, i));
        }
    }

    /// The place of the value of `k`, the map made long enough to hold it.
    pub fn get_mut(&mut self, k: CommodityTag) -> (r: &mut Option<T>)
        ensures
            *r == map_at(old(self)@, k.0 as nat),
            final(self)@.len() > k.0,
            final(self)@[k.0 as int] == *final(r),
            forall|i: nat| i != k.0 ==> #[trigger] map_at(final(self)@, i) == map_at(old(self)@, i),
    {
        self.ensure_size(k);
        assert(map_at(self@, k.0 as nat) == map_at(old(self)@, k.0 as nat));
        assert forall|x: Option<T>, i: nat| i != k.0 implies #[trigger] map_at(self@.update(k.0 as int, x), i)
            == map_at(old(self)@, i) by {
            assert(map_at(self@, i) == map_at(old(self)@, i));
        }
        &mut self.inner[k.0]
    }

    /// Removes and returns the value of `k`.
    pub fn take(&mut self, k: CommodityTag) -> (r: Option<T>)
        ensures
            r == map_at(old(self)@, k.0 as nat),
            map_at(final(self)@, k.0 as nat) is None,
            forall|i: nat| i != k.0 ==> #[trigger] map_at(final(self)@, i) == map_at(old(self)@, i),
    {
        if k.0 < self.inner.len() {
            let mut r = None;
            let ghost prev = self@;
            let mut inner = Vec::new();
            std::mem::swap(&mut inner, &mut self.inner);
            std::mem::swap(&mut r, &mut inner[k.0]);
            std::mem::swap(&mut inner, &mut self.inner);
            assert forall|i: nat| i != k.0 implies #[trigger] map_at(self@, i) == map_at(prev, i) by {}
            r
        } else {
            None
        }
    }

    /// Length of the underlying storage.
    pub fn len(&self) -> (r: usize)
        ensures
            r == self@.len(),
    {
        self.inner.len()
    }
}

/// Abstract content of a [`CommodityStore`].
pub struct CommodityStoreView {
    pub intern: InternView,
    pub formatting: Seq<Option<PrettyDecimal>>,
}

impl CommodityStoreView {
    /// Name of the tag, or `unknown#<index>`.
    pub open spec fn lossy_name(self, i: nat) -> Seq<char> {
        if i < self.intern.names.len() {
            self.intern.names[i as int]
        } else {
            "unknown#"@ + decimal_digits(i)
        }
    }
}

/// Interner of commodities, with their display precision.
pub struct CommodityStore {
    intern: InternStore,
    formatting: CommodityMap<PrettyDecimal>,
}

impl View for CommodityStore {
    type V = CommodityStoreView;

    closed spec fn view(&self) -> CommodityStoreView {
        CommodityStoreView { intern: self.intern@, formatting: self.formatting@ }
    }
}

impl CommodityStore {
    /// Creates an empty store.
    pub fn new() -> (r: Self)
        ensures
            r@.intern.names.len() == 0,
            r@.intern.aliases.len() == 0,
            r@.formatting.len() == 0,
    {
        CommodityStore { intern: InternStore::new(), formatting: CommodityMap::new() }
    }

    /// The interned names always satisfy [`InternView::wf`].
    pub fn check_wf(&self)
        ensures
            self@.intern.wf(),
    {
        self.intern.check_wf();
    }

    /// Returns the tag of `value`, registering it as canonical if unknown.
    pub fn ensure(&mut self, value: &str) -> (r: CommodityTag)
        ensures
            final(self)@.intern.resolve(value@) == Some(r.0 as nat),
            old(self)@.intern.resolve(value@) matches Some(n) ==> r.0 == n && final(self)@.intern
                == old(self)@.intern,
            old(self)@.intern.resolve(value@) is None ==> final(self)@.intern.names == old(
                self,
            )@.intern.names.push(value@) && final(self)@.intern.aliases == old(
                self,
            )@.intern.aliases && r.0 == old(self)@.intern.names.len(),
            final(self)@.formatting == old(self)@.formatting,
            old(self)@.intern.extended_by(final(self)@.intern),
    {
        CommodityTag(self.intern.ensure(value))
    }

    /// Name of the commodity of the tag, if registered.
    pub fn name(&self, tag: CommodityTag) -> (r: Option<&String>)
        ensures
            r is Some <==> tag.0 < self@.intern.names.len(),
            r matches Some(s) ==> s@ == self@.intern.names[tag.0 as int],
    {
        self.intern.name(tag.0)
    }

    /// Returns the commodity of the tag, if registered.
    pub fn get(&self, tag: CommodityTag) -> (r: Option<Commodity>)
        ensures
            r is Some <==> tag.0 < self@.intern.names.len(),
            r matches Some(c) ==> c.text() == self@.intern.names[tag.0 as int],
    {
        match self.intern.name(tag.0) {
            Some(s) => Some(Commodity(s.clone())),
            None => None,
        }
    }

    /// Returns the tag of `value` if and only if it's registered.
    pub fn resolve(&self, value: &str) -> (r: Option<CommodityTag>)
        ensures
            r == match self@.intern.resolve(value@) {
                Some(n) => Some(CommodityTag(n as usize)),
                None => None::<CommodityTag>,
            },
            r matches Some(t) ==> self@.intern.resolve(value@) == Some(t.0 as nat) && t.0
                < self@.intern.names.len(),
    {
        match self.intern.resolve(value) {
            Some(i) => Some(CommodityTag(i)),
            None => None,
        }
    }

    /// Registers `value` as canonical, unless it is an alias.
    pub fn insert(&mut self, value: &str) -> (r: Result<CommodityTag, InternError>)
        ensures
            final(self)@.formatting == old(self)@.formatting,
            match r {
                Ok(t) => final(self)@.intern.resolve(value@) == Some(t.0 as nat),
                Err(e) => e == InternError::AlreadyAlias && final(self)@ == old(self)@,
            },
            r matches Ok(t) ==> t.0 < final(self)@.intern.names.len(),
            r is Err <==> (!old(self)@.intern.is_canonical(value@) && old(self)@.intern.is_alias(value@)),
            r is Ok ==> final(self)@.intern.aliases == old(self)@.intern.aliases,
            r is Ok ==> forall|s: Seq<char>|
                #[trigger] final(self)@.intern.is_canonical(s) <==> (old(self)@.intern.is_canonical(s)
                    || s == value@),
    {
        let r = match self.intern.insert_canonical(value) {
            Ok(i) => Ok(CommodityTag(i)),
            Err(e) => Err(e),
        };
        self.intern.check_wf();
        proof {
            crate::intern::lemma_resolve_bound(self@.intern, value@);
            if r is Ok {
                crate::intern::lemma_canonical_after(old(self)@.intern, self@.intern, value@);
            }
        }
        r
    }

    /// Registers `value` as an alias of `canonical`, unless it is canonical.
    pub fn insert_alias(&mut self, value: &str, canonical: CommodityTag) -> (r: Result<
        (),
        InternError,
    >)
        requires
            canonical.0 < old(self)@.intern.names.len(),
        ensures
            final(self)@.formatting == old(self)@.formatting,
            old(self)@.intern.is_canonical(value@) ==> r == Err::<(), InternError>(
                InternError::AlreadyCanonical,
            ) && final(self)@ == old(self)@,
            !old(self)@.intern.is_canonical(value@) ==> r is Ok,
            !old(self)@.intern.is_canonical(value@) && !old(self)@.intern.is_alias(value@)
                ==> final(self)@.intern.aliases == old(self)@.intern.aliases.push(
                (value@, canonical.0 as nat),
            ) && final(self)@.intern.names == old(self)@.intern.names,
            !old(self)@.intern.is_canonical(value@) && old(self)@.intern.is_alias(value@)
                ==> final(self)@ == old(self)@,
    {
        self.intern.insert_alias(value, canonical.0)
    }

    /// Number of fractional digits declared for the commodity, if any.
    pub fn get_decimal_point(&self, commodity: CommodityTag) -> (r: Option<u32>)
        ensures
            r == match map_at(self@.formatting, commodity.0 as nat) {
                Some(p) => Some(p.value@.2 as u32),
                None => None::<u32>,
            },
    {
        match self.formatting.get(commodity) {
            Some(x) => Some(x.scale()),
            None => None,
        }
    }

    /// Sets the format of the commodity.
    pub fn set_format(&mut self, commodity: CommodityTag, format: PrettyDecimal)
        ensures
            final(self)@.intern == old(self)@.intern,
            map_at(final(self)@.formatting, commodity.0 as nat) == Some(format),
            forall|i: nat|
                i != commodity.0 ==> #[trigger] map_at(final(self)@.formatting, i) == map_at(
                    old(self)@.formatting,
                    i,
                ),
    {
        self.formatting.set(commodity, format);
    }

    /// Number of commodities.
    pub fn len(&self) -> (r: usize)
        ensures
            r == self@.intern.names.len(),
    {
        self.intern.len()
    }
}

} // verus!
