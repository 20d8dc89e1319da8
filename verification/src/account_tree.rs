//! Hierarchical view over a flat balance: account names are split on `:` into segments,
//! and each node of the tree carries the amount rolled up from its whole subtree.
use crate::account::Account;
use crate::balance::{bal_get, Balance, BalanceView};
use crate::context::ReportContext;
use crate::eval::amount::{amount_add, amount_strip_zero, Amount, AmountView};
use crate::eval::error::EvalError;
use crate::text::{chars_of, insert_distinct, insert_distinct_text, str_eq, str_lt, string_from_range, texts};
use vstd::prelude::*;

verus! {

/// Path of an account: its segments.
pub type Path = Seq<Seq<char>>;

/// An account of the balance: its path and its amount.
pub type EntryView = (Path, AmountView);

/// The parts of the text split on `:` so far, and the part being read.
pub open spec fn split_colon_acc(s: Seq<char>) -> (Path, Seq<char>)
    decreases s.len(),
{
    if s.len() == 0 {
        (Seq::empty(), Seq::empty())
    } else {
        let (parts, cur) = split_colon_acc(s.drop_last());
        if s.last() == ':' {
            (parts.push(cur), Seq::empty())
        } else {
            (parts, cur.push(s.last()))
        }
    }
}

/// The segments of an account name, as `str::split(':')` gives them.
pub open spec fn segments(s: Seq<char>) -> Path {
    split_colon_acc(s).0.push(split_colon_acc(s).1)
}

/// The segments of the name, see [`segments`].
pub fn split_segments(s: &str) -> (r: Vec<String>)
    ensures
        texts(r@) == segments(s@),
{
    let cs = chars_of(s);
    let mut parts: Vec<String> = Vec::new();
    let mut start: usize = 0;
    let mut i: usize = 0;
    assert(s@.subrange(0, 0) =~= Seq::<char>::empty());
    while i < cs.len()
        invariant
            cs@ == s@,
            start <= i <= cs@.len(),
            texts(parts@) == split_colon_acc(s@.subrange(0, i as int)).0,
            s@.subrange(start as int, i as int) == split_colon_acc(s@.subrange(0, i as int)).1,
        decreases cs@.len() - i,
    {
        let ghost pre = s@.subrange(0, i as int);
        assert(s@.subrange(0, i + 1).drop_last() =~= pre);
        if cs[i] == ':' {
            let part = string_from_range(&cs, start, i);
            let ghost before = parts@;
            parts.push(part);
            assert(texts(parts@) =~= texts(before).push(part@));
            start = i + 1;
            i = i + 1;
            assert(s@.subrange(start as int, i as int) =~= Seq::<char>::empty());
        } else {
            i = i + 1;
            assert(s@.subrange(start as int, i as int) =~= s@.subrange(start as int, i - 1).push(s@[i - 1]));
        }
    }
    assert(s@.subrange(0, i as int) =~= s@);
    let last = string_from_range(&cs, start, i);
    let ghost before = parts@;
    parts.push(last);
    assert(texts(parts@) =~= texts(before).push(last@));
    parts
}

/// `p` is a prefix of the path.
pub open spec fn has_prefix(path: Path, p: Path) -> bool {
    p.len() <= path.len() && path.subrange(0, p.len() as int) == p
}

/// The amount of the first account from `i` on whose path is `p`.
pub open spec fn own_from(es: Seq<EntryView>, p: Path, i: int) -> Option<AmountView>
    decreases es.len() - i,
{
    if i < 0 || i >= es.len() {
        None
    } else if es[i].0 == p {
        Some(es[i].1)
    } else {
        own_from(es, p, i + 1)
    }
}

/// The amount of the account whose path is `p`, if any.
pub open spec fn own_of(es: Seq<EntryView>, p: Path) -> Option<AmountView> {
    own_from(es, p, 0)
}

/// The segments right under `p` of the first `n` accounts, in order.
pub open spec fn child_segs_upto(es: Seq<EntryView>, p: Path, n: int) -> Path
    decreases n,
{
    if n <= 0 {
        Seq::empty()
    } else {
        let acc = child_segs_upto(es, p, n - 1);
        let e = es[n - 1];
        if has_prefix(e.0, p) && e.0.len() > p.len() {
            insert_distinct(acc, e.0[p.len() as int])
        } else {
            acc
        }
    }
}

/// The segments right under `p`, in order, each once.
pub open spec fn child_segs(es: Seq<EntryView>, p: Path) -> Path {
    child_segs_upto(es, p, es.len() as int)
}

/// The length of the longest path of the first `n` accounts.
pub open spec fn depth_upto(es: Seq<EntryView>, n: int) -> nat
    decreases n,
{
    if n <= 0 {
        0
    } else {
        let d = depth_upto(es, n - 1);
        if es[n - 1].0.len() > d { es[n - 1].0.len() } else { d }
    }
}

/// The length of the longest path.
pub open spec fn depth_bound(es: Seq<EntryView>) -> nat {
    depth_upto(es, es.len() as int)
}

/// The rolled-up amount of the node at `p`: its own amount (zero if none), plus the totals of
/// its children in order, without its zero values; `None` when an addition overflows.
pub open spec fn total_of(es: Seq<EntryView>, p: Path) -> Option<AmountView>
    decreases depth_bound(es) - p.len(), child_segs(es, p).len() + 1,
{
    let start = match own_of(es, p) {
        Some(a) => a,
        None => Seq::empty(),
    };
    let sum = if p.len() < depth_bound(es) {
        sum_children(es, p, child_segs(es, p).len(), start)
    } else {
        Some(start)
    };
    match sum {
        Some(t) => Some(amount_strip_zero(t)),
        None => None,
    }
}

/// `start` plus the totals of the first `k` children of `p`, in order.
pub open spec fn sum_children(es: Seq<EntryView>, p: Path, k: nat, start: AmountView) -> Option<AmountView>
    decreases depth_bound(es) - p.len(), k,
{
    if p.len() >= depth_bound(es) || k == 0 {
        Some(start)
    } else {
        match sum_children(es, p, (k - 1) as nat, start) {
            None => None,
            Some(acc) => match total_of(es, p.push(child_segs(es, p)[k - 1])) {
                None => None,
                Some(t) => amount_add(acc, t),
            },
        }
    }
}

/// A node of the tree: an account segment, the amount of the account itself if it has one,
/// the amount rolled up from its subtree, and its children in the order of their segments.
pub struct AccountNode {
    segment: String,
    own: Option<Amount>,
    total: Amount,
    children: Vec<AccountNode>,
    entries: Ghost<Seq<EntryView>>,
    path: Ghost<Path>,
}

/// The view of an optional amount.
pub open spec fn opt_view(a: Option<Amount>) -> Option<AmountView> {
    match a {
        Some(x) => Some(x@),
        None => None,
    }
}

impl AccountNode {
    #[verifier::type_invariant]
    spec fn inv(self) -> bool {
        &&& self.path@.len() > 0 ==> self.segment@ == self.path@.last()
        &&& opt_view(self.own) == own_of(self.entries@, self.path@)
        &&& total_of(self.entries@, self.path@) == Some(self.total@)
        &&& self.children@.len() == child_segs(self.entries@, self.path@).len()
        &&& forall|i: int|
            0 <= i < self.children@.len() ==> (#[trigger] self.children@[i]).entries@ == self.entries@
                && self.children@[i].path@ == self.path@.push(child_segs(self.entries@, self.path@)[i])
    }

    /// The accounts of the tree the node belongs to.
    pub closed spec fn entries(&self) -> Seq<EntryView> {
        self.entries@
    }

    /// The path of the node.
    pub closed spec fn path(&self) -> Path {
        self.path@
    }

    /// The last segment of the node's path (`Bank` for `Assets:Bank`).
    pub fn segment(&self) -> (r: &str)
        ensures
            self.path().len() > 0 ==> r@ == self.path().last(),
    {
        proof {
            use_type_invariant(self);
        }
        self.segment.as_str()
    }

    /// The amount of the account itself, `None` when the node is only a prefix of others.
    pub fn own_amount(&self) -> (r: Option<&Amount>)
        ensures
            match r {
                Some(a) => own_of(self.entries(), self.path()) == Some(a@),
                None => own_of(self.entries(), self.path()) is None,
            },
    {
        proof {
            use_type_invariant(self);
        }
        match &self.own {
            Some(a) => Some(a),
            None => None,
        }
    }

    /// The amount rolled up from the node and its descendants, see [`total_of`].
    pub fn total(&self) -> (r: &Amount)
        ensures
            total_of(self.entries(), self.path()) == Some(r@),
    {
        proof {
            use_type_invariant(self);
        }
        &self.total
    }

    /// The children, in the order of their segments, see [`child_segs`].
    pub fn children(&self) -> (r: &Vec<AccountNode>)
        ensures
            r@.len() == child_segs(self.entries(), self.path()).len(),
            forall|i: int|
                0 <= i < r@.len() ==> (#[trigger] r@[i]).entries() == self.entries() && r@[i].path() == self.path().push(
                    child_segs(self.entries(), self.path())[i],
                ),
    {
        proof {
            use_type_invariant(self);
        }
        &self.children
    }
}

/// The accounts as paths and amounts.
pub open spec fn entry_views(es: Seq<(Vec<String>, Amount)>) -> Seq<EntryView> {
    es.map_values(|e: (Vec<String>, Amount)| (texts(e.0@), e.1@))
}

/// Whether the two paths are the same.
fn same_path(a: &Vec<String>, b: &Vec<String>) -> (r: bool)
    ensures
        r == (texts(a@) == texts(b@)),
{
    if a.len() != b.len() {
        return false;
    }
    let mut i: usize = 0;
    while i < a.len()
        invariant
            i <= a@.len(),
            a@.len() == b@.len(),
            forall|k: int| 0 <= k < i ==> a@[k]@ == b@[k]@,
        decreases a@.len() - i,
    {
        if !str_eq(a[i].as_str(), b[i].as_str()) {
            assert(texts(a@)[i as int] != texts(b@)[i as int]);
            return false;
        }
        i = i + 1;
    }
    assert(texts(a@) =~= texts(b@));
    true
}

/// Whether `prefix` is a prefix of the path.
fn is_prefix(prefix: &Vec<String>, path: &Vec<String>) -> (r: bool)
    ensures
        r == has_prefix(texts(path@), texts(prefix@)),
{
    if prefix.len() > path.len() {
        return false;
    }
    let mut i: usize = 0;
    while i < prefix.len()
        invariant
            i <= prefix@.len() <= path@.len(),
            forall|k: int| 0 <= k < i ==> prefix@[k]@ == path@[k]@,
        decreases prefix@.len() - i,
    {
        if !str_eq(prefix[i].as_str(), path[i].as_str()) {
            assert(texts(path@).subrange(0, prefix@.len() as int)[i as int] != texts(prefix@)[i as int]);
            return false;
        }
        i = i + 1;
    }
    assert(texts(path@).subrange(0, prefix@.len() as int) =~= texts(prefix@));
    true
}

/// Copy of the path.
fn copy_path(p: &Vec<String>) -> (r: Vec<String>)
    ensures
        texts(r@) == texts(p@),
{
    let mut r: Vec<String> = Vec::new();
    let mut i: usize = 0;
    while i < p.len()
        invariant
            i <= p@.len(),
            texts(r@) == texts(p@).subrange(0, i as int),
        decreases p@.len() - i,
    {
        let ghost before = r@;
        let x = p[i].clone();
        r.push(x);
        assert(texts(r@) =~= texts(before).push(x@));
        i = i + 1;
        assert(texts(r@) =~= texts(p@).subrange(0, i as int));
    }
    assert(texts(p@).subrange(0, i as int) =~= texts(p@));
    r
}

/// A node's total rolls up its subtree: its own amount (zero if none), then the total of each
/// child added in the order of their segments, with the zero values dropped.
pub proof fn law_rollup(es: Seq<EntryView>, p: Path, start: AmountView)
    requires
        p.len() < depth_bound(es),
        start == match own_of(es, p) {
            Some(a) => a,
            None => Seq::empty(),
        },
    ensures
        total_of(es, p) == match sum_children(es, p, child_segs(es, p).len(), start) {
            Some(t) => Some(amount_strip_zero(t)),
            None => None,
        },
{
}

/// Once the sum overflows, it stays overflowed.
proof fn lemma_sum_none(es: Seq<EntryView>, p: Path, k: nat, n: nat, start: AmountView)
    requires
        k <= n,
        sum_children(es, p, k, start) is None,
    ensures
        sum_children(es, p, n, start) is None,
    decreases n - k,
{
    if k < n {
        lemma_sum_none(es, p, k + 1, n, start);
    }
}

/// Every path is no longer than the bound.
proof fn lemma_depth(es: Seq<EntryView>, n: int, j: int)
    requires
        0 <= j < n <= es.len(),
    ensures
        es[j].0.len() <= depth_upto(es, n),
    decreases n,
{
    if j < n - 1 {
        lemma_depth(es, n - 1, j);
    }
}

/// A node with children is shorter than the longest path.
proof fn lemma_child_bound(es: Seq<EntryView>, p: Path, n: int)
    requires
        0 <= n <= es.len(),
    ensures
        child_segs_upto(es, p, n).len() > 0 ==> p.len() < depth_upto(es, n),
    decreases n,
{
    if n > 0 {
        lemma_child_bound(es, p, n - 1);
        let e = es[n - 1];
        if has_prefix(e.0, p) && e.0.len() > p.len() {
            lemma_depth(es, n, n - 1);
        }
    }
}

impl AccountNode {
    /// The node at the path, with its subtree, over the accounts; `NumberOverflow` when a
    /// total overflows.
    fn build(es: &Vec<(Vec<String>, Amount)>, path: Vec<String>, segment: String) -> (r: Result<AccountNode, EvalError>)
        requires
            texts(path@).len() > 0 ==> segment@ == texts(path@).last(),
        ensures
            match total_of(entry_views(es@), texts(path@)) {
                Some(t) => r matches Ok(n) && n.entries() == entry_views(es@) && n.path() == texts(path@),
                None => r == Err::<AccountNode, EvalError>(EvalError::NumberOverflow),
            },
        decreases depth_bound(entry_views(es@)) - path@.len(),
    {
        let ghost ev = entry_views(es@);
        let ghost p = texts(path@);
        let mut own: Option<Amount> = None;
        let mut i: usize = 0;
        while i < es.len()
            invariant_except_break
                own is None,
                own_of(ev, p) == own_from(ev, p, i as int),
            invariant
                i <= es@.len(),
                ev == entry_views(es@),
                p == texts(path@),
            ensures
                opt_view(own) == own_of(ev, p),
            decreases es@.len() - i,
        {
            if same_path(&es[i].0, &path) {
                assert(ev[i as int].0 == p);
                own = Some(es[i].1.clone());
                break;
            }
            i = i + 1;
        }
        let mut segs: Vec<String> = Vec::new();
        let mut j: usize = 0;
        assert(texts(segs@) =~= child_segs_upto(ev, p, 0));
        while j < es.len()
            invariant
                j <= es@.len(),
                ev == entry_views(es@),
                p == texts(path@),
                texts(segs@) == child_segs_upto(ev, p, j as int),
            decreases es@.len() - j,
        {
            if is_prefix(&path, &es[j].0) && es[j].0.len() > path.len() {
                insert_distinct_text(&mut segs, es[j].0[path.len()].as_str());
            }
            j = j + 1;
        }
        let ghost start = match own_of(ev, p) {
            Some(a) => a,
            None => Seq::<Option<crate::decimal::DecimalView>>::empty(),
        };
        let mut total = match &own {
            Some(a) => a.clone(),
            None => Amount::zero(),
        };
        assert(total@ =~= start);
        let mut children: Vec<AccountNode> = Vec::new();
        let mut k: usize = 0;
        proof {
            lemma_child_bound(ev, p, es@.len() as int);
        }
        while k < segs.len()
            invariant
                k <= segs@.len(),
                ev == entry_views(es@),
                p == texts(path@),
                texts(segs@) == child_segs(ev, p),
                segs@.len() > 0 ==> p.len() < depth_bound(ev),
                start == match own_of(ev, p) {
                    Some(a) => a,
                    None => Seq::<Option<crate::decimal::DecimalView>>::empty(),
                },
                sum_children(ev, p, k as nat, start) == Some(total@),
                children@.len() == k,
                forall|m: int|
                    0 <= m < k ==> (#[trigger] children@[m]).entries@ == ev && children@[m].path@ == p.push(
                        child_segs(ev, p)[m],
                    ) && total_of(ev, children@[m].path@) == Some(children@[m].total@),
            decreases segs@.len() - k,
        {
            let mut child_path = copy_path(&path);
            child_path.push(segs[k].clone());
            assert(texts(child_path@) =~= p.push(texts(segs@)[k as int]));
            let child = match AccountNode::build(es, child_path, segs[k].clone()) {
                Ok(c) => c,
                Err(e) => {
                    proof {
                        assert(total_of(ev, p.push(child_segs(ev, p)[k as int])) is None);
                        assert(sum_children(ev, p, (k + 1) as nat, start) is None);
                        lemma_sum_none(ev, p, (k + 1) as nat, segs@.len(), start);
                        assert(child_segs(ev, p).len() == segs@.len());
                        law_rollup(ev, p, start);
                    }
                    return Err(e);
                },
            };
            proof {
                use_type_invariant(&child);
            }
            let ghost before = total@;
            total = match total.check_add(child.total.clone()) {
                Ok(t) => t,
                Err(e) => {
                    proof {
                        assert(sum_children(ev, p, (k + 1) as nat, start) is None);
                        lemma_sum_none(ev, p, (k + 1) as nat, segs@.len(), start);
                        assert(child_segs(ev, p).len() == segs@.len());
                        law_rollup(ev, p, start);
                    }
                    return Err(e);
                },
            };
            children.push(child);
            k = k + 1;
        }
        total.remove_zero_entries();
        Ok(AccountNode { segment, own, total, children, entries: Ghost(ev), path: Ghost(p) })
    }
}

/// The name of the account in the context, empty when it has none.
pub open spec fn account_text(ctx: ReportContext, a: Account) -> Seq<char> {
    if a.0 < ctx.accounts@.names.len() { ctx.accounts@.names[a.0 as int] } else { Seq::empty() }
}

/// The accounts are those of the balance, in the order of the accounts, each with its path
/// and its amount.
pub open spec fn lists_balance(ctx: ReportContext, b: BalanceView, es: Seq<EntryView>) -> bool {
    exists|accs: Seq<Account>|
        #![trigger accs.len()]
        accs.len() == es.len() && (forall|k: int|
            0 <= k < accs.len() ==> bal_get(b, #[trigger] accs[k]) == Some(es[k].1) && es[k].0 == segments(
                account_text(ctx, accs[k]),
            )) && (forall|k: int, l: int| 0 <= k < l < accs.len() ==> (#[trigger] accs[k]).0 < (#[trigger] accs[l]).0)
            && (forall|a: Account| #[trigger] bal_get(b, a) is Some ==> accs.contains(a))
}

/// Tree of the accounts of a balance, by the segments of their names.
pub struct AccountTree {
    root: AccountNode,
}

impl AccountTree {
    #[verifier::type_invariant]
    spec fn inv(self) -> bool {
        self.root.path@.len() == 0
    }

    /// The accounts of the tree.
    pub closed spec fn entries(&self) -> Seq<EntryView> {
        self.root.entries@
    }

    /// The tree of the balance: a node for every prefix of the segments of its account names,
    /// see [`AccountNode`]; `NumberOverflow` when a total overflows.
    pub fn from_balance(ctx: &ReportContext, balance: &Balance) -> (r: Result<AccountTree, EvalError>)
        ensures
            exists|es: Seq<EntryView>|
                lists_balance(*ctx, balance@, es) && match total_of(es, Seq::empty()) {
                    Some(t) => r matches Ok(tree) && tree.entries() == es,
                    None => r == Err::<AccountTree, EvalError>(EvalError::NumberOverflow),
                },
    {
        let items = balance.iter();
        let mut es: Vec<(Vec<String>, Amount)> = Vec::new();
        let mut i: usize = 0;
        while i < items.len()
            invariant
                i <= items@.len(),
                es@.len() == i,
                forall|k: int|
                    0 <= k < i ==> (#[trigger] entry_views(es@)[k]) == (segments(account_text(*ctx, items@[k].0)), items@[k].1@),
            decreases items@.len() - i,
        {
            let name = items[i].0.as_str(&ctx.accounts);
            let segs = split_segments(name);
            let amount = items[i].1.clone();
            let ghost before = es@;
            let ghost view = (texts(segs@), amount@);
            es.push((segs, amount));
            assert(entry_views(es@) =~= entry_views(before).push(view));
            i = i + 1;
        }
        let ghost ev = entry_views(es@);
        let ghost accs = items@.map_values(|x: (Account, Amount)| x.0);
        proof {
            assert(accs.len() == ev.len());
            assert forall|a: Account| #[trigger] bal_get(balance@, a) is Some implies accs.contains(a) by {
                let k = choose|k: int| 0 <= k < items@.len() && items@[k].0 == a;
                assert(accs[k] == a);
            }
            assert forall|k: int| 0 <= k < accs.len() implies bal_get(balance@, #[trigger] accs[k]) == Some(ev[k].1)
                && ev[k].0 == segments(account_text(*ctx, accs[k])) by {
                assert(ev[k] == entry_views(es@)[k]);
            }
            assert(lists_balance(*ctx, balance@, ev));
        }
        let empty: Vec<String> = Vec::new();
        assert(texts(empty@) =~= Seq::<Seq<char>>::empty());
        match AccountNode::build(&es, empty, String::new()) {
            Ok(root) => Ok(AccountTree { root }),
            Err(e) => Err(e),
        }
    }

    /// The top-level accounts, in the order of their segments.
    pub fn roots(&self) -> (r: &Vec<AccountNode>)
        ensures
            r@.len() == child_segs(self.entries(), Seq::empty()).len(),
            forall|i: int|
                0 <= i < r@.len() ==> (#[trigger] r@[i]).entries() == self.entries() && r@[i].path() == seq![
                    child_segs(self.entries(), Seq::empty())[i],
                ],
    {
        proof {
            use_type_invariant(self);
            use_type_invariant(&self.root);
            assert(self.root.path@ =~= Seq::<Seq<char>>::empty());
            assert forall|i: int| 0 <= i < self.root.children@.len() implies self.root.children@[i].path@ == seq![
                child_segs(self.entries(), Seq::empty())[i],
            ] by {
                assert(Seq::<Seq<char>>::empty().push(child_segs(self.entries(), Seq::empty())[i]) =~= seq![
                    child_segs(self.entries(), Seq::empty())[i],
                ]);
            }
        }
        &self.root.children
    }

    /// The grand total of all the accounts, see [`total_of`].
    pub fn total(&self) -> (r: &Amount)
        ensures
            total_of(self.entries(), Seq::empty()) == Some(r@),
    {
        proof {
            use_type_invariant(self);
            use_type_invariant(&self.root);
            assert(self.root.path@ =~= Seq::<Seq<char>>::empty());
        }
        &self.root.total
    }
}

/// The segments are strictly increasing.
pub open spec fn sorted_segs(s: Path) -> bool {
    forall|i: int, j: int| 0 <= i < j < s.len() ==> str_lt(#[trigger] s[i], #[trigger] s[j])
}

/// Adding a segment keeps the others, adds it, adds nothing else and keeps the order.
proof fn lemma_insert_props(s: Path, x: Seq<char>)
    ensures
        insert_distinct(s, x).contains(x),
        forall|y: Seq<char>| s.contains(y) ==> #[trigger] insert_distinct(s, x).contains(y),
        forall|y: Seq<char>| #[trigger] insert_distinct(s, x).contains(y) ==> y == x || s.contains(y),
        sorted_segs(s) ==> sorted_segs(insert_distinct(s, x)),
    decreases s.len(),
{
    if s.len() == 0 {
        assert(insert_distinct(s, x)[0] == x);
    } else if s[0] == x {
        assert(s[0] == x);
    } else if str_lt(x, s[0]) {
        let r = seq![x] + s;
        assert(r[0] == x);
        assert forall|y: Seq<char>| s.contains(y) implies r.contains(y) by {
            let k = choose|k: int| 0 <= k < s.len() && s[k] == y;
            assert(r[k + 1] == y);
        }
        assert forall|y: Seq<char>| r.contains(y) implies y == x || s.contains(y) by {
            let k = choose|k: int| 0 <= k < r.len() && r[k] == y;
            if k > 0 {
                assert(s[k - 1] == y);
            }
        }
        if sorted_segs(s) {
            assert forall|i: int, j: int| 0 <= i < j < r.len() implies str_lt(#[trigger] r[i], #[trigger] r[j]) by {
                if i == 0 {
                    if j > 1 {
                        crate::text::lemma_str_lt_order(x, s[0], s[j - 1]);
                    }
                } else {
                    assert(r[i] == s[i - 1] && r[j] == s[j - 1]);
                }
            }
        }
    } else {
        let t = s.drop_first();
        lemma_insert_props(t, x);
        crate::text::lemma_str_lt_total(s[0], x);
        let r = seq![s[0]] + insert_distinct(t, x);
        assert(r[0] == s[0]);
        assert(r.contains(x)) by {
            let k = choose|k: int| 0 <= k < insert_distinct(t, x).len() && insert_distinct(t, x)[k] == x;
            assert(r[k + 1] == x);
        }
        assert forall|y: Seq<char>| s.contains(y) implies r.contains(y) by {
            let k = choose|k: int| 0 <= k < s.len() && s[k] == y;
            if k > 0 {
                assert(t[k - 1] == y);
                assert(t.contains(y));
                assert(insert_distinct(t, x).contains(y));
                let m = choose|m: int| 0 <= m < insert_distinct(t, x).len() && insert_distinct(t, x)[m] == y;
                assert(r[m + 1] == y);
            } else {
                assert(r[0] == y);
            }
        }
        assert forall|y: Seq<char>| r.contains(y) implies y == x || s.contains(y) by {
            let k = choose|k: int| 0 <= k < r.len() && r[k] == y;
            if k > 0 {
                assert(insert_distinct(t, x)[k - 1] == y);
                assert(insert_distinct(t, x).contains(y));
                if t.contains(y) {
                    let m = choose|m: int| 0 <= m < t.len() && t[m] == y;
                    assert(s[m + 1] == y);
                }
            }
        }
        if sorted_segs(s) {
            assert(sorted_segs(t)) by {
                assert forall|i: int, j: int| 0 <= i < j < t.len() implies str_lt(#[trigger] t[i], #[trigger] t[j]) by {
                    assert(t[i] == s[i + 1] && t[j] == s[j + 1]);
                }
            }
            assert forall|i: int, j: int| 0 <= i < j < r.len() implies str_lt(#[trigger] r[i], #[trigger] r[j]) by {
                if i == 0 {
                    let y = r[j];
                    assert(insert_distinct(t, x)[j - 1] == y);
                    assert(insert_distinct(t, x).contains(y));
                    if y != x {
                        let m = choose|m: int| 0 <= m < t.len() && t[m] == y;
                        assert(s[m + 1] == y);
                    }
                } else {
                    assert(r[i] == insert_distinct(t, x)[i - 1] && r[j] == insert_distinct(t, x)[j - 1]);
                }
            }
        }
    }
}

/// The account at `j` has `p` as a proper prefix.
pub open spec fn under(es: Seq<EntryView>, p: Path, j: int) -> bool {
    has_prefix(es[j].0, p) && es[j].0.len() > p.len()
}

/// The children of a node are in the strict order of their segments, and they are exactly
/// the segments that follow its path in the accounts under it.
pub proof fn law_children(es: Seq<EntryView>, p: Path, n: int)
    requires
        0 <= n <= es.len(),
    ensures
        sorted_segs(child_segs_upto(es, p, n)),
        forall|j: int| 0 <= j < n && under(es, p, j) ==> #[trigger] child_segs_upto(es, p, n).contains(es[j].0[p.len() as int]),
        forall|y: Seq<char>| #[trigger] child_segs_upto(es, p, n).contains(y) ==> exists|j: int|
            0 <= j < n && under(es, p, j) && es[j].0[p.len() as int] == y,
    decreases n,
{
    if n > 0 {
        law_children(es, p, n - 1);
        let acc = child_segs_upto(es, p, n - 1);
        if under(es, p, n - 1) {
            let x = es[n - 1].0[p.len() as int];
            lemma_insert_props(acc, x);
            assert forall|y: Seq<char>| #[trigger] child_segs_upto(es, p, n).contains(y) implies exists|j: int|
                0 <= j < n && under(es, p, j) && es[j].0[p.len() as int] == y by {
                if y != x {
                    assert(acc.contains(y));
                }
            }
        }
    }
}

/// Every account's ancestors are nodes: each segment of its path is a child of the path
/// before it.
pub proof fn law_ancestors(es: Seq<EntryView>, j: int, d: int)
    requires
        0 <= j < es.len(),
        0 <= d < es[j].0.len(),
    ensures
        child_segs(es, es[j].0.subrange(0, d)).contains(es[j].0[d]),
{
    let p = es[j].0.subrange(0, d);
    assert(es[j].0.subrange(0, p.len() as int) =~= p);
    assert(under(es, p, j));
    law_children(es, p, es.len() as int);
}

} // verus!
