//! Small text helpers: building strings and printing integers.
use vstd::prelude::*;

verus! {

/// Character of the decimal digit `d`.
pub open spec fn digit_char(d: nat) -> char {
    if d == 0 {
        '0'
    } else if d == 1 {
        '1'
    } else if d == 2 {
        '2'
    } else if d == 3 {
        '3'
    } else if d == 4 {
        '4'
    } else if d == 5 {
        '5'
    } else if d == 6 {
        '6'
    } else if d == 7 {
        '7'
    } else if d == 8 {
        '8'
    } else {
        '9'
    }
}

/// Decimal representation of `n`, without leading zeros.
pub open spec fn decimal_digits(n: nat) -> Seq<char>
    decreases n,
{
    if n < 10 {
        seq![digit_char(n)]
    } else {
        decimal_digits(n / 10).push(digit_char(n % 10))
    }
}

/// The texts of the strings.
pub open spec fn texts(v: Seq<String>) -> Seq<Seq<char>> {
    v.map_values(|s: String| s@)
}

/// `String::push`.
#[verifier::external_body]
pub(crate) fn push_char(s: &mut String, c: char)
    ensures
        final(s)@ == old(s)@.push(c),
{
    s.push(c);
}

/// Appends `t` to `s`.
pub fn push_str(s: &mut String, t: &str)
    ensures
        final(s)@ == old(s)@ + t@,
{
    s.append(t);
}

fn exec_digit_char(d: usize) -> (c: char)
    requires
        d < 10,
    ensures
        c == digit_char(d as nat),
{
    match d {
        0 => '0',
        1 => '1',
        2 => '2',
        3 => '3',
        4 => '4',
        5 => '5',
        6 => '6',
        7 => '7',
        8 => '8',
        _ => '9',
    }
}

/// Appends the decimal representation of `n` to `s`.
pub fn push_usize(s: &mut String, n: usize)
    ensures
        final(s)@ == old(s)@ + decimal_digits(n as nat),
    decreases n,
{
    if n < 10 {
        push_char(s, exec_digit_char(n));
        assert(decimal_digits(n as nat) =~= seq![digit_char(n as nat)]);
    } else {
        push_usize(s, n / 10);
        push_char(s, exec_digit_char(n % 10));
        assert(decimal_digits(n as nat) =~= decimal_digits((n / 10) as nat).push(
            digit_char((n % 10) as nat),
        ));
    }
}

/// Appends the decimal representation of `n` to `s`.
pub fn push_u128(s: &mut String, n: u128)
    ensures
        final(s)@ == old(s)@ + decimal_digits(n as nat),
    decreases n,
{
    if n < 10 {
        push_char(s, exec_digit_char(n as usize));
        assert(decimal_digits(n as nat) =~= seq![digit_char(n as nat)]);
    } else {
        push_u128(s, n / 10);
        push_char(s, exec_digit_char((n % 10) as usize));
        assert(decimal_digits(n as nat) =~= decimal_digits((n / 10) as nat).push(
            digit_char((n % 10) as nat),
        ));
    }
}

/// The string of the characters from `lo` to `hi`.
pub fn string_from_range(cs: &Vec<char>, lo: usize, hi: usize) -> (r: String)
    requires
        lo <= hi <= cs@.len(),
    ensures
        r@ == cs@.subrange(lo as int, hi as int),
{
    let mut s = String::new();
    assert(s@ =~= cs@.subrange(lo as int, lo as int));
    let mut i: usize = lo;
    while i < hi
        invariant
            lo <= i <= hi,
            hi <= cs@.len(),
            s@ == cs@.subrange(lo as int, i as int),
        decreases hi - i,
    {
        push_char(&mut s, cs[i]);
        assert(cs@.subrange(lo as int, i + 1) =~= cs@.subrange(lo as int, i as int).push(cs@[i as int]));
        i = i + 1;
    }
    s
}

/// The characters with the Unicode `White_Space` property, those of `char::is_whitespace`.
pub open spec fn is_space(c: char) -> bool {
    let u = c as u32;
    ||| 0x09 <= u <= 0x0d
    ||| u == 0x20
    ||| u == 0x85
    ||| u == 0xa0
    ||| u == 0x1680
    ||| 0x2000 <= u <= 0x200a
    ||| u == 0x2028
    ||| u == 0x2029
    ||| u == 0x202f
    ||| u == 0x205f
    ||| u == 0x3000
}

/// `char::is_whitespace`.
pub fn char_is_whitespace(c: char) -> (r: bool)
    ensures
        r == is_space(c),
{
    let u = c as u32;
    (0x09 <= u && u <= 0x0d) || u == 0x20 || u == 0x85 || u == 0xa0 || u == 0x1680 || (0x2000 <= u && u <= 0x200a)
        || u == 0x2028 || u == 0x2029 || u == 0x202f || u == 0x205f || u == 0x3000
}

/// The text without its trailing white space.
pub open spec fn trimmed_end(s: Seq<char>) -> Seq<char>
    decreases s.len(),
{
    if s.len() > 0 && is_space(s.last()) {
        trimmed_end(s.drop_last())
    } else {
        s
    }
}

/// The text without its leading white space.
pub open spec fn trimmed_start(s: Seq<char>) -> Seq<char>
    decreases s.len(),
{
    if s.len() > 0 && is_space(s[0]) {
        trimmed_start(s.drop_first())
    } else {
        s
    }
}

/// The end of `s` from `i`, without its leading white space.
proof fn lemma_trimmed_start_from(s: Seq<char>, i: int)
    requires
        0 <= i <= s.len(),
        forall|k: int| 0 <= k < i ==> is_space(#[trigger] s[k]),
    ensures
        trimmed_start(s) == trimmed_start(s.subrange(i, s.len() as int)),
    decreases i,
{
    if i > 0 {
        lemma_trimmed_start_from(s.drop_first(), i - 1);
        assert(s.drop_first().subrange(i - 1, s.drop_first().len() as int) =~= s.subrange(i, s.len() as int));
    } else {
        assert(s.subrange(0, s.len() as int) =~= s);
    }
}

/// `str::trim_end`.
pub fn trim_end(s: &str) -> (r: String)
    ensures
        r@ == trimmed_end(s@),
{
    let cs = chars_of(s);
    let mut n: usize = cs.len();
    assert(s@.subrange(0, cs@.len() as int) =~= s@);
    while n > 0 && char_is_whitespace(cs[n - 1])
        invariant
            cs@ == s@,
            n <= cs@.len(),
            trimmed_end(s@) == trimmed_end(s@.subrange(0, n as int)),
        decreases n,
    {
        assert(s@.subrange(0, n as int).drop_last() =~= s@.subrange(0, n - 1));
        n = n - 1;
    }
    assert(trimmed_end(s@.subrange(0, n as int)) == s@.subrange(0, n as int));
    string_from_range(&cs, 0, n)
}

/// `str::trim`.
pub fn trim(s: &str) -> (r: String)
    ensures
        r@ == trimmed_start(trimmed_end(s@)),
{
    let e = trim_end(s);
    let cs = chars_of(e.as_str());
    let mut i: usize = 0;
    while i < cs.len() && char_is_whitespace(cs[i])
        invariant
            cs@ == e@,
            i <= cs@.len(),
            forall|k: int| 0 <= k < i ==> is_space(#[trigger] cs@[k]),
        decreases cs@.len() - i,
    {
        i = i + 1;
    }
    proof {
        lemma_trimmed_start_from(e@, i as int);
        assert(trimmed_start(e@.subrange(i as int, e@.len() as int)) == e@.subrange(i as int, e@.len() as int));
    }
    string_from_range(&cs, i, cs.len())
}

/// The lines of a text so far, and the line being read.
pub open spec fn split_acc(s: Seq<char>) -> (Seq<Seq<char>>, Seq<char>)
    decreases s.len(),
{
    if s.len() == 0 {
        (Seq::empty(), Seq::empty())
    } else {
        let (ls, cur) = split_acc(s.drop_last());
        if s.last() == '\n' {
            (ls.push(cur), Seq::empty())
        } else {
            (ls, cur.push(s.last()))
        }
    }
}

/// The lines of a text, without their line feed; a last line without one counts too.
pub open spec fn lines_of(s: Seq<char>) -> Seq<Seq<char>> {
    let (ls, cur) = split_acc(s);
    if cur.len() > 0 {
        ls.push(cur)
    } else {
        ls
    }
}

/// The lines of the text, see [`lines_of`].
pub fn split_lines(s: &str) -> (r: Vec<String>)
    ensures
        texts(r@) == lines_of(s@),
{
    let cs = chars_of(s);
    let mut lines: Vec<String> = Vec::new();
    let mut cur = String::new();
    let mut i: usize = 0;
    assert(cur@ =~= Seq::<char>::empty());
    assert(texts(lines@) =~= Seq::<Seq<char>>::empty());
    assert(s@.subrange(0, 0) =~= Seq::<char>::empty());
    while i < cs.len()
        invariant
            cs@ == s@,
            i <= cs@.len(),
            split_acc(s@.subrange(0, i as int)) == (texts(lines@), cur@),
        decreases cs@.len() - i,
    {
        assert(s@.subrange(0, i + 1).drop_last() =~= s@.subrange(0, i as int));
        if cs[i] == '\n' {
            let ghost before = lines@;
            lines.push(cur);
            cur = String::new();
            assert(cur@ =~= Seq::<char>::empty());
            assert(texts(lines@) =~= texts(before).push(lines@[before.len() as int]@));
        } else {
            push_char(&mut cur, cs[i]);
        }
        i = i + 1;
    }
    assert(s@.subrange(0, cs@.len() as int) =~= s@);
    if !cur.as_str().is_empty() {
        let ghost before = lines@;
        let ghost c = cur@;
        lines.push(cur);
        assert(texts(lines@) =~= texts(before).push(c));
    }
    lines
}

/// Decimal representation of `n`.
pub fn usize_to_string(n: usize) -> (r: String)
    ensures
        r@ == decimal_digits(n as nat),
{
    let mut s = String::new();
    push_usize(&mut s, n);
    assert(s@ =~= decimal_digits(n as nat));
    s
}

/// Builds the string out of its characters.
pub fn string_from_chars(cs: &[char]) -> (r: String)
    ensures
        r@ == cs@,
{
    let mut s = String::new();
    let mut i: usize = 0;
    while i < cs.len()
        invariant
            i <= cs.len(),
            s@ == cs@.subrange(0, i as int),
        decreases cs.len() - i,
    {
        push_char(&mut s, cs[i]);
        assert(cs@.subrange(0, i + 1) =~= cs@.subrange(0, i as int).push(cs[i as int]));
        i = i + 1;
    }
    assert(cs@.subrange(0, cs.len() as int) =~= cs@);
    s
}

/// The characters of the string.
pub fn chars_of(s: &str) -> (r: Vec<char>)
    ensures
        r@ == s@,
{
    let mut r: Vec<char> = Vec::new();
    for c in it: s.chars()
        invariant
            r@ == it.seq().subrange(0, it.index() as int),
    {
        r.push(c);
    }
    r
}

/// `needle` occurs in `hay` at `i`.
pub open spec fn occurs_at(hay: Seq<char>, needle: Seq<char>, i: int) -> bool {
    0 <= i && i + needle.len() <= hay.len() && hay.subrange(i, i + needle.len()) == needle
}

/// `needle` occurs somewhere in `hay`.
pub open spec fn seq_contains(hay: Seq<char>, needle: Seq<char>) -> bool {
    exists|i: int| occurs_at(hay, needle, i)
}

/// `true` if `needle` occurs in `hay`, as `str::contains` with a string pattern.
pub fn str_contains(hay: &str, needle: &str) -> (r: bool)
    ensures
        r == seq_contains(hay@, needle@),
{
    let h = chars_of(hay);
    let n = chars_of(needle);
    if n.len() == 0 {
        assert(hay@.subrange(0, 0) =~= needle@);
        assert(occurs_at(hay@, needle@, 0));
        return true;
    }
    if n.len() > h.len() {
        assert forall|i: int| !occurs_at(hay@, needle@, i) by {}
        return false;
    }
    let end = h.len() - n.len() + 1;
    let mut i: usize = 0;
    while i < end
        invariant
            1 <= n.len() <= h.len(),
            end == h.len() - n.len() + 1,
            h@ == hay@,
            n@ == needle@,
            i <= end,
            forall|k: int| 0 <= k < i ==> !#[trigger] occurs_at(hay@, needle@, k),
        decreases end - i,
    {
        let mut j: usize = 0;
        let mut same = true;
        while j < n.len()
            invariant
                i + n.len() <= h.len(),
                i < end,
                end == h.len() - n.len() + 1,
                h@ == hay@,
                n@ == needle@,
                j <= n.len(),
                same == (forall|q: int| 0 <= q < j ==> h@[i + q] == n@[q]),
            decreases n.len() - j,
        {
            if h[i + j] != n[j] {
                same = false;
            }
            j = j + 1;
        }
        if same {
            assert forall|q: int| 0 <= q < needle@.len() implies hay@.subrange(
                i as int,
                i + needle@.len(),
            )[q] == needle@[q] by {
                assert(h@[i + q] == n@[q]);
            }
            assert(hay@.subrange(i as int, i + needle@.len()) =~= needle@);
            assert(occurs_at(hay@, needle@, i as int));
            return true;
        }
        proof {
            assert(!occurs_at(hay@, needle@, i as int)) by {
                if occurs_at(hay@, needle@, i as int) {
                    assert forall|q: int| 0 <= q < n.len() implies h@[i + q] == n@[q] by {
                        assert(hay@.subrange(i as int, i + needle.len())[q] == needle@[q]);
                    }
                }
            }
        }
        i = i + 1;
    }
    assert forall|k: int| !occurs_at(hay@, needle@, k) by {
        if 0 <= k < i {
        }
    }
    false
}

/// `true` if the two texts are equal.
pub fn str_eq(a: &str, b: &str) -> (r: bool)
    ensures
        r == (a@ == b@),
{
    let x = chars_of(a);
    let y = chars_of(b);
    if x.len() != y.len() {
        return false;
    }
    let mut i: usize = 0;
    while i < x.len()
        invariant
            i <= x.len(),
            x.len() == y.len(),
            x@ == a@,
            y@ == b@,
            forall|k: int| 0 <= k < i ==> x@[k] == y@[k],
        decreases x.len() - i,
    {
        if x[i] != y[i] {
            return false;
        }
        i = i + 1;
    }
    assert(x@ =~= y@);
    true
}

/// `a < b` in the lexicographic order of the code points.
pub open spec fn str_lt(a: Seq<char>, b: Seq<char>) -> bool
    decreases a.len(),
{
    if a.len() == 0 {
        b.len() > 0
    } else if b.len() == 0 {
        false
    } else if a[0] != b[0] {
        (a[0] as int) < (b[0] as int)
    } else {
        str_lt(a.drop_first(), b.drop_first())
    }
}

/// The lexicographic order is a strict total order.
pub proof fn lemma_str_lt_order(a: Seq<char>, b: Seq<char>, c: Seq<char>)
    ensures
        !str_lt(a, a),
        a != b ==> str_lt(a, b) || str_lt(b, a),
        !(str_lt(a, b) && str_lt(b, a)),
        str_lt(a, b) && str_lt(b, c) ==> str_lt(a, c),
    decreases a.len(),
{
    if a.len() > 0 && b.len() > 0 && c.len() > 0 {
        lemma_str_lt_order(a.drop_first(), b.drop_first(), c.drop_first());
    } else if a.len() > 0 && b.len() > 0 {
        lemma_str_lt_order(a.drop_first(), b.drop_first(), b.drop_first());
    } else if a.len() > 0 {
        lemma_str_lt_order(a.drop_first(), a.drop_first(), a.drop_first());
    }
    if a.len() == 0 && b.len() == 0 {
        assert(a =~= b);
    }
    if a.len() > 0 && b.len() > 0 && a[0] == b[0] && a.drop_first() == b.drop_first() {
        assert forall|i: int| 0 <= i < a.len() implies a[i] == b[i] by {
            if i > 0 {
                assert(a[i] == a.drop_first()[i - 1]);
                assert(b[i] == b.drop_first()[i - 1]);
            }
        }
        assert(a =~= b);
    }
    if a.len() > 0 && b.len() > 0 && a[0] != b[0] {
        assert((a[0] as int) != (b[0] as int));
    }
}

/// Compares the texts: negative, zero or positive as `a` is before, equal to or after `b`.
pub fn compare_text(a: &str, b: &str) -> (r: i8)
    ensures
        r < 0 <==> str_lt(a@, b@),
        r == 0 <==> a@ == b@,
        r > 0 <==> str_lt(b@, a@),
{
    let x = chars_of(a);
    let y = chars_of(b);
    let mut i: usize = 0;
    proof {
        lemma_str_lt_order(a@, b@, b@);
        lemma_str_lt_order(b@, a@, a@);
        assert(a@.subrange(0, a@.len() as int) =~= a@);
        assert(b@.subrange(0, b@.len() as int) =~= b@);
    }
    while i < x.len() && i < y.len()
        invariant
            i <= x.len(),
            i <= y.len(),
            x@ == a@,
            y@ == b@,
            forall|k: int| 0 <= k < i ==> x@[k] == y@[k],
            str_lt(a@, b@) == str_lt(a@.subrange(i as int, a@.len() as int), b@.subrange(i as int, b@.len() as int)),
            str_lt(b@, a@) == str_lt(b@.subrange(i as int, b@.len() as int), a@.subrange(i as int, a@.len() as int)),
        decreases x.len() - i,
    {
        let ghost sa = a@.subrange(i as int, a@.len() as int);
        let ghost sb = b@.subrange(i as int, b@.len() as int);
        assert(sa.drop_first() =~= a@.subrange(i + 1, a@.len() as int));
        assert(sb.drop_first() =~= b@.subrange(i + 1, b@.len() as int));
        if x[i] != y[i] {
            if x[i] < y[i] {
                return -1;
            } else {
                return 1;
            }
        }
        i = i + 1;
    }
    if x.len() < y.len() {
        -1
    } else if y.len() < x.len() {
        1
    } else {
        assert(x@ =~= y@);
        0
    }
}


/// The texts with `x` added in order, if it is not there yet.
pub open spec fn insert_distinct(s: Seq<Seq<char>>, x: Seq<char>) -> Seq<Seq<char>>
    decreases s.len(),
{
    if s.len() == 0 {
        seq![x]
    } else if s[0] == x {
        s
    } else if str_lt(x, s[0]) {
        seq![x] + s
    } else {
        seq![s[0]] + insert_distinct(s.drop_first(), x)
    }
}

/// Inserting where the smaller segments end: nothing when the segment is there, else it goes
/// right there.
pub proof fn lemma_insert_distinct_at(s: Seq<Seq<char>>, x: Seq<char>, i: int)
    requires
        0 <= i <= s.len(),
        forall|k: int| 0 <= k < i ==> str_lt(#[trigger] s[k], x),
        i < s.len() ==> !str_lt(s[i], x),
    ensures
        insert_distinct(s, x) == if i < s.len() && s[i] == x { s } else { s.insert(i, x) },
    decreases i,
{
    if i == 0 {
        if s.len() > 0 && s[0] != x {
            lemma_str_lt_total(s[0], x);
            assert(seq![x] + s =~= s.insert(0, x));
        } else if s.len() == 0 {
            assert(seq![x] =~= s.insert(0, x));
        }
    } else {
        lemma_str_lt_total(s[0], x);
        assert forall|k: int| 0 <= k < i - 1 implies str_lt(#[trigger] s.drop_first()[k], x) by {
            assert(s.drop_first()[k] == s[k + 1]);
        }
        lemma_insert_distinct_at(s.drop_first(), x, i - 1);
        if i < s.len() && s[i] == x {
            assert(seq![s[0]] + s.drop_first() =~= s);
        } else {
            assert(seq![s[0]] + s.drop_first().insert(i - 1, x) =~= s.insert(i, x));
        }
    }
}

/// `str_lt` is a strict total order.
pub proof fn lemma_str_lt_total(a: Seq<char>, b: Seq<char>)
    ensures
        !str_lt(a, a),
        a != b ==> str_lt(a, b) || str_lt(b, a),
        !(str_lt(a, b) && str_lt(b, a)),
{
    lemma_str_lt_order(a, b, b);
}

/// Adds the text in order, unless it is there, see [`insert_distinct`].
pub fn insert_distinct_text(segs: &mut Vec<String>, x: &str)
    ensures
        texts(final(segs)@) == insert_distinct(texts(old(segs)@), x@),
{
    let ghost s = texts(segs@);
    let mut i: usize = 0;
    while i < segs.len() && compare_text(segs[i].as_str(), x) < 0
        invariant
            i <= segs@.len(),
            s == texts(segs@),
            forall|k: int| 0 <= k < i ==> str_lt(#[trigger] s[k], x@),
        decreases segs@.len() - i,
    {
        i = i + 1;
    }
    proof {
        lemma_insert_distinct_at(s, x@, i as int);
    }
    if i < segs.len() && str_eq(segs[i].as_str(), x) {
        return;
    }
    segs.insert(i, x.to_string());
    assert(texts(segs@) =~= s.insert(i as int, x@));
}


/// The texts with `x` added before the first that is not smaller.
pub open spec fn insert_sorted(s: Seq<Seq<char>>, x: Seq<char>) -> Seq<Seq<char>>
    decreases s.len(),
{
    if s.len() == 0 {
        seq![x]
    } else if str_lt(s[0], x) {
        seq![s[0]] + insert_sorted(s.drop_first(), x)
    } else {
        seq![x] + s
    }
}

/// Inserting where the smaller texts end puts it right there.
pub proof fn lemma_insert_sorted_at(s: Seq<Seq<char>>, x: Seq<char>, i: int)
    requires
        0 <= i <= s.len(),
        forall|k: int| 0 <= k < i ==> str_lt(#[trigger] s[k], x),
        i < s.len() ==> !str_lt(s[i], x),
    ensures
        insert_sorted(s, x) == s.insert(i, x),
    decreases i,
{
    if i == 0 {
        if s.len() == 0 {
            assert(seq![x] =~= s.insert(0, x));
        } else {
            assert(seq![x] + s =~= s.insert(0, x));
        }
    } else {
        assert forall|k: int| 0 <= k < i - 1 implies str_lt(#[trigger] s.drop_first()[k], x) by {
            assert(s.drop_first()[k] == s[k + 1]);
        }
        lemma_insert_sorted_at(s.drop_first(), x, i - 1);
        assert(seq![s[0]] + s.drop_first().insert(i - 1, x) =~= s.insert(i, x));
    }
}

/// Adds the text before the first that is not smaller, see [`insert_sorted`].
pub fn insert_sorted_text(v: &mut Vec<String>, x: &str)
    ensures
        texts(final(v)@) == insert_sorted(texts(old(v)@), x@),
{
    let ghost s = texts(v@);
    let mut i: usize = 0;
    while i < v.len() && compare_text(v[i].as_str(), x) < 0
        invariant
            i <= v@.len(),
            s == texts(v@),
            forall|k: int| 0 <= k < i ==> str_lt(#[trigger] s[k], x@),
        decreases v@.len() - i,
    {
        i = i + 1;
    }
    proof {
        lemma_insert_sorted_at(s, x@, i as int);
    }
    v.insert(i, x.to_string());
    assert(texts(v@) =~= s.insert(i as int, x@));
}

/// The first `n` texts sorted, equal ones kept.
pub open spec fn sorted_upto(ls: Seq<Seq<char>>, n: int) -> Seq<Seq<char>>
    decreases n,
{
    if n <= 0 {
        Seq::empty()
    } else {
        insert_sorted(sorted_upto(ls, n - 1), ls[n - 1])
    }
}

/// The distinct ones of the first `n` texts, sorted.
pub open spec fn distinct_sorted_upto(ls: Seq<Seq<char>>, n: int) -> Seq<Seq<char>>
    decreases n,
{
    if n <= 0 {
        Seq::empty()
    } else {
        insert_distinct(distinct_sorted_upto(ls, n - 1), ls[n - 1])
    }
}

/// The texts joined by the separator.
pub open spec fn joined(ls: Seq<Seq<char>>, sep: Seq<char>) -> Seq<char>
    decreases ls.len(),
{
    if ls.len() == 0 {
        Seq::empty()
    } else if ls.len() == 1 {
        ls[0]
    } else {
        joined(ls.drop_last(), sep) + sep + ls.last()
    }
}

/// Appends the texts joined by the separator, see [`joined`].
pub fn push_joined(out: &mut String, v: &Vec<String>, sep: &str)
    ensures
        final(out)@ == old(out)@ + joined(texts(v@), sep@),
{
    let ghost start = out@;
    let mut i: usize = 0;
    assert(texts(v@).subrange(0, 0) =~= Seq::<Seq<char>>::empty());
    while i < v.len()
        invariant
            i <= v@.len(),
            out@ == start + joined(texts(v@).subrange(0, i as int), sep@),
        decreases v@.len() - i,
    {
        let ghost before = out@;
        if i > 0 {
            push_str(out, sep);
        }
        push_str(out, v[i].as_str());
        i = i + 1;
        proof {
            let sub = texts(v@).subrange(0, i as int);
            assert(sub.drop_last() =~= texts(v@).subrange(0, i - 1));
            assert(sub.last() == v@[i - 1]@);
            if i == 1 {
                assert(joined(texts(v@).subrange(0, 0), sep@) =~= Seq::<char>::empty());
                assert(out@ =~= start + joined(sub, sep@));
            } else {
                assert(out@ =~= start + joined(sub, sep@));
            }
        }
    }
    assert(texts(v@).subrange(0, i as int) =~= texts(v@));
}


/// Sorting the first `n` texts reads only those.
pub proof fn lemma_sorted_upto_prefix(a: Seq<Seq<char>>, b: Seq<Seq<char>>, n: int)
    requires
        0 <= n <= a.len(),
        n <= b.len(),
        forall|k: int| 0 <= k < n ==> a[k] == b[k],
    ensures
        sorted_upto(a, n) == sorted_upto(b, n),
    decreases n,
{
    if n > 0 {
        lemma_sorted_upto_prefix(a, b, n - 1);
    }
}

} // verus!
