//! PGN tag pairs, kept sorted by tag name as a `BTreeMap<String, String>` keeps them.
use vstd::prelude::*;
use crate::text::{chars_of, chars_lt, chars_eq, seq_lt};

verus! {

/// Whether the tag names of `hs` strictly increase.
pub open spec fn sorted(hs: Seq<(Seq<char>, Seq<char>)>) -> bool {
    forall|i: int, j: int| 0 <= i < j < hs.len() ==> seq_lt(#[trigger] hs[i].0, #[trigger] hs[j].0)
}

/// The value of tag `k` in `hs`.
pub open spec fn hget(hs: Seq<(Seq<char>, Seq<char>)>, k: Seq<char>) -> Option<Seq<char>>
    decreases hs.len(),
{
    if hs.len() == 0 {
        None
    } else if hs[0].0 == k {
        Some(hs[0].1)
    } else {
        hget(hs.drop_first(), k)
    }
}

/// `hs` with tag `k` set to `v`, in sorted position.
pub open spec fn hput(hs: Seq<(Seq<char>, Seq<char>)>, k: Seq<char>, v: Seq<char>) -> Seq<(Seq<char>, Seq<char>)>
    decreases hs.len(),
{
    if hs.len() == 0 {
        seq![(k, v)]
    } else if hs[0].0 == k {
        seq![(k, v)] + hs.drop_first()
    } else if seq_lt(k, hs[0].0) {
        seq![(k, v)] + hs
    } else {
        seq![hs[0]] + hput(hs.drop_first(), k, v)
    }
}

/// `hs` with tag `k` set to `v` unless it is present.
pub open spec fn hdefault(hs: Seq<(Seq<char>, Seq<char>)>, k: Seq<char>, v: Seq<char>) -> Seq<(Seq<char>, Seq<char>)> {
    if hget(hs, k) is Some {
        hs
    } else {
        hput(hs, k, v)
    }
}

/// `hs` without tag `k`.
pub open spec fn hremove(hs: Seq<(Seq<char>, Seq<char>)>, k: Seq<char>) -> Seq<(Seq<char>, Seq<char>)>
    decreases hs.len(),
{
    if hs.len() == 0 {
        hs
    } else if hs[0].0 == k {
        hs.drop_first()
    } else {
        seq![hs[0]] + hremove(hs.drop_first(), k)
    }
}

pub proof fn lemma_lt_irreflexive(a: Seq<char>)
    ensures
        !seq_lt(a, a),
    decreases a.len(),
{
    if a.len() > 0 {
        lemma_lt_irreflexive(a.drop_first());
    }
}

pub proof fn lemma_lt_transitive(a: Seq<char>, b: Seq<char>, c: Seq<char>)
    requires
        seq_lt(a, b),
        seq_lt(b, c),
    ensures
        seq_lt(a, c),
    decreases a.len(),
{
    if a.len() > 0 && b.len() > 0 && c.len() > 0 && a[0] == b[0] && b[0] == c[0] {
        lemma_lt_transitive(a.drop_first(), b.drop_first(), c.drop_first());
    }
}

pub proof fn lemma_lt_total(a: Seq<char>, b: Seq<char>)
    ensures
        seq_lt(a, b) || a == b || seq_lt(b, a),
    decreases a.len(),
{
    if a.len() > 0 && b.len() > 0 && a[0] == b[0] {
        lemma_lt_total(a.drop_first(), b.drop_first());
        if a.drop_first() == b.drop_first() {
            assert(a =~= seq![a[0]] + a.drop_first());
            assert(b =~= seq![b[0]] + b.drop_first());
        }
    } else if a.len() > 0 && b.len() > 0 {
        crate::text::lemma_char_code(a[0], b[0]);
    } else if a.len() == 0 && b.len() == 0 {
        assert(a =~= b);
    }
}

/// In a sorted list, a tag that sorts before the first one is absent.
proof fn lemma_absent_before(hs: Seq<(Seq<char>, Seq<char>)>, k: Seq<char>)
    requires
        sorted(hs),
        hs.len() > 0,
        seq_lt(k, hs[0].0),
    ensures
        hget(hs, k) is None,
    decreases hs.len(),
{
    lemma_lt_irreflexive(k);
    assert(hs[0].0 != k);
    assert(hget(hs, k) == hget(hs.drop_first(), k));
    if hs.len() > 1 {
        let t = hs.drop_first();
        assert forall|i: int, j: int| 0 <= i < j < t.len() implies seq_lt(#[trigger] t[i].0, #[trigger] t[j].0) by {
            assert(t[i] == hs[i + 1]);
            assert(t[j] == hs[j + 1]);
        }
        assert(seq_lt(hs[0].0, hs[1].0));
        lemma_lt_transitive(k, hs[0].0, hs[1].0);
        lemma_absent_before(t, k);
    }
}

/// Every tag of `hput(hs, k, v)` is `k` or a tag of `hs`.
proof fn lemma_put_keys(hs: Seq<(Seq<char>, Seq<char>)>, k: Seq<char>, v: Seq<char>, i: int)
    requires
        0 <= i < hput(hs, k, v).len(),
    ensures
        hput(hs, k, v)[i].0 == k || exists|j: int| 0 <= j < hs.len() && hs[j].0 == hput(hs, k, v)[i].0,
    decreases hs.len(),
{
    if hs.len() > 0 && hs[0].0 != k && !seq_lt(k, hs[0].0) {
        if i > 0 {
            lemma_put_keys(hs.drop_first(), k, v, i - 1);
            let t = hput(hs, k, v)[i].0;
            if t != k {
                let j = choose|j: int| 0 <= j < hs.drop_first().len() && hs.drop_first()[j].0 == t;
                assert(hs[j + 1].0 == t);
            }
        } else {
            assert(hs[0].0 == hput(hs, k, v)[0].0);
        }
    } else if hs.len() > 0 && hs[0].0 == k {
        if i > 0 {
            assert(hs[i].0 == hput(hs, k, v)[i].0);
        }
    } else if hs.len() > 0 {
        if i > 0 {
            assert(hs[i - 1].0 == hput(hs, k, v)[i].0);
        }
    }
}

/// Setting a tag keeps the list sorted.
pub proof fn lemma_put_sorted(hs: Seq<(Seq<char>, Seq<char>)>, k: Seq<char>, v: Seq<char>)
    requires
        sorted(hs),
    ensures
        sorted(hput(hs, k, v)),
        hput(hs, k, v).len() >= 1,
    decreases hs.len(),
{
    let r = hput(hs, k, v);
    if hs.len() == 0 {
    } else if hs[0].0 == k {
        assert forall|i: int, j: int| 0 <= i < j < r.len() implies seq_lt(#[trigger] r[i].0, #[trigger] r[j].0) by {
            assert(r[i].0 == hs[i].0);
            assert(r[j].0 == hs[j].0);
        }
    } else if seq_lt(k, hs[0].0) {
        assert forall|i: int, j: int| 0 <= i < j < r.len() implies seq_lt(#[trigger] r[i].0, #[trigger] r[j].0) by {
            assert(r[j].0 == hs[j - 1].0);
            if i == 0 {
                if j > 1 {
                    lemma_lt_transitive(k, hs[0].0, hs[j - 1].0);
                }
            } else {
                assert(r[i].0 == hs[i - 1].0);
            }
        }
    } else {
        let t = hs.drop_first();
        assert(sorted(t));
        lemma_put_sorted(t, k, v);
        lemma_lt_total(k, hs[0].0);
        assert forall|i: int, j: int| 0 <= i < j < r.len() implies seq_lt(#[trigger] r[i].0, #[trigger] r[j].0) by {
            if i == 0 {
                assert(r[0].0 == hs[0].0);
                assert(r[j].0 == hput(t, k, v)[j - 1].0);
                lemma_put_keys(t, k, v, j - 1);
                if r[j].0 != k {
                    let m = choose|m: int| 0 <= m < t.len() && t[m].0 == r[j].0;
                    assert(hs[m + 1].0 == r[j].0);
                }
            } else {
                assert(r[i].0 == hput(t, k, v)[i - 1].0);
                assert(r[j].0 == hput(t, k, v)[j - 1].0);
            }
        }
    }
}

/// Reading a tag after setting it gives what was set; other tags keep their values.
pub proof fn lemma_put_get(hs: Seq<(Seq<char>, Seq<char>)>, k: Seq<char>, v: Seq<char>, k2: Seq<char>)
    ensures
        hget(hput(hs, k, v), k) == Some(v),
        k2 != k ==> hget(hput(hs, k, v), k2) == hget(hs, k2),
    decreases hs.len(),
{
    let r = hput(hs, k, v);
    if hs.len() == 0 {
        assert(r.drop_first().len() == 0);
        assert(hget(r.drop_first(), k2) is None);
    } else if hs[0].0 == k {
        assert(r.drop_first() == hs.drop_first());
        if k2 != k {
            assert(hget(r, k2) == hget(r.drop_first(), k2));
            assert(hget(hs, k2) == hget(hs.drop_first(), k2));
        }
    } else if seq_lt(k, hs[0].0) {
        assert(r.drop_first() == hs);
        if k2 != k {
            assert(hget(r, k2) == hget(r.drop_first(), k2));
        }
    } else {
        assert(r.drop_first() == hput(hs.drop_first(), k, v));
        lemma_put_get(hs.drop_first(), k, v, k2);
        assert(r[0] == hs[0]);
        assert(hget(r, k) == hget(r.drop_first(), k));
        if k2 != k && hs[0].0 != k2 {
            assert(hget(r, k2) == hget(r.drop_first(), k2));
            assert(hget(hs, k2) == hget(hs.drop_first(), k2));
        }
    }
}

/// Removing a tag keeps the list sorted, and the tag is then absent.
pub proof fn lemma_remove(hs: Seq<(Seq<char>, Seq<char>)>, k: Seq<char>)
    requires
        sorted(hs),
    ensures
        sorted(hremove(hs, k)),
        hget(hremove(hs, k), k) is None,
        forall|j: int| 0 <= j < hremove(hs, k).len() ==> exists|m: int| 0 <= m < hs.len() && hs[m].0 == #[trigger] hremove(hs, k)[j].0,
    decreases hs.len(),
{
    let r = hremove(hs, k);
    if hs.len() == 0 {
    } else if hs[0].0 == k {
        let t = hs.drop_first();
        assert(sorted(t));
        if t.len() > 0 {
            assert(seq_lt(hs[0].0, hs[1].0));
            lemma_absent_before(t, k);
        }
        assert forall|j: int| 0 <= j < r.len() implies exists|m: int| 0 <= m < hs.len() && hs[m].0 == #[trigger] r[j].0 by {
            assert(hs[j + 1].0 == r[j].0);
        }
    } else {
        let t = hs.drop_first();
        assert(sorted(t));
        lemma_remove(t, k);
        assert(r.drop_first() == hremove(t, k));
        assert forall|j: int| 0 <= j < r.len() implies exists|m: int| 0 <= m < hs.len() && hs[m].0 == #[trigger] r[j].0 by {
            if j == 0 {
                assert(hs[0].0 == r[0].0);
            } else {
                assert(r[j] == hremove(t, k)[j - 1]);
                let m = choose|m: int| 0 <= m < t.len() && t[m].0 == hremove(t, k)[j - 1].0;
                assert(hs[m + 1].0 == r[j].0);
            }
        }
        assert forall|i: int, j: int| 0 <= i < j < r.len() implies seq_lt(#[trigger] r[i].0, #[trigger] r[j].0) by {
            if i == 0 {
                assert(r[0].0 == hs[0].0);
                assert(r[j] == hremove(t, k)[j - 1]);
                let m = choose|m: int| 0 <= m < t.len() && t[m].0 == hremove(t, k)[j - 1].0;
                assert(hs[m + 1].0 == r[j].0);
            } else {
                assert(r[i] == hremove(t, k)[i - 1]);
                assert(r[j] == hremove(t, k)[j - 1]);
            }
        }
    }
}

/// Removing one tag leaves the value of every other tag.
pub proof fn lemma_remove_get(hs: Seq<(Seq<char>, Seq<char>)>, k: Seq<char>, k2: Seq<char>)
    requires
        k2 != k,
    ensures
        hget(hremove(hs, k), k2) == hget(hs, k2),
    decreases hs.len(),
{
    if hs.len() > 0 && hs[0].0 != k {
        let r = hremove(hs, k);
        lemma_remove_get(hs.drop_first(), k, k2);
        assert(r[0] == hs[0]);
        assert(r.drop_first() == hremove(hs.drop_first(), k));
    }
}

/// In a sorted list, reading the tag of a pair gives that pair's value.
pub proof fn lemma_get_at(hs: Seq<(Seq<char>, Seq<char>)>, i: int)
    requires
        sorted(hs),
        0 <= i < hs.len(),
    ensures
        hget(hs, hs[i].0) == Some(hs[i].1),
    decreases i,
{
    if i > 0 {
        assert(seq_lt(hs[0].0, hs[i].0));
        lemma_lt_irreflexive(hs[0].0);
        let t = hs.drop_first();
        assert(sorted(t));
        assert(t[i - 1] == hs[i]);
        lemma_get_at(t, i - 1);
    }
}

/// A tag that no pair carries reads as absent.
pub proof fn lemma_get_none(hs: Seq<(Seq<char>, Seq<char>)>, k: Seq<char>)
    requires
        forall|i: int| 0 <= i < hs.len() ==> #[trigger] hs[i].0 != k,
    ensures
        hget(hs, k) is None,
    decreases hs.len(),
{
    if hs.len() > 0 {
        assert(hs[0].0 != k);
        let t = hs.drop_first();
        assert forall|i: int| 0 <= i < t.len() implies #[trigger] t[i].0 != k by {
            assert(t[i] == hs[i + 1]);
        }
        lemma_get_none(t, k);
    }
}

/// Reading a tag after appending a pair: the first pair with that tag wins.
pub proof fn lemma_get_push(hs: Seq<(Seq<char>, Seq<char>)>, x: (Seq<char>, Seq<char>), k: Seq<char>)
    ensures
        hget(hs.push(x), k) == if hget(hs, k) is Some {
            hget(hs, k)
        } else if x.0 == k {
            Some(x.1)
        } else {
            None
        },
    decreases hs.len(),
{
    if hs.len() == 0 {
        assert(hs.push(x).drop_first().len() == 0);
    } else {
        assert(hs.push(x)[0] == hs[0]);
        assert(hs.push(x).drop_first() == hs.drop_first().push(x));
        lemma_get_push(hs.drop_first(), x, k);
    }
}

/// The tag pairs of a PGN game, sorted by tag name without repeats.
#[derive(Debug)]
pub struct Headers {
    pairs: Vec<(String, String)>,
}

pub open spec fn pair_view(p: (String, String)) -> (Seq<char>, Seq<char>) {
    (p.0@, p.1@)
}

fn clone_pair(p: &(String, String)) -> (r: (String, String))
    ensures
        pair_view(r) == pair_view(*p),
{
    (p.0.clone(), p.1.clone())
}

/// Copies `src[from..to]` onto the end of `v`.
fn extend_pairs(v: &mut Vec<(String, String)>, src: &Vec<(String, String)>, from: usize, to: usize)
    requires
        from <= to <= src@.len(),
    ensures
        final(v)@.map_values(|p: (String, String)| pair_view(p)) == old(v)@.map_values(
            |p: (String, String)| pair_view(p),
        ) + src@.map_values(|p: (String, String)| pair_view(p)).subrange(from as int, to as int),
{
    let ghost base = v@.map_values(|p: (String, String)| pair_view(p));
    let ghost sv = src@.map_values(|p: (String, String)| pair_view(p));
    let mut m = from;
    while m < to
        invariant
            from <= m <= to <= src@.len(),
            sv == src@.map_values(|p: (String, String)| pair_view(p)),
            v@.map_values(|p: (String, String)| pair_view(p)) == base + sv.subrange(from as int, m as int),
        decreases to - m,
    {
        let ghost before = v@;
        v.push(clone_pair(&src[m]));
        proof {
            assert(sv[m as int] == pair_view(src@[m as int]));
            assert(v@.map_values(|p: (String, String)| pair_view(p)) =~= before.map_values(
                |p: (String, String)| pair_view(p),
            ).push(sv[m as int]));
            assert(sv.subrange(from as int, m + 1) =~= sv.subrange(from as int, m as int).push(sv[m as int]));
        }
        m = m + 1;
    }
}

impl View for Headers {
    type V = Seq<(Seq<char>, Seq<char>)>;

    closed spec fn view(&self) -> Seq<(Seq<char>, Seq<char>)> {
        self.pairs@.map_values(|p: (String, String)| pair_view(p))
    }
}

impl Headers {
    #[verifier::type_invariant]
    spec fn inv(self) -> bool {
        sorted(self.pairs@.map_values(|p: (String, String)| pair_view(p)))
    }

    /// No tags.
    pub fn new() -> (r: Headers)
        ensures
            r@ == Seq::<(Seq<char>, Seq<char>)>::empty(),
    {
        let r = Headers { pairs: Vec::new() };
        assert(r.pairs@.map_values(|p: (String, String)| pair_view(p)) =~= Seq::<(Seq<char>, Seq<char>)>::empty());
        r
    }

    /// The tags are sorted by name without repeats.
    pub fn len(&self) -> (r: usize)
        ensures
            r == self@.len(),
            sorted(self@),
    {
        proof {
            use_type_invariant(self);
        }
        self.pairs.len()
    }

    /// The `i`-th tag name and value in sorted order.
    pub fn pair(&self, i: usize) -> (r: (&str, &str))
        requires
            i < self@.len(),
        ensures
            r.0@ == self@[i as int].0,
            r.1@ == self@[i as int].1,
    {
        let p = &self.pairs[i];
        (p.0.as_str(), p.1.as_str())
    }

    /// A copy of these tags.
    pub fn duplicate(&self) -> (r: Headers)
        ensures
            r@ == self@,
    {
        proof {
            use_type_invariant(self);
        }
        let mut v: Vec<(String, String)> = Vec::new();
        extend_pairs(&mut v, &self.pairs, 0, self.pairs.len());
        assert(v@.map_values(|p: (String, String)| pair_view(p)) =~= self@);
        Headers { pairs: v }
    }

    /// The value of tag `key`.
    pub fn get(&self, key: &str) -> (r: Option<String>)
        ensures
            crate::chess::opt_view(r) == hget(self@, key@),
    {
        let k = chars_of(key);
        let n = self.pairs.len();
        let ghost hs = self@;
        assert(hs.skip(0) == hs);
        for i in 0..n
            invariant
                n == hs.len(),
                hs == self@,
                hs == self.pairs@.map_values(|p: (String, String)| pair_view(p)),
                k@ == key@,
                hget(hs, key@) == hget(hs.skip(i as int), key@),
        {
            let name = chars_of(self.pairs[i].0.as_str());
            assert(hs.skip(i as int)[0] == hs[i as int]);
            assert(hs[i as int] == pair_view(self.pairs@[i as int]));
            if chars_eq(name.as_slice(), k.as_slice()) {
                return Some(self.pairs[i].1.clone());
            }
            assert(hs.skip(i as int).drop_first() == hs.skip(i + 1));
        }
        None
    }

    /// Sets tag `key` to `value`.
    pub fn set(&mut self, key: &str, value: &str)
        ensures
            final(self)@ == hput(old(self)@, key@, value@),
    {
        proof {
            use_type_invariant(&*self);
        }
        let k = chars_of(key);
        let ghost hs = self@;
        let n = self.pairs.len();
        let mut i: usize = 0;
        assert(hs.skip(0) == hs);
        assert(hs.take(0) + hput(hs.skip(0), key@, value@) =~= hput(hs, key@, value@));
        let mut same = false;
        while i < n
            invariant_except_break
                n == hs.len() == self.pairs@.len(),
                hs == self@,
                hs == self.pairs@.map_values(|p: (String, String)| pair_view(p)),
                sorted(hs),
                k@ == key@,
                i <= n,
                hput(hs, key@, value@) == hs.take(i as int) + hput(hs.skip(i as int), key@, value@),
                !same,
            ensures
                n == hs.len() == self.pairs@.len(),
                hs == self.pairs@.map_values(|p: (String, String)| pair_view(p)),
                sorted(hs),
                i <= n,
                hput(hs, key@, value@) == hs.take(i as int) + hput(hs.skip(i as int), key@, value@),
                i < n ==> (same <==> hs[i as int].0 == key@),
                i < n && !same ==> seq_lt(key@, hs[i as int].0),
                i == n ==> !same,
            decreases n - i,
        {
            let name = chars_of(self.pairs[i].0.as_str());
            assert(hs[i as int] == pair_view(self.pairs@[i as int]));
            if chars_eq(name.as_slice(), k.as_slice()) {
                same = true;
                break;
            }
            if chars_lt(k.as_slice(), name.as_slice()) {
                break;
            }
            proof {
                let t = hs.skip(i as int);
                assert(t[0] == hs[i as int]);
                assert(t.drop_first() == hs.skip(i + 1));
                assert(hput(t, key@, value@) == seq![t[0]] + hput(t.drop_first(), key@, value@));
                assert(hs.take(i as int) + hput(t, key@, value@) =~= hs.take(i + 1) + hput(hs.skip(i + 1), key@, value@));
            }
            i = i + 1;
        }
        let ghost t = hs.skip(i as int);
        let mut v: Vec<(String, String)> = Vec::new();
        extend_pairs(&mut v, &self.pairs, 0, i);
        let ghost before = v@;
        v.push((String::from_str(key), String::from_str(value)));
        assert(v@.map_values(|p: (String, String)| pair_view(p)) =~= before.map_values(
            |p: (String, String)| pair_view(p),
        ).push((key@, value@)));
        assert(hs.subrange(0, i as int) =~= hs.take(i as int));
        let j: usize = if same { i + 1 } else { i };
        proof {
            if i < n {
                assert(t[0] == hs[i as int]);
            }
            if same {
                assert(t.drop_first() =~= hs.skip(j as int));
            } else if i < n {
                assert(t =~= hs.skip(j as int));
            } else {
                assert(t.len() == 0);
            }
            assert(hput(hs, key@, value@) =~= hs.take(i as int).push((key@, value@)) + hs.skip(j as int));
        }
        extend_pairs(&mut v, &self.pairs, j, n);
        proof {
            assert(hs.subrange(0, i as int) =~= hs.take(i as int));
            assert(hs.subrange(j as int, n as int) =~= hs.skip(j as int));
            lemma_put_sorted(hs, key@, value@);
            assert(v@.map_values(|p: (String, String)| pair_view(p)) =~= hput(hs, key@, value@));
        }
        self.pairs = v;
        assert(self@ =~= hput(hs, key@, value@));
    }

    /// Sets tag `key` to `value` unless it is present.
    pub fn set_default(&mut self, key: &str, value: &str)
        ensures
            final(self)@ == hdefault(old(self)@, key@, value@),
    {
        if self.get(key).is_none() {
            self.set(key, value);
        }
    }

    /// Removes tag `key`.
    pub fn remove(&mut self, key: &str)
        ensures
            final(self)@ == hremove(old(self)@, key@),
    {
        proof {
            use_type_invariant(&*self);
        }
        let k = chars_of(key);
        let ghost hs = self@;
        let n = self.pairs.len();
        let mut i: usize = 0;
        assert(hs.skip(0) == hs);
        assert(hs.take(0) + hremove(hs.skip(0), key@) =~= hremove(hs, key@));
        while i < n
            invariant_except_break
                n == hs.len() == self.pairs@.len(),
                hs == self.pairs@.map_values(|p: (String, String)| pair_view(p)),
                sorted(hs),
                k@ == key@,
                i <= n,
                hremove(hs, key@) == hs.take(i as int) + hremove(hs.skip(i as int), key@),
            ensures
                n == hs.len() == self.pairs@.len(),
                hs == self.pairs@.map_values(|p: (String, String)| pair_view(p)),
                sorted(hs),
                i <= n,
                hremove(hs, key@) == hs.take(i as int) + hremove(hs.skip(i as int), key@),
                i < n ==> hs[i as int].0 == key@,
            decreases n - i,
        {
            let name = chars_of(self.pairs[i].0.as_str());
            assert(hs[i as int] == pair_view(self.pairs@[i as int]));
            if chars_eq(name.as_slice(), k.as_slice()) {
                break;
            }
            proof {
                let t = hs.skip(i as int);
                assert(t[0] == hs[i as int]);
                assert(t.drop_first() == hs.skip(i + 1));
                assert(hs.take(i as int) + hremove(t, key@) =~= hs.take(i + 1) + hremove(hs.skip(i + 1), key@));
            }
            i = i + 1;
        }
        let mut v: Vec<(String, String)> = Vec::new();
        extend_pairs(&mut v, &self.pairs, 0, i);
        let j: usize = if i < n { i + 1 } else { i };
        proof {
            let t = hs.skip(i as int);
            if i < n {
                assert(t[0] == hs[i as int]);
                assert(t.drop_first() =~= hs.skip(j as int));
            } else {
                assert(t.len() == 0);
            }
            assert(hremove(hs, key@) =~= hs.take(i as int) + hs.skip(j as int));
        }
        extend_pairs(&mut v, &self.pairs, j, n);
        proof {
            assert(hs.subrange(0, i as int) =~= hs.take(i as int));
            assert(hs.subrange(j as int, n as int) =~= hs.skip(j as int));
            lemma_remove(hs, key@);
            assert(v@.map_values(|p: (String, String)| pair_view(p)) =~= hremove(hs, key@));
        }
        self.pairs = v;
        assert(self@ =~= hremove(hs, key@));
    }
}

} // verus!
