use vstd::prelude::*;
use crate::value::RelType;

verus! {

/// `a` sorts before `b` when both agree up to position `i` (code points,
/// lexicographic).
pub open spec fn lt_from(a: Seq<char>, b: Seq<char>, i: int) -> bool
    decreases a.len() - i,
{
    if i < 0 || i >= a.len() {
        0 <= i < b.len()
    } else if i >= b.len() {
        false
    } else if a[i] != b[i] {
        a[i] < b[i]
    } else {
        lt_from(a, b, i + 1)
    }
}

/// Lexicographic order on names, by code point.
pub open spec fn name_lt(a: Seq<char>, b: Seq<char>) -> bool {
    lt_from(a, b, 0)
}

/// Compares two names: negative, zero or positive as `a` sorts before, equal
/// to, or after `b`.
pub fn compare_names(a: &str, b: &str) -> (r: i8)
    ensures
        r < 0 <==> name_lt(a@, b@),
        r == 0 <==> a@ == b@,
        r > 0 <==> name_lt(b@, a@),
{
    let la = a.unicode_len();
    let lb = b.unicode_len();
    let mut i: usize = 0;
    while i < la && i < lb
        invariant
            la == a@.len(),
            lb == b@.len(),
            i <= la,
            i <= lb,
            a@.subrange(0, i as int) == b@.subrange(0, i as int),
            name_lt(a@, b@) == lt_from(a@, b@, i as int),
            name_lt(b@, a@) == lt_from(b@, a@, i as int),
        decreases la - i,
    {
        let ca = a.get_char(i);
        let cb = b.get_char(i);
        if ca != cb {
            if ca < cb {
                return -1;
            } else {
                return 1;
            }
        }
        assert(a@.subrange(0, i + 1) == a@.subrange(0, i as int).push(ca));
        assert(b@.subrange(0, i + 1) == b@.subrange(0, i as int).push(cb));
        i = i + 1;
    }
    if la < lb {
        assert(a@ != b@);
        -1
    } else if lb < la {
        assert(a@ != b@);
        1
    } else {
        assert(a@ == a@.subrange(0, i as int));
        assert(b@ == b@.subrange(0, i as int));
        0
    }
}

proof fn lemma_lt_from_irreflexive(a: Seq<char>, i: int)
    requires
        0 <= i,
    ensures
        !lt_from(a, a, i),
    decreases a.len() - i,
{
    if i < a.len() {
        lemma_lt_from_irreflexive(a, i + 1);
    }
}

proof fn lemma_lt_from_asymmetric(a: Seq<char>, b: Seq<char>, i: int)
    requires
        0 <= i,
        lt_from(a, b, i),
    ensures
        !lt_from(b, a, i),
    decreases a.len() - i,
{
    if i < a.len() && i < b.len() && a[i] == b[i] {
        lemma_lt_from_asymmetric(a, b, i + 1);
    }
}

proof fn lemma_lt_from_transitive(a: Seq<char>, b: Seq<char>, c: Seq<char>, i: int)
    requires
        0 <= i,
        lt_from(a, b, i),
        lt_from(b, c, i),
    ensures
        lt_from(a, c, i),
    decreases a.len() - i,
{
    if i < a.len() && i < b.len() && i < c.len() && a[i] == b[i] && b[i] == c[i] {
        lemma_lt_from_transitive(a, b, c, i + 1);
    }
}

proof fn lemma_lt_from_total(a: Seq<char>, b: Seq<char>, i: int)
    requires
        0 <= i <= a.len(),
        i <= b.len(),
        a.subrange(0, i) == b.subrange(0, i),
    ensures
        a == b || lt_from(a, b, i) || lt_from(b, a, i),
    decreases a.len() - i,
{
    if i < a.len() && i < b.len() && a[i] == b[i] {
        assert(a.subrange(0, i + 1) =~= a.subrange(0, i).push(a[i]));
        assert(b.subrange(0, i + 1) =~= b.subrange(0, i).push(b[i]));
        lemma_lt_from_total(a, b, i + 1);
    } else if i == a.len() && i == b.len() {
        assert(a =~= a.subrange(0, i));
        assert(b =~= b.subrange(0, i));
    } else if i < a.len() && i < b.len() {
        let ca = a[i];
        let cb = b[i];
        assert(ca != cb);
    }
}

/// Name order is a strict total order.
pub proof fn lemma_name_order(a: Seq<char>, b: Seq<char>, c: Seq<char>)
    ensures
        !name_lt(a, a),
        name_lt(a, b) ==> !name_lt(b, a),
        name_lt(a, b) && name_lt(b, c) ==> name_lt(a, c),
        a == b || name_lt(a, b) || name_lt(b, a),
{
    lemma_lt_from_irreflexive(a, 0);
    if name_lt(a, b) {
        lemma_lt_from_asymmetric(a, b, 0);
        if name_lt(b, c) {
            lemma_lt_from_transitive(a, b, c, 0);
        }
    }
    assert(a.subrange(0, 0) =~= b.subrange(0, 0));
    lemma_lt_from_total(a, b, 0);
}

/// One variable binding.
pub struct Binding {
    pub name: String,
    pub value: RelType,
}

/// The model of a binding: its name and value.
pub open spec fn binding_view(b: Binding) -> (Seq<char>, RelType) {
    (b.name@, b.value)
}

/// The value bound to `k`, if any.
pub open spec fn lookup(s: Seq<(Seq<char>, RelType)>, k: Seq<char>) -> Option<RelType>
    decreases s.len(),
{
    if s.len() == 0 {
        None
    } else if s[0].0 == k {
        Some(s[0].1)
    } else {
        lookup(s.drop_first(), k)
    }
}

/// The store after binding `k` to `v`: an existing binding is replaced, a
/// new one goes where its name sorts.
pub open spec fn assign(s: Seq<(Seq<char>, RelType)>, k: Seq<char>, v: RelType) -> Seq<
    (Seq<char>, RelType),
>
    decreases s.len(),
{
    if s.len() == 0 {
        seq![(k, v)]
    } else if s[0].0 == k {
        seq![(k, v)] + s.drop_first()
    } else if name_lt(k, s[0].0) {
        seq![(k, v)] + s
    } else {
        seq![s[0]] + assign(s.drop_first(), k, v)
    }
}

/// The names are strictly increasing.
pub open spec fn sorted(s: Seq<(Seq<char>, RelType)>) -> bool {
    forall|i: int, j: int| 0 <= i < j < s.len() ==> name_lt(#[trigger] s[i].0, #[trigger] s[j].0)
}

/// The variable store of one evaluation: bindings kept sorted by name.
pub struct Store {
    pub bindings: Vec<Binding>,
}

impl Store {
    pub closed spec fn view(&self) -> Seq<(Seq<char>, RelType)> {
        self.bindings@.map_values(|b: Binding| binding_view(b))
    }

    pub fn new() -> (r: Store)
        ensures
            r.view() == Seq::<(Seq<char>, RelType)>::empty(),
            sorted(r.view()),
    {
        let r = Store { bindings: Vec::new() };
        assert(r.view() =~= Seq::<(Seq<char>, RelType)>::empty());
        r
    }

    pub fn clear(&mut self)
        ensures
            final(self).view() == Seq::<(Seq<char>, RelType)>::empty(),
            sorted(final(self).view()),
    {
        self.bindings = Vec::new();
        assert(self.view() =~= Seq::<(Seq<char>, RelType)>::empty());
    }

    pub fn len(&self) -> (r: usize)
        ensures
            r == self.view().len(),
    {
        self.bindings.len()
    }

    /// The binding at position `i`.
    pub fn get(&self, i: usize) -> (r: &Binding)
        requires
            i < self.view().len(),
        ensures
            binding_view(*r) == self.view()[i as int],
    {
        &self.bindings[i]
    }

    /// The value bound to `k`, copied.
    pub fn lookup(&self, k: &str) -> (r: Option<RelType>)
        ensures
            r == lookup(self.view(), k@),
    {
        let mut i: usize = 0;
        assert(self.view().subrange(0, self.view().len() as int) =~= self.view());
        while i < self.bindings.len()
            invariant
                i <= self.bindings@.len(),
                lookup(self.view(), k@) == lookup(self.view().subrange(i as int, self.view().len() as int), k@),
            decreases self.bindings@.len() - i,
        {
            let ghost rest = self.view().subrange(i as int, self.view().len() as int);
            assert(rest.drop_first() =~= self.view().subrange(i + 1, self.view().len() as int));
            if compare_names(self.bindings[i].name.as_str(), k) == 0 {
                return Some(self.bindings[i].value.copy());
            }
            i = i + 1;
        }
        None
    }

    /// Binds `k` to `v`.
    pub fn assign(&mut self, k: &str, v: RelType)
        ensures
            final(self).view() == assign(old(self).view(), k@, v),
            sorted(old(self).view()) ==> sorted(final(self).view()),
    {
        proof {
            if sorted(self.view()) {
                lemma_assign_sorted(self.view(), k@, v);
            }
        }
        let mut i: usize = 0;
        let ghost s0 = self.view();
        assert(s0.subrange(0, s0.len() as int) =~= s0);
        assert(s0.subrange(0, 0) =~= Seq::<(Seq<char>, RelType)>::empty());
        while i < self.bindings.len()
            invariant
                self.view() == s0,
                s0 == old(self).view(),
                sorted(s0) ==> sorted(assign(s0, k@, v)),
                i <= self.bindings@.len(),
                assign(s0, k@, v) == s0.subrange(0, i as int) + assign(s0.subrange(i as int, s0.len() as int), k@, v),
            decreases self.bindings@.len() - i,
        {
            let c = compare_names(self.bindings[i].name.as_str(), k);
            let ghost rest = s0.subrange(i as int, s0.len() as int);
            assert(rest.drop_first() =~= s0.subrange(i + 1, s0.len() as int));
            assert(rest[0] == binding_view(self.bindings@[i as int]));
            if c == 0 {
                assert(assign(rest, k@, v) == seq![(k@, v)] + rest.drop_first());
                self.bindings.set(i, Binding { name: String::from_str(k), value: v });
                assert(self.view() =~= s0.subrange(0, i as int) + (seq![(k@, v)] + rest.drop_first()));
                return;
            } else if c > 0 {
                assert(assign(rest, k@, v) == seq![(k@, v)] + rest);
                self.bindings.insert(i, Binding { name: String::from_str(k), value: v });
                assert(self.view() =~= s0.subrange(0, i as int) + (seq![(k@, v)] + rest));
                return;
            }
            assert(assign(rest, k@, v) == seq![rest[0]] + assign(rest.drop_first(), k@, v));
            assert(s0.subrange(0, i + 1) =~= s0.subrange(0, i as int) + seq![rest[0]]);
            i = i + 1;
        }
        self.bindings.push(Binding { name: String::from_str(k), value: v });
        assert(s0.subrange(i as int, s0.len() as int) =~= Seq::<(Seq<char>, RelType)>::empty());
        assert(self.view() =~= s0 + seq![(k@, v)]);
        assert(s0.subrange(0, i as int) =~= s0);
    }
}


/// A name below every name of `s` and below `k` stays below every name after
/// `k` is bound.
proof fn lemma_assign_lower_bound(s: Seq<(Seq<char>, RelType)>, k: Seq<char>, v: RelType, x: Seq<char>)
    requires
        forall|j: int| 0 <= j < s.len() ==> name_lt(x, #[trigger] s[j].0),
        name_lt(x, k),
    ensures
        forall|j: int| 0 <= j < assign(s, k, v).len() ==> name_lt(x, #[trigger] assign(s, k, v)[j].0),
    decreases s.len(),
{
    if s.len() > 0 && s[0].0 != k && !name_lt(k, s[0].0) {
        let t = s.drop_first();
        assert forall|j: int| 0 <= j < t.len() implies name_lt(x, #[trigger] t[j].0) by {
            assert(t[j] == s[j + 1]);
        }
        lemma_assign_lower_bound(t, k, v, x);
        let r = assign(s, k, v);
        assert forall|j: int| 0 <= j < r.len() implies name_lt(x, #[trigger] r[j].0) by {
            if j > 0 {
                assert(r[j] == assign(t, k, v)[j - 1]);
            }
        }
    }
}

/// Binding a name keeps the store sorted by name.
pub proof fn lemma_assign_sorted(s: Seq<(Seq<char>, RelType)>, k: Seq<char>, v: RelType)
    requires
        sorted(s),
    ensures
        sorted(assign(s, k, v)),
    decreases s.len(),
{
    let r = assign(s, k, v);
    if s.len() == 0 {
    } else if s[0].0 == k {
        assert forall|i: int, j: int| 0 <= i < j < r.len() implies name_lt(#[trigger] r[i].0, #[trigger] r[j].0) by {
            assert(r[j] == s[j]);
            if i > 0 {
                assert(r[i] == s[i]);
            }
        }
    } else if name_lt(k, s[0].0) {
        assert forall|i: int, j: int| 0 <= i < j < r.len() implies name_lt(#[trigger] r[i].0, #[trigger] r[j].0) by {
            assert(r[j] == s[j - 1]);
            if i > 0 {
                assert(r[i] == s[i - 1]);
            } else if j > 1 {
                lemma_name_order(k, s[0].0, s[j - 1].0);
            }
        }
    } else {
        let t = s.drop_first();
        assert(sorted(t)) by {
            assert forall|i: int, j: int| 0 <= i < j < t.len() implies name_lt(#[trigger] t[i].0, #[trigger] t[j].0) by {
                assert(t[i] == s[i + 1]);
                assert(t[j] == s[j + 1]);
            }
        }
        lemma_assign_sorted(t, k, v);
        lemma_name_order(k, s[0].0, k);
        assert forall|j: int| 0 <= j < t.len() implies name_lt(s[0].0, #[trigger] t[j].0) by {
            assert(t[j] == s[j + 1]);
        }
        lemma_assign_lower_bound(t, k, v, s[0].0);
        let rt = assign(t, k, v);
        assert forall|i: int, j: int| 0 <= i < j < r.len() implies name_lt(#[trigger] r[i].0, #[trigger] r[j].0) by {
            assert(r[j] == rt[j - 1]);
            if i > 0 {
                assert(r[i] == rt[i - 1]);
            }
        }
    }
}

/// The order in which two different names are bound does not matter: the
/// store, and so the report, comes out the same.
pub proof fn lemma_assign_commutes(
    s: Seq<(Seq<char>, RelType)>,
    x: Seq<char>,
    vx: RelType,
    y: Seq<char>,
    vy: RelType,
)
    requires
        sorted(s),
        x != y,
    ensures
        assign(assign(s, x, vx), y, vy) == assign(assign(s, y, vy), x, vx),
    decreases s.len(),
{
    lemma_name_order(x, y, x);
    lemma_name_order(y, x, y);
    if s.len() == 0 {
        reveal_with_fuel(assign, 3);
        assert(assign(assign(s, x, vx), y, vy) =~= assign(assign(s, y, vy), x, vx));
    } else {
        let h = s[0].0;
        let t = s.drop_first();
        lemma_name_order(x, h, y);
        lemma_name_order(y, h, x);
        lemma_name_order(h, x, y);
        lemma_name_order(h, y, x);
        lemma_name_order(x, y, h);
        lemma_name_order(y, x, h);
        assert(sorted(t)) by {
            assert forall|i: int, j: int| 0 <= i < j < t.len() implies name_lt(#[trigger] t[i].0, #[trigger] t[j].0) by {
                assert(t[i] == s[i + 1]);
                assert(t[j] == s[j + 1]);
            }
        }
        if h != x && h != y && !name_lt(x, h) && !name_lt(y, h) {
            lemma_assign_commutes(t, x, vx, y, vy);
            let ax = assign(s, x, vx);
            let ay = assign(s, y, vy);
            assert(ax == seq![s[0]] + assign(t, x, vx));
            assert(ay == seq![s[0]] + assign(t, y, vy));
            assert((seq![s[0]] + assign(t, x, vx))[0] == s[0]);
            assert((seq![s[0]] + assign(t, x, vx)).drop_first() =~= assign(t, x, vx));
            assert((seq![s[0]] + assign(t, y, vy))[0] == s[0]);
            assert((seq![s[0]] + assign(t, y, vy)).drop_first() =~= assign(t, y, vy));
            assert(assign(ax, y, vy) == seq![s[0]] + assign(assign(t, x, vx), y, vy));
            assert(assign(ay, x, vx) == seq![s[0]] + assign(assign(t, y, vy), x, vx));
        } else {
            lemma_cons((x, vx), s);
            lemma_cons((y, vy), s);
            lemma_cons((x, vx), t);
            lemma_cons((y, vy), t);
            lemma_cons(s[0], assign(t, x, vx));
            lemma_cons(s[0], assign(t, y, vy));
            lemma_cons((y, vy), seq![(x, vx)] + s);
            lemma_cons((x, vx), seq![(y, vy)] + s);
            lemma_cons((x, vx), seq![s[0]] + assign(t, y, vy));
            lemma_cons((y, vy), seq![s[0]] + assign(t, x, vx));
            lemma_cons((x, vx), seq![(y, vy)] + t);
            lemma_cons((y, vy), seq![(x, vx)] + t);
            assert(s =~= seq![s[0]] + t);
            let l = assign(assign(s, x, vx), y, vy);
            let r = assign(assign(s, y, vy), x, vx);
            if h == x {
                assert(assign(s, x, vx) == seq![(x, vx)] + t);
                if name_lt(y, h) {
                    assert(assign(s, y, vy) == seq![(y, vy)] + s);
                    assert(l == seq![(y, vy)] + (seq![(x, vx)] + t));
                    assert(r == seq![(y, vy)] + assign(s, x, vx));
                } else {
                    assert(assign(s, y, vy) == seq![s[0]] + assign(t, y, vy));
                    assert(l == seq![(x, vx)] + assign(t, y, vy));
                    assert(r == seq![(x, vx)] + assign(t, y, vy));
                }
            } else if h == y {
                assert(assign(s, y, vy) == seq![(y, vy)] + t);
                if name_lt(x, h) {
                    assert(assign(s, x, vx) == seq![(x, vx)] + s);
                    assert(r == seq![(x, vx)] + (seq![(y, vy)] + t));
                    assert(l == seq![(x, vx)] + assign(s, y, vy));
                } else {
                    assert(assign(s, x, vx) == seq![s[0]] + assign(t, x, vx));
                    assert(r == seq![(y, vy)] + assign(t, x, vx));
                    assert(l == seq![(y, vy)] + assign(t, x, vx));
                }
            } else if name_lt(x, h) && name_lt(y, h) {
                assert(assign(s, x, vx) == seq![(x, vx)] + s);
                assert(assign(s, y, vy) == seq![(y, vy)] + s);
                if name_lt(x, y) {
                    assert(l == seq![(x, vx)] + assign(s, y, vy));
                    assert(r == seq![(x, vx)] + (seq![(y, vy)] + s));
                } else {
                    assert(l == seq![(y, vy)] + (seq![(x, vx)] + s));
                    assert(r == seq![(y, vy)] + assign(s, x, vx));
                }
            } else if name_lt(x, h) {
                assert(assign(s, x, vx) == seq![(x, vx)] + s);
                assert(assign(s, y, vy) == seq![s[0]] + assign(t, y, vy));
                assert(l == seq![(x, vx)] + assign(s, y, vy));
                assert(r == seq![(x, vx)] + (seq![s[0]] + assign(t, y, vy)));
            } else {
                assert(assign(s, y, vy) == seq![(y, vy)] + s);
                assert(assign(s, x, vx) == seq![s[0]] + assign(t, x, vx));
                assert(r == seq![(y, vy)] + assign(s, x, vx));
                assert(l == seq![(y, vy)] + (seq![s[0]] + assign(t, x, vx)));
            }
        }
    }
}

proof fn lemma_cons(e: (Seq<char>, RelType), q: Seq<(Seq<char>, RelType)>)
    ensures
        (seq![e] + q).len() == q.len() + 1,
        (seq![e] + q)[0] == e,
        (seq![e] + q).drop_first() == q,
{
    assert((seq![e] + q).drop_first() =~= q);
}

} // verus!
