//! A small header map: name/value pairs with at most one value per name,
//! in insertion order.

use crate::text::str_eq;
use vstd::prelude::*;

verus! {

/// One header: a name and its value bytes.
pub struct HeaderField {
    pub name: String,
    pub value: Vec<u8>,
}

/// The headers of a request or response, each name held at most once, in
/// the order they were first inserted. Its view is the sequence of
/// name/value pairs.
pub struct Headers {
    entries: Vec<HeaderField>,
}

impl View for Headers {
    type V = Seq<(Seq<char>, Seq<u8>)>;

    closed spec fn view(&self) -> Seq<(Seq<char>, Seq<u8>)> {
        self.entries@.map_values(|f: HeaderField| (f.name@, f.value@))
    }
}

/// `hs` with `n` bound to `v`: replaced in place where `n` already occurs,
/// appended otherwise.
pub open spec fn spec_insert(
    hs: Seq<(Seq<char>, Seq<u8>)>,
    n: Seq<char>,
    v: Seq<u8>,
) -> Seq<(Seq<char>, Seq<u8>)>
    decreases hs.len(),
{
    if hs.len() == 0 {
        seq![(n, v)]
    } else if hs.first().0 == n {
        seq![(n, v)] + hs.drop_first()
    } else {
        seq![hs.first()] + spec_insert(hs.drop_first(), n, v)
    }
}

/// The value bound to `n` in `hs`, if any.
pub open spec fn spec_get(hs: Seq<(Seq<char>, Seq<u8>)>, n: Seq<char>) -> Option<Seq<u8>>
    decreases hs.len(),
{
    if hs.len() == 0 {
        None
    } else if hs.first().0 == n {
        Some(hs.first().1)
    } else {
        spec_get(hs.drop_first(), n)
    }
}

/// After an insert, the inserted name is bound to the inserted value.
pub proof fn lemma_get_after_insert(hs: Seq<(Seq<char>, Seq<u8>)>, n: Seq<char>, v: Seq<u8>)
    ensures
        spec_get(spec_insert(hs, n, v), n) == Some(v),
    decreases hs.len(),
{
    if hs.len() != 0 && hs.first().0 != n {
        lemma_get_after_insert(hs.drop_first(), n, v);
        assert((seq![hs.first()] + spec_insert(hs.drop_first(), n, v)).drop_first()
            =~= spec_insert(hs.drop_first(), n, v));
    }
}

/// After an insert, every other name is bound as before.
pub proof fn lemma_get_other_after_insert(
    hs: Seq<(Seq<char>, Seq<u8>)>,
    n: Seq<char>,
    v: Seq<u8>,
    m: Seq<char>,
)
    requires
        m != n,
    ensures
        spec_get(spec_insert(hs, n, v), m) == spec_get(hs, m),
    decreases hs.len(),
{
    if hs.len() == 0 {
        assert(spec_insert(hs, n, v) == seq![(n, v)]);
        assert(spec_insert(hs, n, v).first().0 == n);
        assert(spec_insert(hs, n, v).drop_first() =~= Seq::<(Seq<char>, Seq<u8>)>::empty());
        assert(spec_get(Seq::<(Seq<char>, Seq<u8>)>::empty(), m) is None);
        assert(spec_get(spec_insert(hs, n, v), m) is None);
    } else if hs.first().0 == n {
        assert(spec_insert(hs, n, v) == seq![(n, v)] + hs.drop_first());
        assert(spec_insert(hs, n, v).first() == (n, v));
        assert(spec_insert(hs, n, v).drop_first() =~= hs.drop_first());
        assert(spec_get(spec_insert(hs, n, v), m) == spec_get(hs.drop_first(), m));
        assert(spec_get(hs, m) == spec_get(hs.drop_first(), m));
    } else {
        lemma_get_other_after_insert(hs.drop_first(), n, v, m);
        assert(spec_insert(hs, n, v) == seq![hs.first()] + spec_insert(hs.drop_first(), n, v));
        assert(spec_insert(hs, n, v).first() == hs.first());
        assert((seq![hs.first()] + spec_insert(hs.drop_first(), n, v)).drop_first()
            =~= spec_insert(hs.drop_first(), n, v));
    }
}

/// Inserting grows the map by one entry exactly when the name was absent.
pub proof fn lemma_insert_len(hs: Seq<(Seq<char>, Seq<u8>)>, n: Seq<char>, v: Seq<u8>)
    ensures
        spec_insert(hs, n, v).len() == if spec_get(hs, n) is Some {
            hs.len() as int
        } else {
            hs.len() + 1int
        },
    decreases hs.len(),
{
    if hs.len() != 0 && hs.first().0 != n {
        lemma_insert_len(hs.drop_first(), n, v);
    }
}

/// Where the first `k` entries do not carry `n`, an insert keeps them and
/// works on the rest.
proof fn lemma_insert_split(hs: Seq<(Seq<char>, Seq<u8>)>, n: Seq<char>, v: Seq<u8>, k: int)
    requires
        0 <= k <= hs.len(),
        forall|j: int| 0 <= j < k ==> (#[trigger] hs[j]).0 != n,
    ensures
        spec_insert(hs, n, v) =~= hs.take(k) + spec_insert(hs.skip(k), n, v),
    decreases k,
{
    if k == 0 {
        assert(hs.skip(0) =~= hs);
        assert(hs.take(0) + spec_insert(hs, n, v) =~= spec_insert(hs, n, v));
    } else {
        assert(hs[0].0 != n);
        lemma_insert_split(hs.drop_first(), n, v, k - 1);
        assert(hs.drop_first().take(k - 1) =~= hs.take(k).drop_first());
        assert(hs.drop_first().skip(k - 1) =~= hs.skip(k));
        assert(seq![hs.first()] + (hs.drop_first().take(k - 1) + spec_insert(
            hs.drop_first().skip(k - 1),
            n,
            v,
        )) =~= hs.take(k) + spec_insert(hs.skip(k), n, v));
    }
}

/// Where the first `k` entries do not carry `n`, a lookup works on the
/// rest.
proof fn lemma_get_split(hs: Seq<(Seq<char>, Seq<u8>)>, n: Seq<char>, k: int)
    requires
        0 <= k <= hs.len(),
        forall|j: int| 0 <= j < k ==> (#[trigger] hs[j]).0 != n,
    ensures
        spec_get(hs, n) == spec_get(hs.skip(k), n),
    decreases k,
{
    if k == 0 {
        assert(hs.skip(0) =~= hs);
    } else {
        assert(hs[0].0 != n);
        lemma_get_split(hs.drop_first(), n, k - 1);
        assert(hs.drop_first().skip(k - 1) =~= hs.skip(k));
    }
}

impl Headers {
    /// A map with no headers.
    pub fn new() -> (r: Self)
        ensures
            r@ == Seq::<(Seq<char>, Seq<u8>)>::empty(),
    {
        let r = Headers { entries: Vec::new() };
        proof {
            assert(r@ =~= Seq::<(Seq<char>, Seq<u8>)>::empty());
        }
        r
    }

    /// How many headers the map holds.
    pub fn len(&self) -> (n: usize)
        ensures
            n == self@.len(),
    {
        self.entries.len()
    }

    /// Bind `name` to `value`, replacing in place any value it had.
    pub fn insert(&mut self, name: String, value: Vec<u8>)
        ensures
            final(self)@ == spec_insert(old(self)@, name@, value@),
    {
        let ghost hs = self@;
        let n = self.entries.len();
        let mut i: usize = 0;
        while i < n
            invariant
                n == self.entries@.len(),
                i <= n,
                hs == self@,
                hs == old(self)@,
                forall|j: int| 0 <= j < i ==> (#[trigger] hs[j]).0 != name@,
            decreases n - i,
        {
            proof {
                assert(hs[i as int] == (self.entries@[i as int].name@,
                self.entries@[i as int].value@));
            }
            if str_eq(self.entries[i].name.as_str(), name.as_str()) {
                let ghost nv = (name@, value@);
                self.entries[i] = HeaderField { name, value };
                proof {
                    lemma_insert_split(hs, nv.0, nv.1, i as int);
                    assert(hs.skip(i as int).len() > 0);
                    assert(hs.skip(i as int).first() == hs[i as int]);
                    assert(hs.skip(i as int).first().0 == nv.0);
                    assert(spec_insert(hs.skip(i as int), nv.0, nv.1) == seq![nv] + hs.skip(
                        i as int,
                    ).drop_first());
                    assert(hs.skip(i as int).drop_first() =~= hs.skip(i + 1));
                    assert(self@ =~= hs.update(i as int, nv));
                    assert(hs.take(i as int) + (seq![nv] + hs.skip(i + 1)) =~= hs.update(
                        i as int,
                        nv,
                    ));
                    assert(spec_insert(hs, nv.0, nv.1) == hs.update(i as int, nv));
                    assert(self@ == spec_insert(hs, nv.0, nv.1));
                    assert(self@ == spec_insert(old(self)@, nv.0, nv.1));
                }
                return ;
            }
            i = i + 1;
        }
        self.entries.push(HeaderField { name, value });
        proof {
            lemma_insert_split(hs, name@, value@, hs.len() as int);
            assert(hs.skip(hs.len() as int) =~= Seq::<(Seq<char>, Seq<u8>)>::empty());
            assert(self@ =~= hs + seq![(name@, value@)]);
            assert(hs.take(hs.len() as int) =~= hs);
        }
    }

    /// The fields in order: each one is one pair of the view.
    pub fn fields(&self) -> (r: &Vec<HeaderField>)
        ensures
            r@.map_values(|f: HeaderField| (f.name@, f.value@)) == self@,
    {
        &self.entries
    }

    /// A copy of the value bound to `name`, if any.
    pub fn get(&self, name: &str) -> (r: Option<Vec<u8>>)
        ensures
            match r {
                Some(v) => spec_get(self@, name@) == Some(v@),
                None => spec_get(self@, name@) is None,
            },
    {
        let ghost hs = self@;
        let n = self.entries.len();
        let mut i: usize = 0;
        while i < n
            invariant
                n == self.entries@.len(),
                hs == self@,
                i <= n,
                forall|j: int| 0 <= j < i ==> (#[trigger] hs[j]).0 != name@,
            decreases n - i,
        {
            proof {
                assert(hs[i as int] == (self.entries@[i as int].name@,
                self.entries@[i as int].value@));
            }
            if str_eq(self.entries[i].name.as_str(), name) {
                let v = self.entries[i].value.clone();
                proof {
                    lemma_get_split(hs, name@, i as int);
                    assert(hs.skip(i as int).first() == hs[i as int]);
                    assert(v@ =~= self.entries@[i as int].value@);
                }
                return Some(v);
            }
            i = i + 1;
        }
        proof {
            lemma_get_split(hs, name@, hs.len() as int);
            assert(hs.skip(hs.len() as int) =~= Seq::<(Seq<char>, Seq<u8>)>::empty());
        }
        None
    }
}

} // verus!
