//! Interning of identifier and literal strings.

use vstd::prelude::*;
use crate::ids::InternedString;

verus! {

/// A table of distinct strings; a string's handle is its position in the table.
#[derive(Debug)]
pub struct StringTable {
    strings: Vec<String>,
}

impl View for StringTable {
    type V = Seq<Seq<char>>;

    closed spec fn view(&self) -> Seq<Seq<char>> {
        self.strings@.map_values(|s: String| s@)
    }
}

/// `after` is `before` after interning `s` under handle `id`: the handle names `s`, and the
/// table grew by `s` exactly when it did not hold it yet.
pub open spec fn interned(before: Seq<Seq<char>>, after: Seq<Seq<char>>, s: Seq<char>, id: InternedString) -> bool {
    &&& (id as int) < after.len()
    &&& after[id as int] == s
    &&& before.contains(s) ==> after == before
    &&& !before.contains(s) ==> after == before.push(s)
}

impl StringTable {
    /// No string occurs twice in the table.
    pub open spec fn wf(&self) -> bool {
        self@.no_duplicates()
    }

    /// An empty table.
    pub fn new() -> (t: Self)
        ensures
            t@ == Seq::<Seq<char>>::empty(),
            t.wf(),
    {
        StringTable { strings: Vec::new() }
    }

    /// Returns the handle of `s`, adding it at the end of the table if it is not present.
    pub fn intern(&mut self, s: &str) -> (id: InternedString)
        requires
            old(self).wf(),
            old(self)@.len() < u32::MAX,
        ensures
            final(self).wf(),
            interned(old(self)@, final(self)@, s@, id),
    {
        let key = String::from_str(s);
        let n = self.strings.len();
        let mut i: usize = 0;
        while i < n
            invariant
                n == self.strings@.len(),
                0 <= i <= n,
                key@ == s@,
                self == old(self),
                self.wf(),
                n < u32::MAX,
                forall|j: int| 0 <= j < i ==> self@[j] != s@,
            decreases n - i,
        {
            if self.strings[i] == key {
                assert(self@[i as int] == self.strings@[i as int]@);
                return i as u32;
            }
            assert(self@[i as int] == self.strings@[i as int]@);
            i = i + 1;
        }
        assert(!old(self)@.contains(s@));
        self.strings.push(key);
        proof {
            assert(self@ =~= old(self)@.push(s@));
            assert forall|a: int, b: int| 0 <= a < b < self@.len() implies self@[a] != self@[b] by {
                if b == n {
                    assert(old(self)@[a] != s@);
                } else {
                    assert(old(self)@[a] != old(self)@[b]);
                }
            }
        }
        n as u32
    }

    /// The number of strings in the table.
    pub fn len(&self) -> (n: usize)
        ensures
            n == self@.len(),
    {
        self.strings.len()
    }

    /// The string with handle `id`.
    pub fn resolve(&self, id: InternedString) -> (s: &str)
        requires
            (id as int) < self@.len(),
        ensures
            s@ == self@[id as int],
    {
        self.strings[id as usize].as_str()
    }
}

/// Law: interning a string a second time gives the same handle and leaves the table as it
/// was.
pub proof fn lemma_intern_twice(
    t0: Seq<Seq<char>>,
    t1: Seq<Seq<char>>,
    t2: Seq<Seq<char>>,
    s: Seq<char>,
    a: InternedString,
    b: InternedString,
)
    requires
        t0.no_duplicates(),
        interned(t0, t1, s, a),
        interned(t1, t2, s, b),
    ensures
        a == b,
        t2 == t1,
{
    assert(t1.contains(s)) by {
        assert(t1[a as int] == s);
    }
    assert(t1.no_duplicates()) by {
        if !t0.contains(s) {
            assert forall|i: int, j: int| 0 <= i < j < t1.len() implies t1[i] != t1[j] by {
                if j == t0.len() {
                    assert(t0[i] != s);
                } else {
                    assert(t0[i] == t1[i] && t0[j] == t1[j]);
                }
            }
        }
    }
}

/// Law: distinct strings get distinct handles.
pub proof fn lemma_intern_distinct(
    t0: Seq<Seq<char>>,
    t1: Seq<Seq<char>>,
    t2: Seq<Seq<char>>,
    s: Seq<char>,
    u: Seq<char>,
    a: InternedString,
    b: InternedString,
)
    requires
        interned(t0, t1, s, a),
        interned(t1, t2, u, b),
        s != u,
    ensures
        a != b,
{
    if a == b {
        assert(t2[a as int] == t1[a as int]);
    }
}

} // verus!
