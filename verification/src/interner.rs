//! A string interner: each distinct string gets the number of its first
//! appearance.
use vstd::prelude::*;

verus! {

pub struct StringInterner {
    strings: Vec<String>,
}

/// The position of the first occurrence of `s` in `table`, if any.
pub open spec fn first_index(table: Seq<Seq<char>>, s: Seq<char>) -> Option<nat>
    decreases table.len(),
{
    if table.len() == 0 {
        None
    } else {
        match first_index(table.drop_last(), s) {
            Some(i) => Some(i),
            None => if table.last() == s {
                Some((table.len() - 1) as nat)
            } else {
                None
            },
        }
    }
}

/// Interning `s`: the table after it, and the number given to `s`.
pub open spec fn intern_spec(table: Seq<Seq<char>>, s: Seq<char>) -> (Seq<Seq<char>>, nat) {
    match first_index(table, s) {
        Some(i) => (table, i),
        None => (table.push(s), table.len()),
    }
}

proof fn lemma_first_index(table: Seq<Seq<char>>, s: Seq<char>)
    ensures
        match first_index(table, s) {
            Some(i) => i < table.len() && table[i as int] == s && forall|j: int|
                0 <= j < i ==> table[j] != s,
            None => forall|j: int| 0 <= j < table.len() ==> table[j] != s,
        },
    decreases table.len(),
{
    if table.len() > 0 {
        let t = table.drop_last();
        lemma_first_index(t, s);
        assert forall|j: int| 0 <= j < t.len() implies t[j] == table[j] by {}
    }
}

impl View for StringInterner {
    type V = Seq<Seq<char>>;

    closed spec fn view(&self) -> Seq<Seq<char>> {
        Seq::new(self.strings@.len(), |i: int| self.strings@[i]@)
    }
}

impl StringInterner {
    pub fn new() -> (r: Self)
        ensures
            r@ == Seq::<Seq<char>>::empty(),
    {
        let r = StringInterner { strings: Vec::new() };
        proof {
            assert(r@ =~= Seq::<Seq<char>>::empty());
        }
        r
    }

    /// An empty interner with room for `capacity` strings.
    pub fn with_capacity(capacity: usize) -> (r: Self)
        ensures
            r@ == Seq::<Seq<char>>::empty(),
    {
        let r = StringInterner { strings: Vec::with_capacity(capacity) };
        proof {
            assert(r@ =~= Seq::<Seq<char>>::empty());
        }
        r
    }

    /// The number of `s`, if it has been interned.
    pub fn get_id(&self, s: &str) -> (r: Option<usize>)
        ensures
            match first_index(self@, s@) {
                Some(i) => r == Some(i as usize),
                None => r is None,
            },
    {
        proof {
            lemma_first_index(self@, s@);
        }
        let mut key = String::new();
        key.append(s);
        let mut i: usize = 0;
        while i < self.strings.len()
            invariant
                i <= self.strings@.len(),
                key@ == s@,
                forall|j: int| 0 <= j < i ==> self@[j] != s@,
            decreases self.strings.len() - i,
        {
            if self.strings[i] == key {
                proof {
                    assert(self@[i as int] == s@);
                    lemma_first_index(self@, s@);
                    if first_index(self@, s@) is None {
                        assert(false);
                    } else {
                        let k = first_index(self@, s@)->0;
                        if k < i {
                            assert(self@[k as int] != s@);
                        }
                        if k > i {
                            assert(self@[i as int] != s@);
                        }
                    }
                }
                return Some(i);
            }
            i += 1;
        }
        None
    }

    /// The number of `s`, interning it first if it is new.
    pub fn intern(&mut self, s: &str) -> (r: usize)
        ensures
            (final(self)@, r as nat) == intern_spec(old(self)@, s@),
    {
        proof {
            lemma_first_index(self@, s@);
        }
        let n = self.strings.len();
        match self.get_id(s) {
            Some(i) => i,
            None => {
                self.strings.push(s.to_owned());
                proof {
                    assert(self@ =~= old(self)@.push(s@));
                }
                n
            },
        }
    }

    /// The string numbered `id`, if there is one.
    pub fn get(&self, id: usize) -> (r: Option<&str>)
        ensures
            match r {
                Some(s) => id < self@.len() && s@ == self@[id as int],
                None => id >= self@.len(),
            },
    {
        if id < self.strings.len() {
            Some(self.strings[id].as_str())
        } else {
            None
        }
    }

    /// The number of strings interned.
    pub fn len(&self) -> (r: usize)
        ensures
            r == self@.len(),
    {
        self.strings.len()
    }

    /// A copy of the interner.
    pub fn copy(&self) -> (r: Self)
        ensures
            r@ == self@,
    {
        let mut strings: Vec<String> = Vec::new();
        let mut i: usize = 0;
        while i < self.strings.len()
            invariant
                i <= self.strings@.len(),
                strings@.len() == i,
                forall|j: int| 0 <= j < i ==> strings@[j]@ == self.strings@[j]@,
            decreases self.strings.len() - i,
        {
            strings.push(self.strings[i].clone());
            i += 1;
        }
        let r = StringInterner { strings };
        proof {
            assert(r@ =~= self@);
        }
        r
    }
}

/// Interning a string twice gives one number, the table does not change
/// the second time, and the number leads back to the string.
pub proof fn law_intern_idempotent(table: Seq<Seq<char>>, s: Seq<char>)
    ensures
        ({
            let (t1, i1) = intern_spec(table, s);
            let (t2, i2) = intern_spec(t1, s);
            &&& i2 == i1
            &&& t2 == t1
            &&& i1 < t1.len()
            &&& t1[i1 as int] == s
        }),
{
    lemma_first_index(table, s);
    let (t1, i1) = intern_spec(table, s);
    lemma_first_index(t1, s);
    if first_index(table, s) is None {
        assert(t1[table.len() as int] == s);
        assert forall|j: int| 0 <= j < table.len() implies t1[j] != s by {
            assert(t1[j] == table[j]);
        }
    }
}

/// Interning two different strings gives two different numbers.
pub proof fn law_intern_distinct(table: Seq<Seq<char>>, a: Seq<char>, b: Seq<char>)
    requires
        a != b,
    ensures
        ({
            let (t1, i) = intern_spec(table, a);
            let (t2, j) = intern_spec(t1, b);
            i != j
        }),
{
    lemma_first_index(table, a);
    let (t1, i) = intern_spec(table, a);
    lemma_first_index(t1, b);
    let (t2, j) = intern_spec(t1, b);
    assert(t1[i as int] == a);
    assert(t2[j as int] == b);
    assert(t2[i as int] == t1[i as int]);
}

} // verus!
