//! A store for the strings of a running Lox program.
//!
//! Normally "GC" stands for "garbage collector", but in this codebase, "GC" just stands for
//! "garbage": every string stored is kept until the store is dropped, and each distinct string is
//! kept once.
//!
//! Things like the compiler and the VM need the active store. Create one with [ActiveGC::install]
//! and hand it to them.
use vstd::prelude::*;

verus! {

/// A garbage collector, which is really more of a big store of all dynamic data in the
/// application. For now, it's just string data, and there is no reference counting so all strings
/// are kept forever until the GC is dropped.
#[derive(Clone, Debug)]
pub struct GC {
    strings: Vec<String>,
}

/// The store that the compiler and the VM use while Lox code runs. The only ways to obtain one
/// are [ActiveGC::install] and [GC::into_active_gc].
#[derive(Debug)]
pub struct ActiveGC {
    gc: GC,
}

impl GC {
    /// The stored strings, in the order they were first stored.
    pub closed spec fn interned(&self) -> Seq<Seq<char>> {
        self.strings@.map_values(|s: String| s@)
    }

    /// No string is stored twice, and finitely many are stored.
    pub closed spec fn wf(&self) -> bool {
        &&& self.interned().no_duplicates()
        &&& self@.finite()
    }
}

impl View for GC {
    type V = Set<Seq<char>>;

    /// The set of stored strings.
    closed spec fn view(&self) -> Set<Seq<char>> {
        self.interned().to_set()
    }
}

impl View for ActiveGC {
    type V = Set<Seq<char>>;

    closed spec fn view(&self) -> Set<Seq<char>> {
        self.gc@
    }
}

impl ActiveGC {
    /// The store inside keeps each string once.
    pub closed spec fn wf(&self) -> bool {
        self.gc.wf()
    }
}

impl Default for GC {
    fn default() -> (gc: GC)
        ensures
            gc.wf(),
            gc@ == Set::<Seq<char>>::empty(),
    {
        let gc = GC { strings: Vec::new() };
        assert(gc.interned() =~= Seq::<Seq<char>>::empty());
        proof {
            vstd::seq_lib::seq_to_set_is_finite(gc.interned());
        }
        assert(gc@ =~= Set::<Seq<char>>::empty());
        gc
    }
}

impl GC {
    /// Adds a string to storage. Returns a reference to the stored string.
    pub fn store_string(&mut self, owned: String) -> (stored: &str)
        requires
            old(self).wf(),
        ensures
            final(self).wf(),
            stored@ == owned@,
            final(self)@ == old(self)@.insert(owned@),
            final(self)@.len() == old(self)@.len() + if old(self)@.contains(owned@) {
                0int
            } else {
                1int
            },
    {
        proof {
            law_store_counts_distinct(old(self)@, owned@);
        }
        let ghost before = self.interned();
        let mut i: usize = 0;
        while i < self.strings.len()
            invariant
                self.wf(),
                self.interned() == before,
                *self == *old(self),
                i <= self.strings@.len(),
                forall|k: int| 0 <= k < i ==> before[k] != owned@,
            decreases self.strings@.len() - i,
        {
            if self.strings[i] == owned {
                proof {
                    assert(self@.contains(owned@)) by {
                        assert(before[i as int] == owned@);
                    }
                    assert(self@.insert(owned@) =~= self@);
                }
                return self.strings[i].as_str();
            }
            i = i + 1;
        }
        self.strings.push(owned);
        proof {
            vstd::seq_lib::seq_to_set_is_finite(self.interned());
            assert(self.interned() =~= before.push(owned@));
            assert(!before.contains(owned@));
            assert(self@ =~= old(self)@.insert(owned@)) by {
                assert forall|s: Seq<char>| self@.contains(s) <==> old(self)@.insert(owned@).contains(s) by {
                    if self@.contains(s) {
                        let k = choose|k: int| 0 <= k < self.interned().len() && self.interned()[k] == s;
                        if k < before.len() {
                            assert(before[k] == s);
                        }
                    }
                    if old(self)@.contains(s) {
                        let k = choose|k: int| 0 <= k < before.len() && before[k] == s;
                        assert(self.interned()[k] == s);
                    }
                    if s == owned@ {
                        assert(self.interned()[before.len() as int] == s);
                    }
                }
            }
        }
        let n = self.strings.len();
        self.strings[n - 1].as_str()
    }

    /// Consume self and convert it into the [ActiveGC].
    pub fn into_active_gc(self) -> (active: ActiveGC)
        ensures
            active.wf() == self.wf(),
            active@ == self@,
    {
        ActiveGC { gc: self }
    }

    /// Return how many strings are currently stored.
    pub fn n_strings(&self) -> (n: usize)
        requires
            self.wf(),
        ensures
            n == self@.len(),
    {
        proof {
            self.interned().unique_seq_to_set();
        }
        self.strings.len()
    }
}

impl ActiveGC {
    /// Create an empty [GC] and make it the active one.
    pub fn install() -> (active: ActiveGC)
        ensures
            active.wf(),
            active@ == Set::<Seq<char>>::empty(),
    {
        GC::default().into_active_gc()
    }

    /// Store a string in the active [GC]. Returns a reference to the stored string.
    pub fn store_string(&mut self, s: String) -> (stored: &str)
        requires
            old(self).wf(),
        ensures
            final(self).wf(),
            stored@ == s@,
            final(self)@ == old(self)@.insert(s@),
            final(self)@.len() == old(self)@.len() + if old(self)@.contains(s@) {
                0int
            } else {
                1int
            },
    {
        self.gc.store_string(s)
    }

    /// Return how many strings are currently stored.
    pub fn n_strings(&self) -> (n: usize)
        requires
            self.wf(),
        ensures
            n == self@.len(),
    {
        self.gc.n_strings()
    }
}

/// Storing a string that is already stored changes nothing; storing a new one adds exactly one:
/// the store counts distinct strings.
pub proof fn law_store_counts_distinct(stored: Set<Seq<char>>, s: Seq<char>)
    requires
        stored.finite(),
    ensures
        stored.insert(s).insert(s) == stored.insert(s),
        stored.contains(s) ==> stored.insert(s) == stored,
        stored.insert(s).len() == stored.len() + if stored.contains(s) {
            0int
        } else {
            1int
        },
{
    assert(stored.insert(s).insert(s) =~= stored.insert(s));
    if stored.contains(s) {
        assert(stored.insert(s) =~= stored);
    }
}

} // verus!
