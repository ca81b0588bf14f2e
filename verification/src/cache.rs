//! The response cache: process-lifetime memoization of inference results,
//! keyed by a fingerprint of every input that affects generation output
//! (normalized prompt, model identifier, temperature). A lookup for one
//! fingerprint can never observe a value stored under different generation
//! parameters.
use vstd::prelude::*;
use crate::text::str_eq;

verus! {

/// Cache key: all generation-relevant inputs. Temperature is carried in
/// thousandths so that fingerprint equality is exact.
pub struct Fingerprint {
    pub prompt: String,
    pub model: String,
    pub temperature_milli: u32,
}

/// The mathematical value of a fingerprint.
pub type FingerprintView = (Seq<char>, Seq<char>, u32);

impl View for Fingerprint {
    type V = FingerprintView;

    open spec fn view(&self) -> FingerprintView {
        (self.prompt@, self.model@, self.temperature_milli)
    }
}

impl Fingerprint {
    /// Runtime fingerprint equality, the exact relation of the views.
    pub fn same_key(&self, other: &Fingerprint) -> (r: bool)
        ensures
            r == (self@ == other@),
    {
        let r = str_eq(self.prompt.as_str(), other.prompt.as_str())
            && str_eq(self.model.as_str(), other.model.as_str())
            && self.temperature_milli == other.temperature_milli;
        r
    }
}

/// First-match lookup over the entry list; newest entries stand in front, so
/// the last writer for a key wins.
pub open spec fn spec_lookup(entries: Seq<(FingerprintView, Seq<char>)>, k: FingerprintView) -> Option<
    Seq<char>,
>
    decreases entries.len(),
{
    if entries.len() == 0 {
        None
    } else if entries[0].0 == k {
        Some(entries[0].1)
    } else {
        spec_lookup(entries.drop_first(), k)
    }
}

/// Keyed store of previously generated responses.
pub struct ResponseCache {
    entries: Vec<(Fingerprint, String)>,
}

impl View for ResponseCache {
    type V = Seq<(FingerprintView, Seq<char>)>;

    closed spec fn view(&self) -> Seq<(FingerprintView, Seq<char>)> {
        self.entries@.map_values(|e: (Fingerprint, String)| (e.0@, e.1@))
    }
}

impl ResponseCache {
    /// An empty cache.
    pub fn new() -> (r: ResponseCache)
        ensures
            r@.len() == 0,
    {
        ResponseCache { entries: Vec::new() }
    }

    /// Looks a fingerprint up; a definite miss is an ordinary answer, never
    /// an error.
    #[verifier::loop_isolation(false)]
    pub fn get(&self, k: &Fingerprint) -> (r: Option<String>)
        ensures
            match r {
                Some(v) => spec_lookup(self@, k@) == Some(v@),
                None => spec_lookup(self@, k@) is None,
            },
    {
        let n = self.entries.len();
        let mut i: usize = 0;
        proof {
            assert(self@.skip(0) =~= self@);
        }
        while i < n
            invariant
                i <= n,
                n == self.entries@.len(),
                spec_lookup(self@, k@) == spec_lookup(self@.skip(i as int), k@),
            decreases n - i,
        {
            proof {
                assert(self@[i as int] == (self.entries@[i as int].0@, self.entries@[i as int].1@));
            }
            if self.entries[i].0.same_key(k) {
                let v = self.entries[i].1.clone();
                proof {
                    assert(self@.skip(i as int)[0] == self@[i as int]);
                }
                return Some(v);
            }
            proof {
                assert(self@.skip(i as int)[0] == self@[i as int]);
                assert(self@.skip(i as int).drop_first() =~= self@.skip(i as int + 1));
            }
            i = i + 1;
        }
        proof {
            assert(self@.skip(n as int) =~= Seq::<(FingerprintView, Seq<char>)>::empty());
        }
        None
    }

    /// Stores a response for a fingerprint. The new entry shadows any prior
    /// entry for the same key (last writer wins); every other key reads
    /// exactly as before.
    pub fn put(&mut self, k: Fingerprint, v: String)
        ensures
            final(self)@ == old(self)@.insert(0, (k@, v@)),
            spec_lookup(final(self)@, k@) == Some(v@),
            forall|k2: FingerprintView|
                k2 != k@ ==> #[trigger] spec_lookup(final(self)@, k2) == spec_lookup(old(self)@, k2),
            final(self)@.len() == old(self)@.len() + 1,
    {
        let ghost pre = self@;
        self.entries.insert(0, (k, v));
        proof {
            assert(self@ =~= pre.insert(0, (k@, v@)));
            assert(self@.drop_first() =~= pre);
        }
    }

    /// Parameter-isolation law: storing a response under one fingerprint
    /// never changes what any fingerprint with a different model or a
    /// different temperature reads, even for the identical prompt text.
    pub proof fn lemma_changed_params_never_reuse(
        entries: Seq<(FingerprintView, Seq<char>)>,
        k1: FingerprintView,
        v: Seq<char>,
        k2: FingerprintView,
    )
        requires
            k1.1 != k2.1 || k1.2 != k2.2,
        ensures
            spec_lookup(entries.insert(0, (k1, v)), k2) == spec_lookup(entries, k2),
    {
        let stored = entries.insert(0, (k1, v));
        assert(stored[0].0 == k1);
        assert(k1 != k2);
        assert(stored.drop_first() =~= entries);
    }
}

} // verus!
