//! The flag store: the one-way channel from the extraction phase to the
//! gating phase.
//!
//! The extractor appends flag strings while it scans; the gating layer only
//! asks "is flag F set".  The store's abstract contents are a set of flag
//! strings, so registering the same flag more than once is harmless by
//! construction, and the hand-off between the two phases is an explicit
//! value rather than ambient build state.

use vstd::prelude::*;

verus! {

/// Append-only set of published flag strings.
pub struct FlagStore {
    flags: Vec<String>,
}

impl View for FlagStore {
    type V = Set<Seq<char>>;

    closed spec fn view(&self) -> Set<Seq<char>> {
        self.flags.deep_view().to_set()
    }
}

impl FlagStore {
    /// An empty store, as each build run starts with.
    pub fn new() -> (r: FlagStore)
        ensures
            r@ == Set::<Seq<char>>::empty(),
    {
        let r = FlagStore { flags: Vec::new() };
        proof {
            assert(r@ =~= Set::<Seq<char>>::empty());
        }
        r
    }

    /// Registers one flag.  Publishing is idempotent at the level of the
    /// store's contents: a flag already present leaves them unchanged.
    pub fn publish(&mut self, flag: String)
        ensures
            final(self)@ == old(self)@.insert(flag@),
    {
        let ghost f = flag@;
        let ghost dv0 = self.flags.deep_view();
        self.flags.push(flag);
        proof {
            let dv1 = self.flags.deep_view();
            assert(dv1 =~= dv0.push(f));
            assert forall|s: Seq<char>| dv1.contains(s) <==> (dv0.contains(s) || s == f) by {
                if dv1.contains(s) {
                    let i = choose|i: int| 0 <= i < dv1.len() && dv1[i] == s;
                    if i < dv0.len() {
                        assert(dv0[i] == s);
                    }
                }
                if dv0.contains(s) {
                    let i = choose|i: int| 0 <= i < dv0.len() && dv0[i] == s;
                    assert(dv1[i] == s);
                }
                if s == f {
                    assert(dv1[dv1.len() - 1] == s);
                }
            }
            assert(self@ =~= old(self)@.insert(f));
        }
    }

    /// Registers every flag of a scanned file, in order.
    pub fn publish_all(&mut self, flags: &Vec<String>)
        ensures
            final(self)@ == old(self)@ + flags.deep_view().to_set(),
    {
        let ghost dv = flags.deep_view();
        let mut i: usize = 0;
        while i < flags.len()
            invariant
                0 <= i <= flags.len(),
                dv == flags.deep_view(),
                dv.len() == flags.len(),
                self@ == old(self)@ + dv.take(i as int).to_set(),
            decreases flags.len() - i,
        {
            let flag = flags[i].clone();
            assert(flag@ == dv[i as int]);
            self.publish(flag);
            proof {
                let t0 = dv.take(i as int);
                let t1 = dv.take(i as int + 1);
                let fi = dv[i as int];
                assert forall|s: Seq<char>| t1.contains(s) <==> (t0.contains(s) || s == fi) by {
                    if t1.contains(s) {
                        let k = choose|k: int| 0 <= k < t1.len() && t1[k] == s;
                        if k < t0.len() {
                            assert(t0[k] == s);
                        }
                    }
                    if t0.contains(s) {
                        let k = choose|k: int| 0 <= k < t0.len() && t0[k] == s;
                        assert(t1[k] == s);
                    }
                    if s == dv[i as int] {
                        assert(t1[i as int] == s);
                    }
                }
                assert(old(self)@ + t0.to_set() + Set::empty().insert(dv[i as int]) =~= old(
                    self,
                )@ + t1.to_set());
                assert(self@ =~= old(self)@ + t1.to_set());
            }
            i += 1;
        }
        proof {
            assert(dv.take(flags.len() as int) =~= dv);
        }
    }

    /// Whether a flag is currently set; the gating layer's only question.
    pub fn is_set(&self, flag: &String) -> (r: bool)
        ensures
            r == self@.contains(flag@),
    {
        let ghost dv = self.flags.deep_view();
        let mut i: usize = 0;
        while i < self.flags.len()
            invariant
                0 <= i <= self.flags.len(),
                dv == self.flags.deep_view(),
                dv.len() == self.flags.len(),
                forall|k: int| 0 <= k < i ==> dv[k] != flag@,
            decreases self.flags.len() - i,
        {
            proof {
                assert(dv[i as int] == self.flags@[i as int].deep_view());
            }
            if self.flags[i] == *flag {
                assert(dv[i as int] == flag@);
                assert(dv.contains(flag@));
                return true;
            }
            i += 1;
        }
        proof {
            if dv.contains(flag@) {
                let k = choose|k: int| 0 <= k < dv.len() && dv[k] == flag@;
                assert(false);
            }
        }
        false
    }
}

} // verus!
