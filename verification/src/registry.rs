//! The registration registry: the process-wide table of task identities.
//!
//! It holds two associations: the driver entry registered once per identity,
//! and the set of identities currently active (initialized but not yet
//! finished). The surrounding host scheduler consults the active set each
//! tick and only invokes the drivers of active identities, so idle tasks
//! cost nothing beyond a table lookup.

use vstd::prelude::*;

verus! {

/// Whether some element of `ss` reads as the identity `k`.
pub open spec fn seq_has_name(ss: Seq<String>, k: Seq<char>) -> bool {
    exists|i: int| 0 <= i < ss.len() && ss[i]@ == k
}

/// The driver entry registered under identity `k`, if any.
pub open spec fn spec_entry(es: Seq<(String, u64)>, k: Seq<char>) -> Option<u64>
    decreases es,
{
    if es.len() == 0 {
        Option::None
    } else if es.last().0@ == k {
        Option::Some(es.last().1)
    } else {
        spec_entry(es.drop_last(), k)
    }
}

/// If no element carries the identity `k`, nothing is registered under it.
proof fn lemma_entry_absent(es: Seq<(String, u64)>, k: Seq<char>)
    requires
        forall|i: int| 0 <= i < es.len() ==> (#[trigger] es[i]).0@ != k,
    ensures
        spec_entry(es, k) is None,
    decreases es,
{
    if es.len() > 0 {
        assert(es.last() == es[es.len() - 1]);
        assert(forall|i: int|
            0 <= i < es.drop_last().len() ==> (#[trigger] es.drop_last()[i]).0@ != k);
        lemma_entry_absent(es.drop_last(), k);
    }
}

/// With unique keys, the element carrying identity `k` decides the lookup.
proof fn lemma_entry_present(es: Seq<(String, u64)>, k: Seq<char>, w: int)
    requires
        forall|i: int, j: int|
            0 <= i < j < es.len() ==> (#[trigger] es[i]).0@ != (#[trigger] es[j]).0@,
        0 <= w < es.len(),
        es[w].0@ == k,
    ensures
        spec_entry(es, k) == Option::Some(es[w].1),
    decreases es,
{
    assert(es.last() == es[es.len() - 1]);
    if w == es.len() - 1 {
    } else {
        assert(es[w].0@ != es[es.len() - 1].0@);
        assert(forall|i: int, j: int|
            0 <= i < j < es.drop_last().len() ==> (#[trigger] es.drop_last()[i]).0@
                != (#[trigger] es.drop_last()[j]).0@) by {
            assert(forall|i: int|
                0 <= i < es.drop_last().len() ==> es.drop_last()[i] == #[trigger] es[i]);
        }
        assert(es.drop_last()[w] == es[w]);
        lemma_entry_present(es.drop_last(), k, w);
    }
}

/// The registry: the active identities, and the identity-to-driver-entry
/// table populated at registration time.
#[derive(Debug)]
pub struct RunningCoroutines {
    /// The identities of currently active tasks, each held once.
    pub systems: Vec<String>,
    /// The registered driver entry of each identity, keys unique.
    pub register_systems: Vec<(String, u64)>,
}

impl RunningCoroutines {
    /// Identities appear at most once in either table.
    pub open spec fn wf(self) -> bool {
        &&& forall|i: int, j: int|
            0 <= i < j < self.systems@.len() ==> (#[trigger] self.systems@[i])@
                != (#[trigger] self.systems@[j])@
        &&& forall|i: int, j: int|
            0 <= i < j < self.register_systems@.len() ==> (#[trigger] self.register_systems@[i]).0@
                != (#[trigger] self.register_systems@[j]).0@
    }

    /// The set of currently active identities.
    pub open spec fn active(self) -> Set<Seq<char>> {
        Set::new(|k: Seq<char>| seq_has_name(self.systems@, k))
    }

    /// The driver entry registered under an identity, if any.
    pub open spec fn registered(self, k: Seq<char>) -> Option<u64> {
        spec_entry(self.register_systems@, k)
    }

    /// An empty registry: nothing registered, nothing active.
    pub fn new() -> (r: RunningCoroutines)
        ensures
            r.wf(),
            r.active() =~= Set::<Seq<char>>::empty(),
            r.register_systems@.len() == 0,
    {
        RunningCoroutines { systems: Vec::new(), register_systems: Vec::new() }
    }

    /// Registers a driver entry under an identity: an idempotent
    /// association. Registering an identity that is already present does not
    /// create a second entry; it re-associates the one entry. The active set
    /// is untouched.
    pub fn register_coroutine(&mut self, identity: String, entry: u64)
        requires
            old(self).wf(),
        ensures
            final(self).wf(),
            final(self).registered(identity@) == Option::Some(entry),
            forall|k: Seq<char>|
                k != identity@ ==> #[trigger] final(self).registered(k) == old(self).registered(k),
            old(self).registered(identity@) is Some ==> final(self).register_systems@.len() == old(
                self,
            ).register_systems@.len(),
            old(self).registered(identity@) is None ==> final(self).register_systems@.len() == old(
                self,
            ).register_systems@.len() + 1,
            final(self).systems == old(self).systems,
            final(self).active() == old(self).active(),
    {
        let ghost es0 = self.register_systems@;
        let n = self.register_systems.len();
        let mut i: usize = 0;
        #[verifier::loop_isolation(false)]
        while i < n
            invariant
                self.register_systems@ == es0,
                self.systems == old(self).systems,
                forall|j: int| 0 <= j < i ==> (#[trigger] es0[j]).0@ != identity@,
            decreases n - i,
        {
            if self.register_systems[i].0 == identity {
                let ghost w = i as int;
                let ghost gid = identity@;
                let pair = (identity, entry);
                let ghost pv = pair;
                self.register_systems.set(i, pair);
                proof {
                    let es1 = self.register_systems@;
                    assert(es1 == es0.update(w, pv));
                    assert(es0.update(w, pv)[w] == pv);
                    assert(es1[w] == pv && pv.1 == entry && pv.0@ == gid);
                    assert(es0[w].0@ == gid);
                    assert forall|j: int|
                        0 <= j < es1.len() && j != w implies #[trigger] es1[j] == es0[j] by {
                        assert(es0.update(w, pv)[j] == es0[j]);
                    }
                    assert forall|i2: int, j2: int|
                        0 <= i2 < j2 < es1.len() implies (#[trigger] es1[i2]).0@ != (
                    #[trigger] es1[j2]).0@ by {
                        assert(es0[i2].0@ != es0[j2].0@);
                        if i2 != w {
                            assert(es1[i2] == es0[i2]);
                        }
                        if j2 != w {
                            assert(es1[j2] == es0[j2]);
                        }
                    }
                    lemma_entry_present(es1, gid, w);
                    lemma_entry_present(es0, gid, w);
                    assert forall|k: Seq<char>|
                        k != gid implies #[trigger] spec_entry(es1, k) == spec_entry(
                        es0,
                        k,
                    ) by {
                        lemma_entry_other(es0, es1, k, w);
                    }
                }
                return ;
            }
            i = i + 1;
        }
        let ghost key = identity@;
        self.register_systems.push((identity, entry));
        proof {
            let es1 = self.register_systems@;
            assert(es1.last() == es1[es1.len() - 1]);
            assert(es1.drop_last() =~= es0);
            lemma_entry_absent(es0, key);
            assert(forall|i2: int, j2: int|
                0 <= i2 < j2 < es1.len() ==> (#[trigger] es1[i2]).0@ != (#[trigger] es1[j2]).0@)
                by {
                assert(forall|j: int| 0 <= j < es0.len() ==> es1[j] == #[trigger] es0[j]);
            }
            assert(spec_entry(es1, key) == Option::Some(entry));
            assert forall|k: Seq<char>| k != key implies #[trigger] spec_entry(es1, k)
                == spec_entry(es0, k) by {
                assert(es1.last().0@ != k);
            }
        }
    }

    /// Whether an identity is currently active.
    pub fn is_active(&self, identity: &String) -> (r: bool)
        ensures
            r == self.active().contains(identity@),
    {
        let n = self.systems.len();
        let mut i: usize = 0;
        #[verifier::loop_isolation(false)]
        while i < n
            invariant
                forall|j: int| 0 <= j < i ==> (#[trigger] self.systems@[j])@ != identity@,
            decreases n - i,
        {
            if self.systems[i] == *identity {
                proof {
                    assert(seq_has_name(self.systems@, identity@));
                }
                return true;
            }
            i = i + 1;
        }
        proof {
            assert(!seq_has_name(self.systems@, identity@));
        }
        false
    }

    /// Marks an identity active: flips it into the active set. Triggering an
    /// already-active identity changes nothing.
    pub fn mark_active(&mut self, identity: &String)
        requires
            old(self).wf(),
        ensures
            final(self).wf(),
            final(self).active() == old(self).active().insert(identity@),
            final(self).register_systems == old(self).register_systems,
    {
        let present = self.is_active(identity);
        if present {
            proof {
                assert(self.active() =~= self.active().insert(identity@));
            }
            return ;
        }
        let ghost ss0 = self.systems@;
        self.systems.push(identity.clone());
        proof {
            let ss1 = self.systems@;
            assert(ss1.last() == ss1[ss1.len() - 1]);
            assert(forall|j: int| 0 <= j < ss0.len() ==> ss1[j] == #[trigger] ss0[j]);
            assert(!seq_has_name(ss0, identity@));
            assert(forall|i2: int, j2: int|
                0 <= i2 < j2 < ss1.len() ==> (#[trigger] ss1[i2])@ != (#[trigger] ss1[j2])@);
            assert forall|k: Seq<char>| #[trigger]
                seq_has_name(ss1, k) <==> (seq_has_name(ss0, k) || k == identity@) by {
                if seq_has_name(ss1, k) {
                    let w = choose|w: int| 0 <= w < ss1.len() && ss1[w]@ == k;
                    if w < ss0.len() {
                        assert(ss0[w]@ == k);
                    }
                }
                if seq_has_name(ss0, k) {
                    let w = choose|w: int| 0 <= w < ss0.len() && ss0[w]@ == k;
                    assert(ss1[w]@ == k);
                }
                if k == identity@ {
                    assert(ss1[ss1.len() - 1]@ == k);
                }
            }
            assert(self.active() =~= old(self).active().insert(identity@));
        }
    }

    /// Marks an identity inactive: flips it out of the active set. An
    /// identity that is not active stays out.
    pub fn mark_inactive(&mut self, identity: &String)
        requires
            old(self).wf(),
        ensures
            final(self).wf(),
            final(self).active() == old(self).active().remove(identity@),
            final(self).register_systems == old(self).register_systems,
    {
        let ghost ss0 = self.systems@;
        let n = self.systems.len();
        let mut i: usize = 0;
        #[verifier::loop_isolation(false)]
        while i < n
            invariant
                self.systems@ == ss0,
                self.register_systems == old(self).register_systems,
                forall|j: int| 0 <= j < i ==> (#[trigger] ss0[j])@ != identity@,
            decreases n - i,
        {
            if self.systems[i] == *identity {
                let ghost w = i as int;
                self.systems.remove(i);
                proof {
                    let ss1 = self.systems@;
                    let rs = ss0.remove(w);
                    ss0.remove_ensures(w);
                    assert(ss1 == rs);
                    assert forall|i2: int, j2: int|
                        0 <= i2 < j2 < ss1.len() implies (#[trigger] ss1[i2])@ != (
                    #[trigger] ss1[j2])@ by {
                        let u1: int = if i2 < w {
                            i2
                        } else {
                            i2 + 1
                        };
                        let u2: int = if j2 < w {
                            j2
                        } else {
                            j2 + 1
                        };
                        assert(rs[i2] == ss0[u1]);
                        assert(rs[j2] == ss0[u2]);
                        assert(ss0[u1]@ != ss0[u2]@);
                    }
                    assert(ss0[w]@ == identity@);
                    assert forall|k: Seq<char>| #[trigger]
                        seq_has_name(ss1, k) <==> (seq_has_name(ss0, k) && k != identity@) by {
                        if seq_has_name(ss1, k) {
                            let v = choose|v: int| 0 <= v < ss1.len() && ss1[v]@ == k;
                            let u: int = if v < w {
                                v
                            } else {
                                v + 1
                            };
                            assert(rs[v] == ss0[u]);
                            assert(0 <= u < ss0.len() && ss0[u]@ == k && u != w);
                            assert(seq_has_name(ss0, k));
                            if k == identity@ {
                                if u < w {
                                    assert(ss0[u]@ != ss0[w]@);
                                } else {
                                    assert(ss0[w]@ != ss0[u]@);
                                }
                                assert(false);
                            }
                        }
                        if seq_has_name(ss0, k) && k != identity@ {
                            let v = choose|v: int| 0 <= v < ss0.len() && ss0[v]@ == k;
                            assert(v != w);
                            if v < w {
                                assert(rs[v] == ss0[v]);
                                assert(ss1[v]@ == k);
                            } else {
                                assert(rs[v - 1] == ss0[v]);
                                assert(ss1[v - 1]@ == k);
                            }
                        }
                    }
                    assert(self.active() =~= old(self).active().remove(identity@));
                }
                return ;
            }
            i = i + 1;
        }
        proof {
            assert(!seq_has_name(ss0, identity@));
            assert(self.active() =~= old(self).active().remove(identity@));
        }
    }

    /// The driver entries of the active identities, in registration order:
    /// what the host scheduler invokes this tick.
    pub fn active_entries(&self) -> (r: Vec<u64>)
        ensures
            r@ == spec_active_entries(self.register_systems@, self.active()),
    {
        let mut r: Vec<u64> = Vec::new();
        let n = self.register_systems.len();
        let mut i: usize = 0;
        proof {
            assert(self.register_systems@.subrange(0, 0) =~= Seq::<(String, u64)>::empty());
        }
        #[verifier::loop_isolation(false)]
        while i < n
            invariant
                i <= n,
                r@ == spec_active_entries(
                    self.register_systems@.subrange(0, i as int),
                    self.active(),
                ),
            decreases n - i,
        {
            let (name, entry) = &self.register_systems[i];
            let act = self.is_active(name);
            if act {
                r.push(*entry);
            }
            proof {
                let es = self.register_systems@;
                assert(es.subrange(0, i + 1).drop_last() =~= es.subrange(0, i as int));
                assert(es.subrange(0, i + 1).last() == es[i as int]);
            }
            i = i + 1;
        }
        proof {
            assert(self.register_systems@.subrange(0, n as int) =~= self.register_systems@);
        }
        r
    }
}

/// The driver entries of the entries whose identity is in the active set, in
/// order.
pub open spec fn spec_active_entries(es: Seq<(String, u64)>, act: Set<Seq<char>>) -> Seq<u64>
    decreases es,
{
    if es.len() == 0 {
        Seq::empty()
    } else if act.contains(es.last().0@) {
        spec_active_entries(es.drop_last(), act).push(es.last().1)
    } else {
        spec_active_entries(es.drop_last(), act)
    }
}

/// Re-associating the one element that carries an identity leaves every
/// other lookup unchanged.
proof fn lemma_entry_other(es0: Seq<(String, u64)>, es1: Seq<(String, u64)>, k: Seq<char>, w: int)
    requires
        0 <= w < es0.len(),
        es1.len() == es0.len(),
        es1[w].0@ == es0[w].0@,
        forall|j: int| 0 <= j < es0.len() && j != w ==> #[trigger] es1[j] == es0[j],
        k != es0[w].0@,
    ensures
        spec_entry(es1, k) == spec_entry(es0, k),
    decreases es0,
{
    assert(es0.last() == es0[es0.len() - 1]);
    assert(es1.last() == es1[es1.len() - 1]);
    if es0.len() > 0 {
        if w == es0.len() - 1 {
            assert(es1.last().0@ != k);
            assert(es0.last().0@ != k);
            assert(es1.drop_last() =~= es0.drop_last()) by {
                assert(forall|j: int|
                    0 <= j < es0.len() - 1 ==> #[trigger] es1.drop_last()[j] == es0.drop_last()[j]);
            }
        } else {
            assert(es1.last() == es0.last());
            if es0.last().0@ == k {
            } else {
                assert(forall|j: int|
                    0 <= j < es0.drop_last().len() && j != w ==> #[trigger] es1.drop_last()[j]
                        == es0.drop_last()[j]);
                assert(es1.drop_last()[w] == es1[w]);
                assert(es0.drop_last()[w] == es0[w]);
                lemma_entry_other(es0.drop_last(), es1.drop_last(), k, w);
            }
        }
    }
}

} // verus!
