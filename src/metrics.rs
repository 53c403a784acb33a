use vstd::prelude::*;

verus! {

/// The role a node reports for itself.
#[derive(Clone, Copy, Debug, PartialEq, Eq, Structural)]
pub enum NodeRole {
    NonVoter,
    Follower,
    Candidate,
    Leader,
}

/// The membership configuration a node reports.
pub struct MembershipConfig {
    pub is_in_joint_consensus: bool,
    pub members: Vec<u64>,
    pub non_voters: Vec<u64>,
    pub removing: Vec<u64>,
}

/// A point-in-time report of one node's consensus state.
pub struct MetricsSnapshot {
    pub id: u64,
    pub state: NodeRole,
    pub current_term: u64,
    pub last_log_index: u64,
    pub last_applied: u64,
    pub current_leader: Option<u64>,
    pub membership_config: MembershipConfig,
}

/// The latest snapshot of each node, kept in ascending order of node id.
pub struct MetricsStore {
    entries: Vec<MetricsSnapshot>,
}

/// Node ids strictly increase along `s`: each id occurs once, in ascending order.
pub open spec fn ascending(s: Seq<MetricsSnapshot>) -> bool {
    forall|i: int, j: int| 0 <= i < j < s.len() ==> s[i].id < s[j].id
}

/// The snapshot held for `id` in `s`, if any.
pub open spec fn snapshot_for(s: Seq<MetricsSnapshot>, id: u64) -> Option<MetricsSnapshot> {
    if exists|i: int| 0 <= i < s.len() && s[i].id == id {
        Some(s[choose|i: int| 0 <= i < s.len() && s[i].id == id])
    } else {
        None
    }
}

/// The ids of `s`, in order.
pub open spec fn ids_of(s: Seq<MetricsSnapshot>) -> Seq<u64> {
    s.map_values(|m: MetricsSnapshot| m.id)
}

proof fn lemma_snapshot_at(s: Seq<MetricsSnapshot>, i: int)
    requires
        ascending(s),
        0 <= i < s.len(),
    ensures
        snapshot_for(s, s[i].id) == Some(s[i]),
{
    let id = s[i].id;
    assert(exists|k: int| 0 <= k < s.len() && s[k].id == id);
    let k = choose|k: int| 0 <= k < s.len() && s[k].id == id;
    if k < i {
        assert(s[k].id < s[i].id);
    } else if i < k {
        assert(s[i].id < s[k].id);
    }
}

impl View for MetricsStore {
    type V = Seq<MetricsSnapshot>;

    closed spec fn view(&self) -> Seq<MetricsSnapshot> {
        self.entries@
    }
}

impl MetricsStore {
    #[verifier::type_invariant]
    pub open spec fn inv(self) -> bool {
        ascending(self@)
    }

    pub fn new() -> (r: MetricsStore)
        ensures
            r@ == Seq::<MetricsSnapshot>::empty(),
    {
        MetricsStore { entries: Vec::new() }
    }

    /// The number of nodes with a stored snapshot.
    pub fn len(&self) -> (r: usize)
        ensures
            r == self@.len(),
    {
        self.entries.len()
    }

    /// Stores `m` as the latest snapshot of node `m.id`, replacing any earlier one.
    pub fn upsert(&mut self, m: MetricsSnapshot)
        ensures
            ascending(final(self)@),
            forall|id: u64|
                #[trigger] snapshot_for(final(self)@, id) == if id == m.id {
                    Some(m)
                } else {
                    snapshot_for(old(self)@, id)
                },
    {
        proof {
            use_type_invariant(&*self);
        }
        let ghost s = self@;
        let ghost mm = m;
        let mut entries: Vec<MetricsSnapshot> = Vec::new();
        std::mem::swap(&mut entries, &mut self.entries);
        let mut i: usize = 0;
        while i < entries.len() && entries[i].id < m.id
            invariant
                entries@ == s,
                ascending(s),
                0 <= i <= s.len(),
                forall|k: int| 0 <= k < i ==> s[k].id < m.id,
            decreases s.len() - i,
        {
            i = i + 1;
        }
        let id = m.id;
        if i < entries.len() && entries[i].id == id {
            entries.set(i, m);
            proof {
                assert forall|a: int, b: int| 0 <= a < b < entries@.len() implies entries@[a].id
                    < entries@[b].id by {
                    assert(s[a].id < s[b].id);
                }
                assert forall|q: u64| #[trigger]
                    snapshot_for(entries@, q) == if q == mm.id {
                        Some(mm)
                    } else {
                        snapshot_for(s, q)
                    } by {
                    lemma_store_set(s, i as int, mm, q);
                }
            }
        } else {
            entries.insert(i, m);
            proof {
                assert forall|a: int, b: int| 0 <= a < b < entries@.len() implies entries@[a].id
                    < entries@[b].id by {
                    if a < i && b > i {
                        assert(s[a].id < s[b - 1].id || a == b - 1);
                    } else if a > i {
                        assert(s[a - 1].id < s[b - 1].id);
                    } else if b < i {
                        assert(s[a].id < s[b].id);
                    }
                }
                assert forall|q: u64| #[trigger]
                    snapshot_for(entries@, q) == if q == mm.id {
                        Some(mm)
                    } else {
                        snapshot_for(s, q)
                    } by {
                    lemma_store_insert(s, i as int, mm, q);
                }
            }
        }
        self.entries = entries;
    }

    /// The stored snapshot of node `id`, if any.
    pub fn get(&self, id: u64) -> (r: Option<&MetricsSnapshot>)
        ensures
            match r {
                Some(m) => snapshot_for(self@, id) == Some(*m),
                None => snapshot_for(self@, id) is None,
            },
    {
        proof {
            use_type_invariant(self);
        }
        let mut i: usize = 0;
        while i < self.entries.len()
            invariant
                ascending(self@),
                0 <= i <= self@.len(),
                forall|k: int| 0 <= k < i ==> self@[k].id != id,
            decreases self@.len() - i,
        {
            if self.entries[i].id == id {
                proof {
                    lemma_snapshot_at(self@, i as int);
                }
                return Some(&self.entries[i]);
            }
            i = i + 1;
        }
        None
    }

    /// The ids of the stored snapshots, in ascending order.
    pub fn ids(&self) -> (r: Vec<u64>)
        ensures
            r@ == ids_of(self@),
            forall|i: int, j: int| 0 <= i < j < r@.len() ==> r@[i] < r@[j],
    {
        proof {
            use_type_invariant(self);
        }
        let mut r: Vec<u64> = Vec::new();
        let mut i: usize = 0;
        while i < self.entries.len()
            invariant
                0 <= i <= self@.len(),
                r@ == ids_of(self@.subrange(0, i as int)),
            decreases self@.len() - i,
        {
            r.push(self.entries[i].id);
            proof {
                assert(ids_of(self@.subrange(0, i + 1)) =~= ids_of(self@.subrange(0, i as int)).push(
                    self@[i as int].id,
                ));
            }
            i = i + 1;
        }
        proof {
            assert(self@.subrange(0, i as int) =~= self@);
        }
        r
    }
}

proof fn lemma_store_set(s: Seq<MetricsSnapshot>, i: int, m: MetricsSnapshot, q: u64)
    requires
        ascending(s),
        0 <= i < s.len(),
        s[i].id == m.id,
        ascending(s.update(i, m)),
    ensures
        snapshot_for(s.update(i, m), q) == if q == m.id {
            Some(m)
        } else {
            snapshot_for(s, q)
        },
{
    let t = s.update(i, m);
    if q == m.id {
        lemma_snapshot_at(t, i);
    } else if exists|k: int| 0 <= k < s.len() && s[k].id == q {
        let k = choose|k: int| 0 <= k < s.len() && s[k].id == q;
        lemma_snapshot_at(s, k);
        assert(t[k] == s[k]);
        lemma_snapshot_at(t, k);
    } else {
        assert forall|k: int| 0 <= k < t.len() implies t[k].id != q by {
            if k != i {
                assert(t[k] == s[k]);
            }
        }
    }
}

proof fn lemma_store_insert(s: Seq<MetricsSnapshot>, i: int, m: MetricsSnapshot, q: u64)
    requires
        ascending(s),
        0 <= i <= s.len(),
        forall|k: int| 0 <= k < s.len() ==> s[k].id != m.id,
        ascending(s.insert(i, m)),
    ensures
        snapshot_for(s.insert(i, m), q) == if q == m.id {
            Some(m)
        } else {
            snapshot_for(s, q)
        },
{
    let t = s.insert(i, m);
    if q == m.id {
        lemma_snapshot_at(t, i);
    } else if exists|k: int| 0 <= k < s.len() && s[k].id == q {
        let k = choose|k: int| 0 <= k < s.len() && s[k].id == q;
        lemma_snapshot_at(s, k);
        let kt = if k < i {
            k
        } else {
            k + 1
        };
        assert(t[kt] == s[k]);
        lemma_snapshot_at(t, kt);
    } else {
        assert forall|k: int| 0 <= k < t.len() implies t[k].id != q by {
            if k < i {
                assert(t[k] == s[k]);
            } else if k > i {
                assert(t[k] == s[k - 1]);
            }
        }
    }
}

/// Upserting two snapshots of one node in turn leaves exactly one entry for
/// that node, the later snapshot, with ids still ascending.
pub proof fn lemma_upsert_latest_wins(
    s0: Seq<MetricsSnapshot>,
    s1: Seq<MetricsSnapshot>,
    s2: Seq<MetricsSnapshot>,
    first: MetricsSnapshot,
    second: MetricsSnapshot,
)
    requires
        ascending(s0),
        ascending(s1),
        ascending(s2),
        first.id == second.id,
        forall|id: u64|
            #[trigger] snapshot_for(s1, id) == if id == first.id {
                Some(first)
            } else {
                snapshot_for(s0, id)
            },
        forall|id: u64|
            #[trigger] snapshot_for(s2, id) == if id == second.id {
                Some(second)
            } else {
                snapshot_for(s1, id)
            },
    ensures
        snapshot_for(s2, second.id) == Some(second),
        exists|i: int| 0 <= i < s2.len() && s2[i] == second,
        forall|i: int, j: int|
            0 <= i < s2.len() && 0 <= j < s2.len() && s2[i].id == second.id && s2[j].id
                == second.id ==> i == j,
        forall|i: int, j: int| 0 <= i < j < s2.len() ==> s2[i].id < s2[j].id,
{
    assert(snapshot_for(s2, second.id) == Some(second));
    let k = choose|k: int| 0 <= k < s2.len() && s2[k].id == second.id;
    assert(s2[k] == second);
    assert forall|i: int, j: int|
        0 <= i < s2.len() && 0 <= j < s2.len() && s2[i].id == second.id && s2[j].id
            == second.id implies i == j by {
        if i < j {
            assert(s2[i].id < s2[j].id);
        } else if j < i {
            assert(s2[j].id < s2[i].id);
        }
    }
}

} // verus!
