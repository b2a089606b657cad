//! The run engine: a registry of dataset loaders and a cache of each
//! loader's last recorded run state, with the skip/run decision rule
//! that makes repeated runs cheap and safe.

use vstd::prelude::*;

use crate::text::str_eq;

verus! {

/// The durable record of a loader's last successful run: the logic
/// version it ran with and the content fingerprint of the artifact it
/// processed.
#[derive(Debug, Clone)]
pub struct LoaderRunStatus {
    pub version: i32,
    pub file_hash: String,
}

/// The mathematical value of a run-state record.
pub open spec fn status_val(st: LoaderRunStatus) -> (int, Seq<char>) {
    (st.version as int, st.file_hash@)
}

/// The engine's in-memory cache of run states, as a map from loader
/// key to recorded (version, fingerprint); and its registry of loader
/// keys in registration order.
pub struct LoaderEngine {
    loader_states: Vec<(String, LoaderRunStatus)>,
    registry: Vec<String>,
}

spec fn states_map_of(s: Seq<(String, LoaderRunStatus)>) -> Map<Seq<char>, (int, Seq<char>)>
    decreases s.len(),
{
    if s.len() == 0 {
        Map::empty()
    } else {
        states_map_of(s.drop_last()).insert(s.last().0@, status_val(s.last().1))
    }
}

spec fn state_keys_distinct(s: Seq<(String, LoaderRunStatus)>) -> bool {
    forall|i: int, j: int| 0 <= i < j < s.len() ==> (#[trigger] s[i]).0@ != (#[trigger] s[j]).0@
}

proof fn lemma_states_map_contains(s: Seq<(String, LoaderRunStatus)>, k: Seq<char>)
    ensures
        states_map_of(s).contains_key(k) <==> exists|i: int|
            0 <= i < s.len() && (#[trigger] s[i]).0@ == k,
    decreases s.len(),
{
    if s.len() > 0 {
        lemma_states_map_contains(s.drop_last(), k);
        if s.last().0@ == k {
            assert(s[s.len() - 1].0@ == k);
        } else {
            if states_map_of(s).contains_key(k) {
                let i = choose|i: int| 0 <= i < s.drop_last().len() && (#[trigger] s.drop_last()[i]).0@
                    == k;
                assert(s[i].0@ == k);
            }
            if exists|i: int| 0 <= i < s.len() && (#[trigger] s[i]).0@ == k {
                let i = choose|i: int| 0 <= i < s.len() && (#[trigger] s[i]).0@ == k;
                assert(i < s.len() - 1);
                assert(s.drop_last()[i].0@ == k);
            }
        }
    }
}

proof fn lemma_states_map_value(s: Seq<(String, LoaderRunStatus)>, i: int)
    requires
        state_keys_distinct(s),
        0 <= i < s.len(),
    ensures
        states_map_of(s).contains_key(s[i].0@),
        states_map_of(s)[s[i].0@] == status_val(s[i].1),
    decreases s.len(),
{
    if i == s.len() - 1 {
    } else {
        lemma_states_map_value(s.drop_last(), i);
        assert(s.drop_last()[i] == s[i]);
        assert(s.last().0@ != s[i].0@);
    }
}

proof fn lemma_states_map_update(s: Seq<(String, LoaderRunStatus)>, i: int, st: LoaderRunStatus)
    requires
        state_keys_distinct(s),
        0 <= i < s.len(),
    ensures
        states_map_of(s.update(i, (s[i].0, st))) =~= states_map_of(s).insert(
            s[i].0@,
            status_val(st),
        ),
    decreases s.len(),
{
    let t = s.update(i, (s[i].0, st));
    if i == s.len() - 1 {
        assert(t.drop_last() =~= s.drop_last());
        assert(t.last() == (s[i].0, st));
    } else {
        lemma_states_map_update(s.drop_last(), i, st);
        assert(t.drop_last() =~= s.drop_last().update(i, (s[i].0, st)));
        assert(t.last() == s.last());
        assert(s.drop_last()[i] == s[i]);
        assert(s.last().0@ != s[i].0@);
    }
}

/// The skip/run decision rule, over the recorded state map: run when
/// there is no prior record, when the plugin's logic version moved
/// past the recorded one, or when the content fingerprint changed;
/// skip only a same-version, same-fingerprint artifact.
pub open spec fn spec_should_load(
    m: Map<Seq<char>, (int, Seq<char>)>,
    key: Seq<char>,
    hash: Seq<char>,
    version: int,
) -> bool {
    if !m.contains_key(key) {
        true
    } else {
        version > m[key].0 || m[key].1 != hash
    }
}

/// The cache after the rows of the run-state table are inserted in
/// order: later rows win, as repeated map inserts do.
pub open spec fn absorbed_states(
    m: Map<Seq<char>, (int, Seq<char>)>,
    rows: Seq<(String, i32, String)>,
) -> Map<Seq<char>, (int, Seq<char>)>
    decreases rows.len(),
{
    if rows.len() == 0 {
        m
    } else {
        absorbed_states(m.insert(rows[0].0@, (rows[0].1 as int, rows[0].2@)), rows.drop_first())
    }
}

impl LoaderEngine {
    /// The recorded run states, as a map from loader key to
    /// (version, fingerprint).
    pub closed spec fn states(&self) -> Map<Seq<char>, (int, Seq<char>)> {
        states_map_of(self.loader_states@)
    }

    /// The registered loader keys, in registration order.
    pub closed spec fn registry_keys(&self) -> Seq<Seq<char>> {
        self.registry@.map_values(|s: String| s@)
    }

    /// The engine's internal consistency: no loader key cached or
    /// registered twice.
    pub closed spec fn wf(&self) -> bool {
        &&& state_keys_distinct(self.loader_states@)
        &&& forall|i: int, j: int| 0 <= i < j < self.registry@.len()
            ==> (#[trigger] self.registry@[i])@ != (#[trigger] self.registry@[j])@
    }

    /// A fresh engine with nothing recorded and nothing registered.
    pub fn new() -> (engine: LoaderEngine)
        ensures
            engine.wf(),
            engine.states() == Map::<Seq<char>, (int, Seq<char>)>::empty(),
            engine.registry_keys() == Seq::<Seq<char>>::empty(),
    {
        let engine = LoaderEngine { loader_states: Vec::new(), registry: Vec::new() };
        proof {
            assert(engine.registry_keys() =~= Seq::<Seq<char>>::empty());
        }
        engine
    }

    fn find_state(&self, key: &str) -> (res: Option<usize>)
        requires
            self.wf(),
        ensures
            match res {
                Some(i) => i < self.loader_states@.len() && self.loader_states@[i as int].0@
                    == key@,
                None => !self.states().contains_key(key@),
            },
    {
        let n = self.loader_states.len();
        let mut i: usize = 0;
        while i < n
            invariant
                n == self.loader_states@.len(),
                i <= n,
                forall|j: int| 0 <= j < i ==> (#[trigger] self.loader_states@[j]).0@ != key@,
            decreases n - i,
        {
            if str_eq(self.loader_states[i].0.as_str(), key) {
                return Some(i);
            }
            i = i + 1;
        }
        proof {
            lemma_states_map_contains(self.loader_states@, key@);
        }
        None
    }

    /// The skip/run decision for one loader, from its recorded state,
    /// the artifact's current fingerprint and the plugin's logic
    /// version: true exactly when a load is owed.
    pub fn should_load(&self, key: &str, current_file_hash: &str, plugin_version: i32) -> (r: bool)
        requires
            self.wf(),
        ensures
            r == spec_should_load(self.states(), key@, current_file_hash@, plugin_version as int),
    {
        match self.find_state(key) {
            Some(i) => {
                proof {
                    lemma_states_map_value(self.loader_states@, i as int);
                }
                let status = &self.loader_states[i].1;
                if plugin_version > status.version {
                    true
                } else if str_eq(status.file_hash.as_str(), current_file_hash) {
                    false
                } else {
                    true
                }
            },
            None => true,
        }
    }

    /// Records a loader's new run state in the cache: the in-memory
    /// step of the durable upsert performed after a successful load.
    pub fn update_status(&mut self, key: &str, file_hash: &str, version: i32)
        requires
            old(self).wf(),
        ensures
            final(self).wf(),
            final(self).states() == old(self).states().insert(
                key@,
                (version as int, file_hash@),
            ),
            final(self).registry_keys() == old(self).registry_keys(),
    {
        let status = LoaderRunStatus { version, file_hash: file_hash.to_owned() };
        match self.find_state(key) {
            Some(i) => {
                proof {
                    lemma_states_map_update(self.loader_states@, i as int, status);
                }
                let ghost pre = self.loader_states@;
                let entry = self.loader_states.remove(i);
                self.loader_states.insert(i, (entry.0, status));
                proof {
                    assert(self.loader_states@ =~= pre.update(
                        i as int,
                        (pre[i as int].0, status),
                    ));
                    assert(pre[i as int].0@ == key@);
                    assert(status_val(status) == (version as int, file_hash@));
                    assert(self.states() =~= old(self).states().insert(
                        key@,
                        (version as int, file_hash@),
                    ));
                    assert forall|i1: int, j1: int|
                        0 <= i1 < j1 < self.loader_states@.len() implies (#[trigger] self
                        .loader_states@[i1]).0@ != (#[trigger] self.loader_states@[j1]).0@ by {
                        assert(self.loader_states@[i1].0 == pre[i1].0);
                        assert(self.loader_states@[j1].0 == pre[j1].0);
                    }
                }
            },
            None => {
                proof {
                    lemma_states_map_contains(self.loader_states@, key@);
                }
                let ghost pre = self.loader_states@;
                self.loader_states.push((key.to_owned(), status));
                proof {
                    assert(self.loader_states@.drop_last() =~= pre);
                    assert(self.loader_states@.last().0@ == key@);
                    assert(self.states() =~= old(self).states().insert(
                        key@,
                        (version as int, file_hash@),
                    ));
                    assert forall|i1: int, j1: int|
                        0 <= i1 < j1 < self.loader_states@.len() implies (#[trigger] self
                        .loader_states@[i1]).0@ != (#[trigger] self.loader_states@[j1]).0@ by {
                        if j1 < self.loader_states@.len() - 1 {
                            assert(pre[i1] == self.loader_states@[i1]);
                            assert(pre[j1] == self.loader_states@[j1]);
                        } else {
                            assert(pre[i1] == self.loader_states@[i1]);
                            assert(!(exists|q: int|
                                0 <= q < pre.len() && (#[trigger] pre[q]).0@ == key@));
                        }
                    }
                }
            },
        }
    }

    /// Registers a loader key. A key registered twice keeps its first
    /// position and is reported as overwritten, so the caller can warn
    /// before replacing the loader it holds under that key.
    pub fn register(&mut self, key: String) -> (replaced: bool)
        requires
            old(self).wf(),
        ensures
            final(self).wf(),
            replaced == old(self).registry_keys().contains(key@),
            final(self).registry_keys() == if replaced {
                old(self).registry_keys()
            } else {
                old(self).registry_keys().push(key@)
            },
            final(self).states() == old(self).states(),
    {
        let n = self.registry.len();
        let mut i: usize = 0;
        while i < n
            invariant
                *self == *old(self),
                old(self).wf(),
                n == self.registry@.len(),
                i <= n,
                forall|j: int| 0 <= j < i ==> (#[trigger] self.registry@[j])@ != key@,
            decreases n - i,
        {
            if str_eq(self.registry[i].as_str(), key.as_str()) {
                proof {
                    assert(self.registry_keys()[i as int] == key@);
                    assert(self.registry_keys().contains(key@));
                }
                return true;
            }
            i = i + 1;
        }
        proof {
            assert forall|j: int| 0 <= j < self.registry_keys().len() implies self.registry_keys()[j]
                != key@ by {
                assert(self.registry@[j]@ != key@);
            }
            assert(!self.registry_keys().contains(key@));
        }
        let ghost pre = self.registry@;
        self.registry.push(key);
        proof {
            assert(self.registry_keys() =~= pre.map_values(|s: String| s@).push(
                self.registry@.last()@,
            ));
        }
        false
    }

    /// The deterministic processing order of one run: the registered
    /// keys, captured in registration order.
    pub fn run_order(&self) -> (keys: Vec<String>)
        ensures
            keys@.map_values(|s: String| s@) == self.registry_keys(),
    {
        let n = self.registry.len();
        let mut keys: Vec<String> = Vec::new();
        let mut i: usize = 0;
        while i < n
            invariant
                n == self.registry@.len(),
                i <= n,
                keys@ == self.registry@.subrange(0, i as int),
            decreases n - i,
        {
            keys.push(self.registry[i].clone());
            proof {
                assert(keys@ =~= self.registry@.subrange(0, i + 1));
            }
            i = i + 1;
        }
        proof {
            assert(self.registry@.subrange(0, n as int) =~= self.registry@);
        }
        keys
    }

    /// Seeds the cache from the rows of the durable run-state table,
    /// as the engine does at startup.
    pub fn scan(&mut self, rows: Vec<(String, i32, String)>)
        requires
            old(self).wf(),
        ensures
            final(self).wf(),
            final(self).states() == absorbed_states(old(self).states(), rows@),
            final(self).registry_keys() == old(self).registry_keys(),
    {
        let mut rows = rows;
        let ghost target = absorbed_states(old(self).states(), rows@);
        while rows.len() > 0
            invariant
                self.wf(),
                target == absorbed_states(self.states(), rows@),
                self.registry_keys() == old(self).registry_keys(),
            decreases rows@.len(),
        {
            let ghost pre_rows = rows@;
            let (key, version, file_hash) = rows.remove(0);
            proof {
                assert(pre_rows[0] == (key, version, file_hash));
                assert(rows@ =~= pre_rows.drop_first());
            }
            self.update_status(key.as_str(), file_hash.as_str(), version);
        }
    }
}

} // verus!
