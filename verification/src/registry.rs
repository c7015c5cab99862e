//! The metric registry.
//!
//! A process-wide table of labeled series, keyed by canonical metric name
//! and label values.  Gauges are overwritten on each update; counters only
//! accumulate.  Series are created lazily on first write and never
//! destroyed.  The registry is modeled as two maps: the registered
//! definitions, and the series values keyed by `(name, label values)`.

use vstd::prelude::*;

use crate::catalog::MetricDef;
use crate::catalog::MetricName;
use crate::catalog::Kind;
use crate::text::bytes_eq;
use crate::sat_add;
use crate::spec_sat_add;

verus! {

/// One labeled series and its current value, in millionths of a unit.
pub struct Series {
    pub name: MetricName,
    pub labels: Vec<Vec<u8>>,
    pub value: i128,
}

impl Series {
    /// The key of the series: its name and label values.
    pub open spec fn key(self) -> (MetricName, Seq<Seq<u8>>) {
        (self.name, self.labels.deep_view())
    }

    /// The kind of the series, fixed by its metric.
    pub fn kind(&self) -> (r: Kind)
        ensures
            r == self.name.spec_kind(),
    {
        self.name.kind()
    }
}

/// A registration that could not be accepted.
#[derive(Clone, Copy, Debug, PartialEq, Eq, Structural)]
pub enum RegistryError {
    /// The name was already registered.
    Duplicate,
    /// The name was already registered with a different definition.
    Conflict,
}

/// The definitions held after a list of registrations, last write winning.
pub open spec fn spec_defs_of(s: Seq<MetricDef>) -> Map<MetricName, MetricDef>
    decreases s.len(),
{
    if s.len() == 0 {
        Map::empty()
    } else {
        spec_defs_of(s.drop_last()).insert(s.last().name, s.last())
    }
}

/// The series values held by a list of series, last write winning.
pub open spec fn spec_series_of(s: Seq<Series>) -> Map<(MetricName, Seq<Seq<u8>>), int>
    decreases s.len(),
{
    if s.len() == 0 {
        Map::empty()
    } else {
        spec_series_of(s.drop_last()).insert(s.last().key(), s.last().value as int)
    }
}

proof fn lemma_defs_of_contains(s: Seq<MetricDef>, n: MetricName)
    ensures
        spec_defs_of(s).contains_key(n) <==> exists|i: int| 0 <= i < s.len() && s[i].name == n,
    decreases s.len(),
{
    if s.len() > 0 {
        lemma_defs_of_contains(s.drop_last(), n);
        if spec_defs_of(s).contains_key(n) {
            if s.last().name == n {
                assert(s[s.len() - 1].name == n);
            } else {
                let i = choose|i: int| 0 <= i < s.drop_last().len() && s.drop_last()[i].name == n;
                assert(s[i].name == n);
            }
        }
        if exists|i: int| 0 <= i < s.len() && s[i].name == n {
            let i = choose|i: int| 0 <= i < s.len() && s[i].name == n;
            if i < s.len() - 1 {
                assert(s.drop_last()[i].name == n);
            }
        }
    }
}

proof fn lemma_series_of_contains(s: Seq<Series>, k: (MetricName, Seq<Seq<u8>>))
    ensures
        spec_series_of(s).contains_key(k) <==> exists|i: int| 0 <= i < s.len() && s[i].key() == k,
    decreases s.len(),
{
    if s.len() > 0 {
        lemma_series_of_contains(s.drop_last(), k);
        if spec_series_of(s).contains_key(k) {
            if s.last().key() == k {
                assert(s[s.len() - 1].key() == k);
            } else {
                let i = choose|i: int| 0 <= i < s.drop_last().len() && s.drop_last()[i].key() == k;
                assert(s[i].key() == k);
            }
        }
        if exists|i: int| 0 <= i < s.len() && s[i].key() == k {
            let i = choose|i: int| 0 <= i < s.len() && s[i].key() == k;
            if i < s.len() - 1 {
                assert(s.drop_last()[i].key() == k);
            }
        }
    }
}

/// In a list with distinct keys, the map value at a key is the value of the
/// entry holding that key.
proof fn lemma_series_of_at(s: Seq<Series>, i: int)
    requires
        forall|p: int, q: int| 0 <= p < q < s.len() ==> s[p].key() != s[q].key(),
        0 <= i < s.len(),
    ensures
        spec_series_of(s).contains_key(s[i].key()),
        spec_series_of(s)[s[i].key()] == s[i].value as int,
    decreases s.len(),
{
    if i == s.len() - 1 {
    } else {
        assert(forall|p: int, q: int|
            0 <= p < q < s.drop_last().len() ==> s.drop_last()[p].key() != s.drop_last()[q].key());
        assert(s.drop_last()[i] == s[i]);
        lemma_series_of_at(s.drop_last(), i);
        assert(s[i].key() != s.last().key());
    }
}

proof fn lemma_defs_of_at(s: Seq<MetricDef>, i: int)
    requires
        forall|p: int, q: int| 0 <= p < q < s.len() ==> s[p].name != s[q].name,
        0 <= i < s.len(),
    ensures
        spec_defs_of(s).contains_key(s[i].name),
        spec_defs_of(s)[s[i].name] == s[i],
    decreases s.len(),
{
    if i < s.len() - 1 {
        assert(forall|p: int, q: int|
            0 <= p < q < s.drop_last().len() ==> s.drop_last()[p].name != s.drop_last()[q].name);
        assert(s.drop_last()[i] == s[i]);
        lemma_defs_of_at(s.drop_last(), i);
        assert(s[i].name != s.last().name);
    }
}

/// Whether two label tuples hold the same values.
pub fn labels_eq(a: &Vec<Vec<u8>>, b: &Vec<Vec<u8>>) -> (r: bool)
    ensures
        r == (a.deep_view() == b.deep_view()),
{
    let n = a.len();
    if n != b.len() {
        assert(a.deep_view().len() != b.deep_view().len());
        return false;
    }
    let mut i: usize = 0;
    while i < n
        invariant
            n == a@.len(),
            n == b@.len(),
            0 <= i <= n,
            forall|j: int| 0 <= j < i ==> a@[j]@ == b@[j]@,
        decreases n - i,
    {
        if !bytes_eq(a[i].as_slice(), b[i].as_slice()) {
            proof {
                assert(a.deep_view()[i as int] =~= a@[i as int]@);
                assert(b.deep_view()[i as int] =~= b@[i as int]@);
            }
            return false;
        }
        i = i + 1;
    }
    assert(a.deep_view() =~= b.deep_view());
    true
}

/// The registry of exposed series.
pub struct Registry {
    defs: Vec<MetricDef>,
    series: Vec<Series>,
}

impl Registry {
    /// The registered definitions, by name.
    pub closed spec fn defs_map(self) -> Map<MetricName, MetricDef> {
        spec_defs_of(self.defs@)
    }

    /// The current value of every series, by name and label values.
    pub closed spec fn series_map(self) -> Map<(MetricName, Seq<Seq<u8>>), int> {
        spec_series_of(self.series@)
    }

    /// Well-formedness: definitions and series keys are unique, and every
    /// series carries exactly as many label values as its metric's schema
    /// declares — the invariant every update is held to.
    pub closed spec fn wf(self) -> bool {
        &&& forall|p: int, q: int|
            0 <= p < q < self.defs@.len() ==> self.defs@[p].name != self.defs@[q].name
        &&& forall|p: int, q: int|
            0 <= p < q < self.series@.len() ==> self.series@[p].key() != self.series@[q].key()
        &&& forall|i: int|
            0 <= i < self.series@.len() ==> (#[trigger] self.series@[i]).labels.deep_view().len()
                == self.series@[i].name.spec_schema().spec_arity()
    }

    /// An empty registry.
    pub fn new() -> (r: Registry)
        ensures
            r.wf(),
            r.defs_map() == Map::<MetricName, MetricDef>::empty(),
            r.series_map() == Map::<(MetricName, Seq<Seq<u8>>), int>::empty(),
    {
        Registry { defs: Vec::new(), series: Vec::new() }
    }

    /// The position of a definition with this name, if one is registered.
    fn find_def(&self, name: MetricName) -> (r: Option<usize>)
        ensures
            match r {
                Some(i) => i < self.defs@.len() && self.defs@[i as int].name == name
                    && self.defs_map().contains_key(name),
                None => !self.defs_map().contains_key(name),
            },
    {
        let n = self.defs.len();
        let mut i: usize = 0;
        while i < n
            invariant
                n == self.defs@.len(),
                0 <= i <= n,
                forall|j: int| 0 <= j < i ==> self.defs@[j].name != name,
            decreases n - i,
        {
            if self.defs[i].name == name {
                proof {
                    lemma_defs_of_contains(self.defs@, name);
                }
                return Some(i);
            }
            i = i + 1;
        }
        proof {
            lemma_defs_of_contains(self.defs@, name);
        }
        None
    }

    /// The position of the series with this key, if it exists.
    fn find_series(&self, name: MetricName, labels: &Vec<Vec<u8>>) -> (r: Option<usize>)
        ensures
            match r {
                Some(i) => i < self.series@.len() && self.series@[i as int].key() == (
                    name,
                    labels.deep_view(),
                ) && self.series_map().contains_key((name, labels.deep_view())),
                None => !self.series_map().contains_key((name, labels.deep_view())),
            },
    {
        let n = self.series.len();
        let mut i: usize = 0;
        while i < n
            invariant
                n == self.series@.len(),
                0 <= i <= n,
                forall|j: int| 0 <= j < i ==> self.series@[j].key() != (name, labels.deep_view()),
            decreases n - i,
        {
            let s = &self.series[i];
            if s.name == name && labels_eq(&s.labels, labels) {
                proof {
                    lemma_series_of_contains(self.series@, (name, labels.deep_view()));
                }
                return Some(i);
            }
            i = i + 1;
        }
        proof {
            lemma_series_of_contains(self.series@, (name, labels.deep_view()));
        }
        None
    }

    /// Registers a definition.  Re-registration of an already-registered
    /// name is refused and leaves the registry unchanged; it is a
    /// configuration-time error, surfaced at startup.
    pub fn register(&mut self, def: MetricDef) -> (r: Result<(), RegistryError>)
        requires
            old(self).wf(),
        ensures
            final(self).wf(),
            match r {
                Ok(()) => !old(self).defs_map().contains_key(def.name) && final(self).defs_map()
                    == old(self).defs_map().insert(def.name, def),
                Err(e) => e == RegistryError::Duplicate && old(self).defs_map().contains_key(
                    def.name,
                ) && final(self).defs_map() == old(self).defs_map(),
            },
            final(self).series_map() == old(self).series_map(),
    {
        match self.find_def(def.name) {
            Some(_) => Err(RegistryError::Duplicate),
            None => {
                proof {
                    lemma_defs_of_contains(self.defs@, def.name);
                }
                self.defs.push(def);
                proof {
                    assert(self.defs@.drop_last() =~= old(self).defs@);
                    lemma_defs_of_contains(old(self).defs@, def.name);
                }
                Ok(())
            },
        }
    }

    /// Registers a definition unless an identical one is already present;
    /// a name held by a different definition is a conflict and leaves the
    /// registry unchanged.
    pub fn ensure_registered(&mut self, def: MetricDef) -> (r: Result<(), RegistryError>)
        requires
            old(self).wf(),
        ensures
            final(self).wf(),
            match r {
                Ok(()) => final(self).defs_map() == old(self).defs_map().insert(def.name, def) && (
                old(self).defs_map().contains_key(def.name) ==> old(self).defs_map()[def.name]
                    == def),
                Err(e) => e == RegistryError::Conflict && old(self).defs_map().contains_key(
                    def.name,
                ) && old(self).defs_map()[def.name] != def && final(self).defs_map() == old(
                    self,
                ).defs_map(),
            },
            final(self).series_map() == old(self).series_map(),
    {
        match self.find_def(def.name) {
            Some(i) => {
                proof {
                    lemma_defs_of_at(self.defs@, i as int);
                }
                let existing = self.defs[i];
                if existing == def {
                    proof {
                        assert(old(self).defs_map().insert(def.name, def) =~= old(
                            self,
                        ).defs_map());
                    }
                    Ok(())
                } else {
                    Err(RegistryError::Conflict)
                }
            },
            None => {
                proof {
                    lemma_defs_of_contains(self.defs@, def.name);
                }
                self.defs.push(def);
                proof {
                    assert(self.defs@.drop_last() =~= old(self).defs@);
                }
                Ok(())
            },
        }
    }

    /// Overwrites the value of a gauge series, creating the series on its
    /// first write.
    pub fn set(&mut self, name: MetricName, labels: Vec<Vec<u8>>, value: i128)
        requires
            old(self).wf(),
            name.spec_kind() == Kind::Gauge,
            labels.deep_view().len() == name.spec_schema().spec_arity(),
        ensures
            final(self).wf(),
            final(self).defs_map() == old(self).defs_map(),
            final(self).series_map() == old(self).series_map().insert(
                (name, labels.deep_view()),
                value as int,
            ),
    {
        let ghost key = (name, labels.deep_view());
        match self.find_series(name, &labels) {
            Some(i) => {
                let replacement = Series { name, labels, value };
                proof {
                    lemma_update_value(self.series@, i as int, replacement);
                }
                self.series[i] = replacement;
            },
            None => {
                proof {
                    lemma_series_of_contains(self.series@, key);
                }
                self.series.push(Series { name, labels, value });
                proof {
                    assert(self.series@.drop_last() =~= old(self).series@);
                }
            },
        }
    }

    /// Adds a non-negative delta to a counter series, creating the series
    /// at the delta on its first write.  The value saturates at the top of
    /// the representable range rather than wrapping.
    pub fn increment(&mut self, name: MetricName, labels: Vec<Vec<u8>>, delta: i128)
        requires
            old(self).wf(),
            name.spec_kind() == Kind::Counter,
            labels.deep_view().len() == name.spec_schema().spec_arity(),
            delta >= 0,
        ensures
            final(self).wf(),
            final(self).defs_map() == old(self).defs_map(),
            final(self).series_map() == old(self).series_map().insert(
                (name, labels.deep_view()),
                spec_sat_add(
                    if old(self).series_map().contains_key((name, labels.deep_view())) {
                        old(self).series_map()[(name, labels.deep_view())]
                    } else {
                        0
                    },
                    delta as int,
                ),
            ),
    {
        let ghost key = (name, labels.deep_view());
        match self.find_series(name, &labels) {
            Some(i) => {
                proof {
                    lemma_series_of_at(self.series@, i as int);
                }
                let current = self.series[i].value;
                let next = sat_add(current, delta);
                let replacement = Series { name, labels, value: next };
                proof {
                    lemma_update_value(self.series@, i as int, replacement);
                }
                self.series[i] = replacement;
            },
            None => {
                proof {
                    lemma_series_of_contains(self.series@, key);
                }
                self.series.push(Series { name, labels, value: delta });
                proof {
                    assert(self.series@.drop_last() =~= old(self).series@);
                }
            },
        }
    }

    /// The current value of one series, if it exists.
    pub fn get(&self, name: MetricName, labels: &Vec<Vec<u8>>) -> (r: Option<i128>)
        requires
            self.wf(),
        ensures
            match r {
                Some(v) => self.series_map().contains_key((name, labels.deep_view()))
                    && self.series_map()[(name, labels.deep_view())] == v as int,
                None => !self.series_map().contains_key((name, labels.deep_view())),
            },
    {
        match self.find_series(name, labels) {
            Some(i) => {
                proof {
                    lemma_series_of_at(self.series@, i as int);
                }
                Some(self.series[i].value)
            },
            None => None,
        }
    }

    /// A full snapshot for exposition: every series with its current value,
    /// each key exactly once.  The content is read fresh from the registry;
    /// nothing is cached.
    pub fn snapshot(&self) -> (r: Vec<Series>)
        requires
            self.wf(),
        ensures
            forall|i: int, j: int| 0 <= i < j < r@.len() ==> r@[i].key() != r@[j].key(),
            forall|i: int|
                0 <= i < r@.len() ==> self.series_map().contains_key((#[trigger] r@[i]).key())
                    && self.series_map()[r@[i].key()] == r@[i].value as int,
            forall|k: (MetricName, Seq<Seq<u8>>)|
                self.series_map().contains_key(k) ==> exists|i: int|
                    0 <= i < r@.len() && (#[trigger] r@[i]).key() == k,
    {
        let n = self.series.len();
        let mut out: Vec<Series> = Vec::new();
        let mut i: usize = 0;
        while i < n
            invariant
                self.wf(),
                n == self.series@.len(),
                0 <= i <= n,
                out@.len() == i,
                forall|j: int| 0 <= j < i ==> out@[j].key() == self.series@[j].key(),
                forall|j: int| 0 <= j < i ==> out@[j].value == self.series@[j].value,
            decreases n - i,
        {
            let s = &self.series[i];
            let mut labels: Vec<Vec<u8>> = Vec::new();
            let m = s.labels.len();
            let mut j: usize = 0;
            while j < m
                invariant
                    m == s.labels@.len(),
                    0 <= j <= m,
                    labels@.len() == j,
                    forall|t: int| 0 <= t < j ==> labels@[t]@ == s.labels@[t]@,
                decreases m - j,
            {
                labels.push(vstd::slice::slice_to_vec(s.labels[j].as_slice()));
                j = j + 1;
            }
            proof {
                assert(labels.deep_view() =~= s.labels.deep_view());
            }
            out.push(Series { name: s.name, labels, value: s.value });
            i = i + 1;
        }
        proof {
            assert forall|i0: int|
                0 <= i0 < out@.len() implies self.series_map().contains_key(
                (#[trigger] out@[i0]).key(),
            ) && self.series_map()[out@[i0].key()] == out@[i0].value as int by {
                lemma_series_of_at(self.series@, i0);
            }
            assert forall|k: (MetricName, Seq<Seq<u8>>)|
                self.series_map().contains_key(k) implies exists|i0: int|
                0 <= i0 < out@.len() && (#[trigger] out@[i0]).key() == k by {
                lemma_series_of_contains(self.series@, k);
                let i0 = choose|i0: int| 0 <= i0 < self.series@.len() && self.series@[i0].key() == k;
                assert(out@[i0].key() == k);
            }
        }
        out
    }
}

/// Replacing the entry at `i` by one with the same key, in a list whose
/// keys are distinct, updates exactly that key in the map.
proof fn lemma_update_value(s: Seq<Series>, i: int, x: Series)
    requires
        forall|p: int, q: int| 0 <= p < q < s.len() ==> s[p].key() != s[q].key(),
        0 <= i < s.len(),
        x.key() == s[i].key(),
    ensures
        spec_series_of(s.update(i, x)) == spec_series_of(s).insert(x.key(), x.value as int),
    decreases s.len(),
{
    let t = s.update(i, x);
    if i == s.len() - 1 {
        assert(t.drop_last() =~= s.drop_last());
        assert(t.last() == x);
        assert(spec_series_of(t) =~= spec_series_of(s).insert(x.key(), x.value as int));
    } else {
        assert(t.drop_last() =~= s.drop_last().update(i, x));
        assert(forall|p: int, q: int|
            0 <= p < q < s.drop_last().len() ==> s.drop_last()[p].key() != s.drop_last()[q].key());
        assert(s.drop_last()[i] == s[i]);
        lemma_update_value(s.drop_last(), i, x);
        assert(t.last() == s.last());
        assert(s[i].key() != s[s.len() - 1].key());
        assert(spec_series_of(t) =~= spec_series_of(s).insert(x.key(), x.value as int));
    }
}

} // verus!
