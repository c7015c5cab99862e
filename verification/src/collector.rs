//! The target collector.
//!
//! One collector owns the identity of one store instance: the target
//! address and its display name.  On each poll the surrounding loop obtains
//! the raw status reply over its connection and hands it here; the
//! collector marks the target live, parses the reply, and applies every
//! update to the registry with the target's identity appended as the
//! trailing label values.  Label tuples of different targets are therefore
//! always disjoint: no two collectors ever write the same series.

use vstd::prelude::*;

use crate::catalog::MetricName;
use crate::catalog::catalog_names;
use crate::catalog::gauge_for_key;
use crate::catalog::counter_for_key;
use crate::catalog::spec_gauge_for_key;
use crate::catalog::spec_counter_for_key;
use crate::parser::SpecOp;
use crate::parser::SpecUpdate;
use crate::parser::Op;
use crate::parser::Update;
use crate::parser::spec_update_wf;
use crate::parser::spec_parse;
use crate::parser::spec_cmdstat_updates;
use crate::parser::cmdstat_updates;
use crate::parser::parse;
use crate::registry::Registry;
use crate::registry::RegistryError;
use crate::text::spec_starts_with;
use crate::spec_sat_add;
use crate::MICROS_PER_UNIT;
use vstd::slice::slice_subrange;
use vstd::slice::slice_to_vec;
use vstd::string::StringSliceAdditionalSpecFns;

verus! {

/// The full series key an update addresses once a target's identity labels
/// are appended.
pub open spec fn spec_series_key(u: SpecUpdate, t: Seq<u8>, tn: Seq<u8>) -> (
    MetricName,
    Seq<Seq<u8>>,
) {
    (u.name, u.labels + seq![t, tn])
}

/// The effect of one update on the series map.  A gauge is overwritten; a
/// counter accumulates, saturating, and a negative delta is refused and
/// leaves the map unchanged.
pub open spec fn spec_apply_update(
    m: Map<(MetricName, Seq<Seq<u8>>), int>,
    u: SpecUpdate,
    t: Seq<u8>,
    tn: Seq<u8>,
) -> Map<(MetricName, Seq<Seq<u8>>), int> {
    let key = spec_series_key(u, t, tn);
    match u.op {
        SpecOp::SetGauge(v) => m.insert(key, v),
        SpecOp::IncrementCounter(d) => if d >= 0 {
            m.insert(
                key,
                spec_sat_add(
                    if m.contains_key(key) {
                        m[key]
                    } else {
                        0
                    },
                    d,
                ),
            )
        } else {
            m
        },
    }
}

/// The effect of an update sequence on the series map, applied in order.
pub open spec fn spec_apply_updates(
    m: Map<(MetricName, Seq<Seq<u8>>), int>,
    us: Seq<SpecUpdate>,
    t: Seq<u8>,
    tn: Seq<u8>,
) -> Map<(MetricName, Seq<Seq<u8>>), int>
    decreases us.len(),
{
    if us.len() == 0 {
        m
    } else {
        spec_apply_updates(spec_apply_update(m, us[0], t, tn), us.skip(1), t, tn)
    }
}

/// Updates for distinct target identities address distinct series: every
/// applied key carries the target's identity as its trailing label values,
/// so two collectors never write the same labeled series.
pub proof fn lemma_series_keys_target_disjoint(
    u1: SpecUpdate,
    u2: SpecUpdate,
    t1: Seq<u8>,
    n1: Seq<u8>,
    t2: Seq<u8>,
    n2: Seq<u8>,
)
    requires
        t1 != t2 || n1 != n2,
    ensures
        spec_series_key(u1, t1, n1) != spec_series_key(u2, t2, n2),
{
    let l1 = u1.labels + seq![t1, n1];
    let l2 = u2.labels + seq![t2, n2];
    if l1 == l2 {
        assert(l1[l1.len() - 1] == n1);
        assert(l2[l2.len() - 1] == n2);
        assert(l1[l1.len() - 2] == t1);
        assert(l2[l2.len() - 2] == t2);
    }
}

/// A whole update sequence applied under one target's identity leaves
/// every series of a different identity untouched: concurrent collectors
/// never write the same labeled series.
pub proof fn lemma_apply_preserves_other_targets(
    m: Map<(MetricName, Seq<Seq<u8>>), int>,
    us: Seq<SpecUpdate>,
    t: Seq<u8>,
    tn: Seq<u8>,
    other: SpecUpdate,
    t2: Seq<u8>,
    n2: Seq<u8>,
)
    requires
        t != t2 || tn != n2,
    ensures
        ({
            let k = spec_series_key(other, t2, n2);
            let applied = spec_apply_updates(m, us, t, tn);
            applied.contains_key(k) == m.contains_key(k) && (m.contains_key(k)
                ==> applied[k] == m[k])
        }),
    decreases us.len(),
{
    if us.len() > 0 {
        lemma_series_keys_target_disjoint(us[0], other, t, tn, t2, n2);
        lemma_apply_preserves_other_targets(
            spec_apply_update(m, us[0], t, tn),
            us.skip(1),
            t,
            tn,
            other,
            t2,
            n2,
        );
    }
}

/// The collector of one target: its identity labels, appended to every
/// update it applies.
pub struct Collector {
    target: Vec<u8>,
    target_name: Vec<u8>,
}

/// Copies a label tuple.
fn clone_labels(v: &Vec<Vec<u8>>) -> (r: Vec<Vec<u8>>)
    ensures
        r.deep_view() == v.deep_view(),
{
    let mut r: Vec<Vec<u8>> = Vec::new();
    let n = v.len();
    let mut i: usize = 0;
    while i < n
        invariant
            n == v@.len(),
            0 <= i <= n,
            r@.len() == i,
            forall|j: int| 0 <= j < i ==> r@[j]@ == v@[j]@,
        decreases n - i,
    {
        r.push(slice_to_vec(v[i].as_slice()));
        i = i + 1;
    }
    proof {
        assert(r.deep_view() =~= v.deep_view());
    }
    r
}

impl Collector {
    /// The target address label value.
    pub closed spec fn spec_target(self) -> Seq<u8> {
        self.target@
    }

    /// The target display-name label value.
    pub closed spec fn spec_target_name(self) -> Seq<u8> {
        self.target_name@
    }

    /// Creates the collector of one target and registers the whole catalog
    /// in the registry, so every exposed metric is defined before its
    /// first poll.  A catalog entry already registered identically is left
    /// as it is; one registered differently is a fatal configuration-time
    /// conflict, reported without touching any series.
    pub fn new(registry: &mut Registry, target: &str, target_name: &str) -> (r: Result<
        Collector,
        RegistryError,
    >)
        requires
            old(registry).wf(),
        ensures
            final(registry).wf(),
            final(registry).series_map() == old(registry).series_map(),
            match r {
                Ok(c) => {
                    &&& c.spec_target() == target.spec_bytes()
                    &&& c.spec_target_name() == target_name.spec_bytes()
                    &&& forall|n: MetricName|
                        final(registry).defs_map().contains_key(n)
                            && final(registry).defs_map()[n] == n.spec_def()
                    &&& forall|n: MetricName|
                        old(registry).defs_map().contains_key(n) ==> old(registry).defs_map()[n]
                            == n.spec_def()
                },
                Err(e) => {
                    &&& e == RegistryError::Conflict
                    &&& exists|n: MetricName|
                        old(registry).defs_map().contains_key(n) && old(registry).defs_map()[n]
                            != n.spec_def()
                    &&& forall|n: MetricName|
                        old(registry).defs_map().contains_key(n)
                            ==> final(registry).defs_map().contains_key(n)
                            && final(registry).defs_map()[n] == old(registry).defs_map()[n]
                },
            },
    {
        let ghost d0 = old(registry).defs_map();
        let ghost s0 = old(registry).series_map();
        let names = catalog_names();
        let n = names.len();
        let mut i: usize = 0;
        while i < n
            invariant
                old(registry).wf(),
                registry.wf(),
                n == names@.len(),
                0 <= i <= n,
                d0 == old(registry).defs_map(),
                s0 == old(registry).series_map(),
                registry.series_map() == s0,
                forall|m: MetricName|
                    #[trigger] d0.contains_key(m) ==> registry.defs_map().contains_key(m)
                        && registry.defs_map()[m] == d0[m],
                forall|m: MetricName|
                    #[trigger] registry.defs_map().contains_key(m) ==> d0.contains_key(m)
                        || registry.defs_map()[m] == m.spec_def(),
                forall|k: int|
                    0 <= k < i ==> registry.defs_map().contains_key(#[trigger] names@[k])
                        && registry.defs_map()[names@[k]] == names@[k].spec_def(),
            decreases n - i,
        {
            let nm = names[i];
            let def = nm.def();
            let ghost before = registry.defs_map();
            match registry.ensure_registered(def) {
                Ok(()) => {},
                Err(e) => {
                    proof {
                        assert(registry.defs_map().contains_key(nm));
                        assert(registry.defs_map()[nm] != nm.spec_def());
                        assert(d0.contains_key(nm) && d0[nm] != nm.spec_def());
                        assert(exists|m: MetricName|
                            d0.contains_key(m) && d0[m] != m.spec_def());
                    }
                    return Err(e);
                },
            }
            proof {
                assert(def == nm.spec_def());
                assert(registry.defs_map() == before.insert(nm, def));
                assert forall|m: MetricName| #[trigger] d0.contains_key(m) implies registry
                    .defs_map().contains_key(m) && registry.defs_map()[m] == d0[m] by {
                    assert(before.contains_key(m) && before[m] == d0[m]);
                    if m == nm {
                        assert(before[nm] == def);
                        assert(registry.defs_map()[m] == def);
                    } else {
                        assert(registry.defs_map()[m] == before[m]);
                    }
                }
                assert forall|m: MetricName| #[trigger] registry.defs_map().contains_key(m)
                    implies d0.contains_key(m) || registry.defs_map()[m] == m.spec_def() by {
                    if m == nm {
                        assert(registry.defs_map()[m] == def);
                    } else {
                        assert(before.contains_key(m));
                        assert(registry.defs_map()[m] == before[m]);
                    }
                }
                assert forall|k: int| 0 <= k < i + 1 implies registry.defs_map().contains_key(
                    #[trigger] names@[k],
                ) && registry.defs_map()[names@[k]] == names@[k].spec_def() by {
                    if k < i {
                        assert(before.contains_key(names@[k]) && before[names@[k]]
                            == names@[k].spec_def());
                    } else {
                        assert(names@[k] == nm);
                    }
                }
            }
            i = i + 1;
        }
        proof {
            assert forall|m: MetricName|
                registry.defs_map().contains_key(m) && registry.defs_map()[m]
                    == m.spec_def() by {
                assert(names@.contains(m));
                let k = choose|k: int| 0 <= k < names@.len() && names@[k] == m;
                assert(registry.defs_map().contains_key(names@[k]));
            }
        }
        Ok(
            Collector {
                target: slice_to_vec(target.as_bytes()),
                target_name: slice_to_vec(target_name.as_bytes()),
            },
        )
    }

    /// The target's identity label tuple.
    fn identity_labels(&self) -> (r: Vec<Vec<u8>>)
        ensures
            r.deep_view() == seq![self.spec_target(), self.spec_target_name()],
    {
        let mut r: Vec<Vec<u8>> = Vec::new();
        r.push(slice_to_vec(self.target.as_slice()));
        r.push(slice_to_vec(self.target_name.as_slice()));
        proof {
            assert(r.deep_view() =~~= seq![self.spec_target(), self.spec_target_name()]);
        }
        r
    }

    /// The breakdown labels of one update with the target's identity
    /// appended as the trailing label values.
    fn full_labels(&self, breakdown: &Vec<Vec<u8>>) -> (r: Vec<Vec<u8>>)
        ensures
            r.deep_view() == breakdown.deep_view() + seq![
                self.spec_target(),
                self.spec_target_name(),
            ],
    {
        let mut r = clone_labels(breakdown);
        let ghost base = r.deep_view();
        r.push(slice_to_vec(self.target.as_slice()));
        proof {
            assert(r.deep_view() =~~= base.push(self.spec_target()));
        }
        let ghost base2 = r.deep_view();
        r.push(slice_to_vec(self.target_name.as_slice()));
        proof {
            assert(r.deep_view() =~~= base2.push(self.spec_target_name()));
            assert(r.deep_view() =~~= breakdown.deep_view() + seq![
                self.spec_target(),
                self.spec_target_name(),
            ]);
        }
        r
    }

    /// Applies a sequence of well-formed updates under the target's
    /// identity labels.
    fn apply_all(&self, registry: &mut Registry, updates: &Vec<Update>)
        requires
            old(registry).wf(),
            forall|i: int|
                0 <= i < updates.deep_view().len() ==> spec_update_wf(
                    #[trigger] updates.deep_view()[i],
                ),
        ensures
            final(registry).wf(),
            final(registry).defs_map() == old(registry).defs_map(),
            final(registry).series_map() == spec_apply_updates(
                old(registry).series_map(),
                updates.deep_view(),
                self.spec_target(),
                self.spec_target_name(),
            ),
    {
        let ghost t = self.spec_target();
        let ghost tn = self.spec_target_name();
        let ghost us = updates.deep_view();
        let ghost m0 = old(registry).series_map();
        let ghost d0 = old(registry).defs_map();
        let ghost goal = spec_apply_updates(m0, us, t, tn);
        let n = updates.len();
        let mut i: usize = 0;
        proof {
            assert(us.skip(0) =~= us);
        }
        while i < n
            invariant
                registry.wf(),
                n == updates@.len(),
                us == updates.deep_view(),
                t == self.spec_target(),
                tn == self.spec_target_name(),
                0 <= i <= n,
                registry.defs_map() == d0,
                forall|j: int| 0 <= j < us.len() ==> spec_update_wf(#[trigger] us[j]),
                spec_apply_updates(registry.series_map(), us.skip(i as int), t, tn) == goal,
            decreases n - i,
        {
            let u = &updates[i];
            let ghost uv = us[i as int];
            proof {
                assert(uv == updates@[i as int].deep_view());
                assert(uv.labels == updates@[i as int].labels.deep_view());
            }
            let ls = self.full_labels(&u.labels);
            proof {
                assert(u.labels.deep_view() == uv.labels);
                assert(seq![self.spec_target(), self.spec_target_name()] =~= seq![t, tn]);
                assert(ls.deep_view() == uv.labels + seq![t, tn]);
                assert(us.skip(i as int)[0] == uv);
                assert(us.skip(i as int).skip(1) =~= us.skip(i + 1));
            }
            match u.op {
                Op::SetGauge(v) => {
                    registry.set(u.name, ls, v);
                },
                Op::IncrementCounter(d) => {
                    if d >= 0 {
                        registry.increment(u.name, ls, d);
                    }
                },
            }
            i = i + 1;
        }
        proof {
            assert(us.skip(n as int) =~= Seq::<SpecUpdate>::empty());
        }
    }

    /// One poll's worth of registry updates from a raw status reply: the
    /// `up` gauge is set to one first — a received reply proves liveness
    /// even if nothing in it parses — and then every update of the parsed
    /// reply is applied under the target's identity labels.
    pub fn collect(&self, registry: &mut Registry, reply: &[u8])
        requires
            old(registry).wf(),
        ensures
            final(registry).wf(),
            final(registry).defs_map() == old(registry).defs_map(),
            final(registry).series_map() == spec_apply_updates(
                old(registry).series_map().insert(
                    (MetricName::Up, seq![self.spec_target(), self.spec_target_name()]),
                    MICROS_PER_UNIT as int,
                ),
                spec_parse(reply@),
                self.spec_target(),
                self.spec_target_name(),
            ),
    {
        let labels = self.identity_labels();
        registry.set(MetricName::Up, labels, MICROS_PER_UNIT);
        let updates = parse(reply);
        self.apply_all(registry, &updates);
    }

    /// Applies one per-command breakdown fragment: the key with its
    /// `cmdstat_` prefix and the comma-separated field list after the
    /// separator.
    pub fn add_cmdstat(&self, registry: &mut Registry, metric: &[u8], value: &[u8])
        requires
            old(registry).wf(),
            spec_starts_with(metric@, "cmdstat_".spec_bytes()),
        ensures
            final(registry).wf(),
            final(registry).defs_map() == old(registry).defs_map(),
            final(registry).series_map() == spec_apply_updates(
                old(registry).series_map(),
                spec_cmdstat_updates(
                    metric@.skip("cmdstat_".spec_bytes().len() as int),
                    value@,
                ),
                self.spec_target(),
                self.spec_target_name(),
            ),
    {
        let prefix = "cmdstat_".as_bytes();
        let cmd = slice_subrange(metric, prefix.len(), metric.len());
        proof {
            assert(cmd@ =~= metric@.skip("cmdstat_".spec_bytes().len() as int));
        }
        let updates = cmdstat_updates(cmd, value);
        self.apply_all(registry, &updates);
    }

    /// The catalog gauge a status key addresses, if any.
    pub fn parse_gauge_metric_name(&self, name: &[u8]) -> (r: Option<MetricName>)
        ensures
            r == spec_gauge_for_key(name@),
    {
        gauge_for_key(name)
    }

    /// The catalog counter a status key addresses, if any.
    pub fn parse_counter_metric_name(&self, name: &[u8]) -> (r: Option<MetricName>)
        ensures
            r == spec_counter_for_key(name@),
    {
        counter_for_key(name)
    }
}

} // verus!
