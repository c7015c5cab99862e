//! The reply parser.
//!
//! A pure, total function from the line-oriented status reply to an ordered
//! sequence of classified metric updates.  Malformed fragments are skipped,
//! never errored.  Each line is classified, in priority order: a per-command
//! breakdown (`cmdstat_` prefix), a catalog gauge, the catalog counter, a
//! per-database breakdown (`db` prefix), or dropped.
//!
//! The updates carry only the breakdown label (the command or database
//! name); the collector appends the target's identity labels when it
//! applies them.

use vstd::prelude::*;

use crate::catalog::MetricName;
use crate::catalog::spec_gauge_for_key;
use crate::catalog::spec_counter_for_key;
use crate::catalog::gauge_for_key;
use crate::catalog::counter_for_key;
use crate::num::spec_number_or_zero;
use crate::num::spec_parse_number;
use crate::num::spec_micros_to_seconds;
use crate::num::parse_number;
use crate::num::parse_number_or_zero;
use crate::num::micros_to_seconds;
use crate::num::lemma_number_or_zero_range;
use crate::text::spec_find;
use crate::text::spec_split_once;
use crate::text::spec_starts_with;
use crate::text::find_byte;
use crate::text::split_once;
use crate::text::starts_with;
use crate::text::lemma_find;
use vstd::slice::slice_subrange;
use vstd::slice::slice_to_vec;
use vstd::string::StringSliceAdditionalSpecFns;

verus! {

/// One classified metric update, as parsed from the reply.
pub struct Update {
    /// The catalog entry the update addresses.
    pub name: MetricName,
    /// The breakdown labels of the update: the command or database name,
    /// or empty for a per-target metric.
    pub labels: Vec<Vec<u8>>,
    /// What the update does to the series.
    pub op: Op,
}

/// The operation of an update, with its value in millionths of a unit.
pub enum Op {
    /// Overwrite the gauge.
    SetGauge(i128),
    /// Add to the counter.
    IncrementCounter(i128),
}

/// The mathematical form of an operation.
#[verifier::ext_equal]
pub ghost enum SpecOp {
    SetGauge(int),
    IncrementCounter(int),
}

/// The mathematical form of an update.
#[verifier::ext_equal]
pub ghost struct SpecUpdate {
    pub name: MetricName,
    pub labels: Seq<Seq<u8>>,
    pub op: SpecOp,
}

impl View for Op {
    type V = SpecOp;

    open spec fn view(&self) -> SpecOp {
        match *self {
            Op::SetGauge(v) => SpecOp::SetGauge(v as int),
            Op::IncrementCounter(v) => SpecOp::IncrementCounter(v as int),
        }
    }
}

impl View for Update {
    type V = SpecUpdate;

    open spec fn view(&self) -> SpecUpdate {
        SpecUpdate { name: self.name, labels: self.labels.deep_view(), op: self.op@ }
    }
}

impl DeepView for Update {
    type V = SpecUpdate;

    open spec fn deep_view(&self) -> SpecUpdate {
        self@
    }
}

/// A well-formed update: its breakdown labels are exactly those its
/// metric's schema expects beyond the two identity labels, its operation
/// fits its metric's kind, and its value is representable.
pub open spec fn spec_update_wf(u: SpecUpdate) -> bool {
    &&& u.labels.len() + 2 == u.name.spec_schema().spec_arity()
    &&& match u.op {
        SpecOp::SetGauge(v) => u.name.spec_kind() == crate::catalog::Kind::Gauge
            && -i128::MAX <= v <= i128::MAX,
        SpecOp::IncrementCounter(v) => u.name.spec_kind() == crate::catalog::Kind::Counter
            && -i128::MAX <= v <= i128::MAX,
    }
}

/// A line with its trailing carriage return removed, if it has one.
pub open spec fn spec_strip_cr(l: Seq<u8>) -> Seq<u8> {
    if l.len() > 0 && l.last() == 13 {
        l.drop_last()
    } else {
        l
    }
}

/// The comma-separated fragments of a field list.
pub open spec fn spec_split_fields(rest: Seq<u8>) -> Seq<Seq<u8>>
    decreases rest.len(),
    via spec_split_fields_decreases
{
    match spec_find(rest, 44) {
        None => seq![rest],
        Some(i) => seq![rest.subrange(0, i)] + spec_split_fields(
            rest.subrange(i + 1, rest.len() as int),
        ),
    }
}

#[via_fn]
proof fn spec_split_fields_decreases(rest: Seq<u8>) {
    lemma_find(rest, 44);
}

/// The value of the named field among `key=value` fragments, the last
/// occurrence winning; fragments without `=` are ignored.
pub open spec fn spec_field_lookup(frags: Seq<Seq<u8>>, name: Seq<u8>) -> Option<Seq<u8>>
    decreases frags.len(),
{
    if frags.len() == 0 {
        None
    } else {
        match spec_split_once(frags.last(), 61) {
            Some((k, v)) => if k == name {
                Some(v)
            } else {
                spec_field_lookup(frags.drop_last(), name)
            },
            None => spec_field_lookup(frags.drop_last(), name),
        }
    }
}

/// The value of the named field of a comma-separated field list.
pub open spec fn spec_field(rest: Seq<u8>, name: Seq<u8>) -> Option<Seq<u8>> {
    spec_field_lookup(spec_split_fields(rest), name)
}

/// The updates of one per-command breakdown line: for each of the `calls`,
/// `rejected_calls` and `usec` fields that is present, one gauge update
/// labeled with the command name.  A field that fails numeric parse is
/// defaulted to zero, not dropped.  The `usec` field is converted from
/// microseconds to seconds exactly.
pub open spec fn spec_cmdstat_updates(cmd: Seq<u8>, rest: Seq<u8>) -> Seq<SpecUpdate> {
    let calls = match spec_field(rest, "calls".spec_bytes()) {
        Some(v) => seq![
            SpecUpdate {
                name: MetricName::CommandsTotal,
                labels: seq![cmd],
                op: SpecOp::SetGauge(spec_number_or_zero(v)),
            },
        ],
        None => Seq::empty(),
    };
    let rejected = match spec_field(rest, "rejected_calls".spec_bytes()) {
        Some(v) => seq![
            SpecUpdate {
                name: MetricName::CommandsRejectedCallsTotal,
                labels: seq![cmd],
                op: SpecOp::SetGauge(spec_number_or_zero(v)),
            },
        ],
        None => Seq::empty(),
    };
    let usec = match spec_field(rest, "usec".spec_bytes()) {
        Some(v) => seq![
            SpecUpdate {
                name: MetricName::CommandsDurationSecondsTotal,
                labels: seq![cmd],
                op: SpecOp::SetGauge(spec_micros_to_seconds(spec_number_or_zero(v))),
            },
        ],
        None => Seq::empty(),
    };
    calls + rejected + usec
}

/// The updates of one per-database breakdown line: the `keys` and
/// `expires` fields that are present and parse, each as a gauge update
/// labeled with the database key.  A field that fails numeric parse is
/// omitted here, not defaulted.
pub open spec fn spec_db_updates(db: Seq<u8>, rest: Seq<u8>) -> Seq<SpecUpdate> {
    let keys = match spec_field(rest, "keys".spec_bytes()) {
        Some(v) => match spec_parse_number(v) {
            Some(x) => seq![
                SpecUpdate {
                    name: MetricName::DbKeys,
                    labels: seq![db],
                    op: SpecOp::SetGauge(x),
                },
            ],
            None => Seq::empty(),
        },
        None => Seq::empty(),
    };
    let expires = match spec_field(rest, "expires".spec_bytes()) {
        Some(v) => match spec_parse_number(v) {
            Some(x) => seq![
                SpecUpdate {
                    name: MetricName::DbKeysExpiring,
                    labels: seq![db],
                    op: SpecOp::SetGauge(x),
                },
            ],
            None => Seq::empty(),
        },
        None => Seq::empty(),
    };
    keys + expires
}

/// The updates of one line of the reply.  Blank lines, section headers,
/// lines without a separator and lines whose key is unsupported yield no
/// update.
pub open spec fn spec_parse_line(l: Seq<u8>) -> Seq<SpecUpdate> {
    if l.len() == 0 || l[0] == 35 {
        Seq::empty()
    } else {
        match spec_split_once(l, 58) {
            None => Seq::empty(),
            Some((key, rest)) => if spec_starts_with(key, "cmdstat_".spec_bytes()) {
                spec_cmdstat_updates(key.skip("cmdstat_".spec_bytes().len() as int), rest)
            } else {
                match spec_gauge_for_key(key) {
                    Some(n) => seq![
                        SpecUpdate {
                            name: n,
                            labels: Seq::empty(),
                            op: SpecOp::SetGauge(spec_number_or_zero(rest)),
                        },
                    ],
                    None => match spec_counter_for_key(key) {
                        Some(n) => seq![
                            SpecUpdate {
                                name: n,
                                labels: Seq::empty(),
                                op: SpecOp::IncrementCounter(spec_number_or_zero(rest)),
                            },
                        ],
                        None => if spec_starts_with(key, "db".spec_bytes()) {
                            spec_db_updates(key, rest)
                        } else {
                            Seq::empty()
                        },
                    },
                }
            },
        }
    }
}

/// The update sequence of a whole reply: the lines in order, each stripped
/// of a trailing carriage return, each contributing its updates.
pub open spec fn spec_parse(r: Seq<u8>) -> Seq<SpecUpdate>
    decreases r.len(),
    via spec_parse_decreases
{
    if r.len() == 0 {
        Seq::empty()
    } else {
        match spec_find(r, 10) {
            None => spec_parse_line(spec_strip_cr(r)),
            Some(i) => spec_parse_line(spec_strip_cr(r.subrange(0, i))) + spec_parse(
                r.subrange(i + 1, r.len() as int),
            ),
        }
    }
}

#[via_fn]
proof fn spec_parse_decreases(r: Seq<u8>) {
    lemma_find(r, 10);
}

/// Finds the value of the named field in a comma-separated field list,
/// the last occurrence winning.
fn field_value<'a>(rest: &'a [u8], name: &[u8]) -> (r: Option<&'a [u8]>)
    ensures
        match r {
            Some(v) => spec_field(rest@, name@) == Some(v@),
            None => spec_field(rest@, name@).is_none(),
        },
{
    let ghost frags = spec_split_fields(rest@);
    let mut seg: &[u8] = rest;
    let mut found: Option<&'a [u8]> = None;
    let ghost mut processed: Seq<Seq<u8>> = Seq::empty();
    loop
        invariant
            frags == spec_split_fields(rest@),
            frags == processed + spec_split_fields(seg@),
            match found {
                Some(v) => spec_field_lookup(processed, name@) == Some(v@),
                None => spec_field_lookup(processed, name@).is_none(),
            },
        decreases seg@.len(),
    {
        let (frag, tail): (&[u8], Option<&[u8]>) = match find_byte(seg, 44) {
            None => (seg, None),
            Some(i) => {
                let n = seg.len();
                proof {
                    lemma_find(seg@, 44);
                    assert((i as int) < n as int);
                }
                let f = slice_subrange(seg, 0, i);
                let t = slice_subrange(seg, i + 1, n);
                (f, Some(t))
            },
        };
        match split_once(frag, 61) {
            Some((k, v)) => {
                if crate::text::bytes_eq(k, name) {
                    found = Some(v);
                }
            },
            None => {},
        }
        proof {
            let stepped = processed.push(frag@);
            assert(stepped.drop_last() =~= processed);
            assert(stepped.last() == frag@);
            processed = stepped;
        }
        match tail {
            None => {
                proof {
                    assert(frags =~= processed);
                }
                return found;
            },
            Some(t) => {
                proof {
                    assert(frags =~= processed + spec_split_fields(t@));
                }
                seg = t;
            },
        }
    }
}

/// A one-element label tuple.
fn single_label(b: &[u8]) -> (r: Vec<Vec<u8>>)
    ensures
        r.deep_view() == seq![b@],
{
    let mut r: Vec<Vec<u8>> = Vec::new();
    r.push(slice_to_vec(b));
    proof {
        assert(r.deep_view() =~~= seq![b@]);
    }
    r
}

/// Builds the updates of one per-command breakdown fragment: the command
/// name (already stripped of its prefix) and the field list.
#[verifier::rlimit(60)]
pub fn cmdstat_updates(cmd: &[u8], rest: &[u8]) -> (r: Vec<Update>)
    ensures
        r.deep_view() == spec_cmdstat_updates(cmd@, rest@),
        forall|i: int|
            0 <= i < r.deep_view().len() ==> spec_update_wf(#[trigger] r.deep_view()[i]),
{
    let ghost goal = spec_cmdstat_updates(cmd@, rest@);
    let mut out: Vec<Update> = Vec::new();
    match field_value(rest, "calls".as_bytes()) {
        Some(v) => {
            let value = parse_number_or_zero(v);
            proof {
                lemma_number_or_zero_range(v@);
            }
            out.push(
                Update {
                    name: MetricName::CommandsTotal,
                    labels: single_label(cmd),
                    op: Op::SetGauge(value),
                },
            );
        },
        None => {},
    }
    proof {
        assert(forall|i: int|
            0 <= i < out.deep_view().len() ==> spec_update_wf(#[trigger] out.deep_view()[i]));
    }
    match field_value(rest, "rejected_calls".as_bytes()) {
        Some(v) => {
            let value = parse_number_or_zero(v);
            proof {
                lemma_number_or_zero_range(v@);
            }
            out.push(
                Update {
                    name: MetricName::CommandsRejectedCallsTotal,
                    labels: single_label(cmd),
                    op: Op::SetGauge(value),
                },
            );
        },
        None => {},
    }
    proof {
        assert(forall|i: int|
            0 <= i < out.deep_view().len() ==> spec_update_wf(#[trigger] out.deep_view()[i]));
    }
    match field_value(rest, "usec".as_bytes()) {
        Some(v) => {
            let micros = parse_number_or_zero(v);
            proof {
                lemma_number_or_zero_range(v@);
            }
            let value = micros_to_seconds(micros);
            out.push(
                Update {
                    name: MetricName::CommandsDurationSecondsTotal,
                    labels: single_label(cmd),
                    op: Op::SetGauge(value),
                },
            );
        },
        None => {},
    }
    proof {
        assert(forall|i: int|
            0 <= i < out.deep_view().len() ==> spec_update_wf(#[trigger] out.deep_view()[i]));
        assert(out.deep_view() =~~= goal);
    }
    out
}

/// Appends the updates of one line (already stripped of its carriage
/// return) to `out`.
#[verifier::rlimit(60)]
fn parse_line_into(line: &[u8], out: &mut Vec<Update>)
    ensures
        final(out).deep_view() == old(out).deep_view() + spec_parse_line(line@),
        forall|i: int|
            old(out).deep_view().len() <= i < final(out).deep_view().len() ==> spec_update_wf(
                #[trigger] final(out).deep_view()[i],
            ),
{
    let ghost base = old(out).deep_view();
    let ghost target = spec_parse_line(line@);
    let n = line.len();
    if n == 0 || line[0] == 35 {
        proof {
            assert(out.deep_view() =~~= base + target);
        }
        return ;
    }
    let (key, rest) = match split_once(line, 58) {
        None => {
            proof {
                assert(out.deep_view() =~~= base + target);
            }
            return ;
        },
        Some(kv) => kv,
    };
    let prefix = "cmdstat_".as_bytes();
    if starts_with(key, prefix) {
        let cmd = slice_subrange(key, prefix.len(), key.len());
        proof {
            assert(cmd@ =~= key@.skip("cmdstat_".spec_bytes().len() as int));
        }
        let mut us = cmdstat_updates(cmd, rest);
        out.append(&mut us);
        proof {
            assert(out.deep_view() =~~= base + target);
        }
        return ;
    }
    match gauge_for_key(key) {
        Some(nm) => {
            let value = parse_number_or_zero(rest);
            proof {
                crate::catalog::lemma_gauge_for_key_shape(key@);
                lemma_number_or_zero_range(rest@);
            }
            out.push(Update { name: nm, labels: Vec::new(), op: Op::SetGauge(value) });
            proof {
                assert(out.deep_view() =~~= base + target);
            }
            return ;
        },
        None => {},
    }
    match counter_for_key(key) {
        Some(nm) => {
            let value = parse_number_or_zero(rest);
            proof {
                lemma_number_or_zero_range(rest@);
            }
            out.push(Update { name: nm, labels: Vec::new(), op: Op::IncrementCounter(value) });
            proof {
                assert(out.deep_view() =~~= base + target);
            }
            return ;
        },
        None => {},
    }
    if starts_with(key, "db".as_bytes()) {
        match field_value(rest, "keys".as_bytes()) {
            Some(v) => match parse_number(v) {
                Some(x) => {
                    proof {
                        lemma_number_or_zero_range(v@);
                    }
                    out.push(
                        Update {
                            name: MetricName::DbKeys,
                            labels: single_label(key),
                            op: Op::SetGauge(x),
                        },
                    );
                },
                None => {},
            },
            None => {},
        }
        match field_value(rest, "expires".as_bytes()) {
            Some(v) => match parse_number(v) {
                Some(x) => {
                    proof {
                        lemma_number_or_zero_range(v@);
                    }
                    out.push(
                        Update {
                            name: MetricName::DbKeysExpiring,
                            labels: single_label(key),
                            op: Op::SetGauge(x),
                        },
                    );
                },
                None => {},
            },
            None => {},
        }
        proof {
            assert(out.deep_view() =~~= base + target);
        }
        return ;
    }
    proof {
        assert(out.deep_view() =~~= base + target);
    }
}

/// Parses a status reply into its ordered sequence of classified metric
/// updates.  Pure and total: malformed fragments are skipped, never
/// errored, and the same reply always yields the same sequence.
#[verifier::rlimit(60)]
pub fn parse(reply: &[u8]) -> (r: Vec<Update>)
    ensures
        r.deep_view() == spec_parse(reply@),
        forall|i: int|
            0 <= i < r.deep_view().len() ==> spec_update_wf(#[trigger] r.deep_view()[i]),
{
    let mut out: Vec<Update> = Vec::new();
    let n = reply.len();
    let mut pos: usize = 0;
    proof {
        assert(reply@.skip(0) =~= reply@);
        assert(out.deep_view() =~= Seq::<SpecUpdate>::empty());
        assert(out.deep_view() + spec_parse(reply@) =~= spec_parse(reply@));
    }
    while pos < n
        invariant
            n == reply@.len(),
            0 <= pos <= n,
            out.deep_view() + spec_parse(reply@.skip(pos as int)) == spec_parse(reply@),
            forall|i: int|
                0 <= i < out.deep_view().len() ==> spec_update_wf(#[trigger] out.deep_view()[i]),
        decreases n - pos,
    {
        let seg = slice_subrange(reply, pos, n);
        let ghost segv = reply@.skip(pos as int);
        proof {
            assert(seg@ =~= segv);
        }
        let (line, next): (&[u8], usize) = match find_byte(seg, 10) {
            None => (seg, n),
            Some(i) => {
                proof {
                    lemma_find(seg@, 10);
                    assert((i as int) < segv.len());
                }
                (slice_subrange(seg, 0, i), pos + i + 1)
            },
        };
        // Strip one trailing carriage return.
        let line = if line.len() > 0 && line[line.len() - 1] == 13 {
            slice_subrange(line, 0, line.len() - 1)
        } else {
            line
        };
        proof {
            assert(line@ =~= spec_strip_cr(
                match spec_find(segv, 10) {
                    None => segv,
                    Some(i) => segv.subrange(0, i),
                },
            ));
        }
        parse_line_into(line, &mut out);
        proof {
            if spec_find(segv, 10).is_some() {
                let i = spec_find(segv, 10).unwrap();
                assert(reply@.skip(pos + i + 1) =~= segv.subrange(i + 1, segv.len() as int));
            }
        }
        pos = next;
    }
    proof {
        assert(reply@.skip(pos as int) =~= Seq::<u8>::empty());
        assert(out.deep_view() =~= out.deep_view() + spec_parse(reply@.skip(pos as int)));
    }
    out
}

} // verus!
