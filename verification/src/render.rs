//! Exposition rendering.
//!
//! The plaintext body served on each pull: one line per series, rendered
//! fresh from a registry snapshot, with the exporter's namespace prefix,
//! the label values quoted in schema order, and the fixed-point value
//! printed as a decimal with its trailing zeros trimmed.

use vstd::prelude::*;

use crate::catalog::LabelSchema;
use crate::catalog::MetricName;
use crate::registry::Series;
use crate::text::append_bytes;
use vstd::string::StringSliceAdditionalSpecFns;
use vstd::utf8::encode_utf8;

verus! {

/// The decimal digits of a whole number, most significant first.
pub open spec fn spec_digits_of(n: nat) -> Seq<u8>
    decreases n,
{
    if n < 10 {
        seq![(48 + n) as u8]
    } else {
        spec_digits_of((n / 10) as nat).push((48 + n % 10) as u8)
    }
}

/// Appends the decimal digits of `n`.
fn push_digits(n: u128, out: &mut Vec<u8>)
    ensures
        final(out)@ == old(out)@ + spec_digits_of(n as nat),
    decreases n,
{
    if n < 10 {
        out.push((n as u8) + 48);
        proof {
            assert(out@ =~= old(out)@ + spec_digits_of(n as nat));
        }
    } else {
        push_digits(n / 10, out);
        out.push(((n % 10) as u8) + 48);
        proof {
            assert(out@ =~= old(out)@ + spec_digits_of(n as nat));
        }
    }
}

/// The six digits of a fraction of millionths, most significant first.
pub open spec fn spec_frac6(f: nat) -> Seq<u8> {
    seq![
        (48 + (f / 100000) % 10) as u8,
        (48 + (f / 10000) % 10) as u8,
        (48 + (f / 1000) % 10) as u8,
        (48 + (f / 100) % 10) as u8,
        (48 + (f / 10) % 10) as u8,
        (48 + f % 10) as u8,
    ]
}

/// A digit string with its trailing zeros removed.
pub open spec fn spec_trim_zeros(f: Seq<u8>) -> Seq<u8>
    decreases f.len(),
{
    if f.len() > 0 && f.last() == 48 {
        spec_trim_zeros(f.drop_last())
    } else {
        f
    }
}

/// A fixed-point value printed as a decimal: an optional minus sign, the
/// whole units, and the fraction digits that remain once trailing zeros
/// are trimmed, after a point.  A whole value prints without a point.
pub open spec fn spec_render_value(v: int) -> Seq<u8> {
    let m = (if v < 0 {
        -v
    } else {
        v
    }) as nat;
    let sign: Seq<u8> = if v < 0 {
        seq![45u8]
    } else {
        Seq::empty()
    };
    let tail = spec_trim_zeros(spec_frac6(m % 1000000));
    sign + spec_digits_of((m / 1000000) as nat) + (if tail.len() == 0 {
        Seq::<u8>::empty()
    } else {
        seq![46u8] + tail
    })
}

/// Prints a fixed-point value as a decimal.
pub fn render_value(v: i128) -> (r: Vec<u8>)
    ensures
        r@ == spec_render_value(v as int),
{
    let mut out: Vec<u8> = Vec::new();
    let m: u128 = if v < 0 {
        out.push(45);
        ((-(v + 1)) as u128) + 1
    } else {
        v as u128
    };
    proof {
        assert(m as int == if (v as int) < 0 {
            -(v as int)
        } else {
            v as int
        });
    }
    let units = m / 1_000_000;
    let frac = m % 1_000_000;
    push_digits(units, &mut out);
    let mut fd: Vec<u8> = Vec::new();
    fd.push((((frac / 100000) % 10) as u8) + 48);
    fd.push((((frac / 10000) % 10) as u8) + 48);
    fd.push((((frac / 1000) % 10) as u8) + 48);
    fd.push((((frac / 100) % 10) as u8) + 48);
    fd.push((((frac / 10) % 10) as u8) + 48);
    fd.push(((frac % 10) as u8) + 48);
    proof {
        assert(fd@ =~= spec_frac6(frac as nat));
    }
    let ghost whole_frac = fd@;
    loop
        invariant
            spec_trim_zeros(fd@) == spec_trim_zeros(whole_frac),
        ensures
            fd@ == spec_trim_zeros(whole_frac),
        decreases fd@.len(),
    {
        let n = fd.len();
        if n == 0 {
            break ;
        }
        if fd[n - 1] != 48 {
            break ;
        }
        let ghost pre = fd@;
        fd.pop();
        proof {
            assert(fd@ =~= pre.drop_last());
        }
    }
    proof {
        assert(fd@ == spec_trim_zeros(whole_frac));
    }
    if fd.len() > 0 {
        out.push(46);
        out.append(&mut fd);
    }
    proof {
        assert(out@ =~= spec_render_value(v as int));
    }
    out
}

/// The label names of a schema, in order.
pub open spec fn spec_label_names(s: LabelSchema) -> Seq<Seq<u8>> {
    match s {
        LabelSchema::PerTarget => seq!["target".spec_bytes(), "target_name".spec_bytes()],
        LabelSchema::PerCommand => seq![
            "cmd".spec_bytes(),
            "target".spec_bytes(),
            "target_name".spec_bytes(),
        ],
        LabelSchema::PerDatabase => seq![
            "db".spec_bytes(),
            "target".spec_bytes(),
            "target_name".spec_bytes(),
        ],
    }
}

/// The exposition label list: each label name with its quoted value,
/// comma-separated, as far as names and values pair up.
pub open spec fn spec_render_labels(names: Seq<Seq<u8>>, values: Seq<Seq<u8>>) -> Seq<u8>
    decreases names.len(),
{
    if names.len() == 0 || values.len() == 0 {
        Seq::empty()
    } else {
        let head = names[0] + seq![61u8, 34u8] + values[0] + seq![34u8];
        if names.len() == 1 || values.len() == 1 {
            head
        } else {
            head + seq![44u8] + spec_render_labels(names.skip(1), values.skip(1))
        }
    }
}

/// The label names of a schema, as byte fragments.
fn label_names(s: LabelSchema) -> (r: Vec<&'static [u8]>)
    ensures
        r@.len() == spec_label_names(s).len(),
        forall|i: int| 0 <= i < r@.len() ==> (#[trigger] r@[i])@ == spec_label_names(s)[i],
{
    let mut r: Vec<&'static [u8]> = Vec::new();
    match s {
        LabelSchema::PerTarget => {},
        LabelSchema::PerCommand => {
            r.push("cmd".as_bytes());
        },
        LabelSchema::PerDatabase => {
            r.push("db".as_bytes());
        },
    }
    r.push("target".as_bytes());
    r.push("target_name".as_bytes());
    r
}

/// Appends the rendered label list of one series.
fn render_labels(schema: LabelSchema, values: &Vec<Vec<u8>>, out: &mut Vec<u8>)
    ensures
        final(out)@ == old(out)@ + spec_render_labels(
            spec_label_names(schema),
            values.deep_view(),
        ),
{
    let names = label_names(schema);
    let ghost namesv = spec_label_names(schema);
    let ghost valsv = values.deep_view();
    let ghost goal = old(out)@ + spec_render_labels(namesv, valsv);
    let count = if names.len() < values.len() {
        names.len()
    } else {
        values.len()
    };
    let mut i: usize = 0;
    proof {
        assert(namesv.skip(0) =~= namesv);
        assert(valsv.skip(0) =~= valsv);
    }
    while i < count
        invariant
            namesv == spec_label_names(schema),
            valsv == values.deep_view(),
            names@.len() == namesv.len(),
            forall|j: int| 0 <= j < names@.len() ==> (#[trigger] names@[j])@ == namesv[j],
            count == if namesv.len() < valsv.len() {
                namesv.len()
            } else {
                valsv.len()
            },
            0 <= i <= count,
            goal == out@ + spec_render_labels(namesv.skip(i as int), valsv.skip(i as int)),
        decreases count - i,
    {
        append_bytes(out, names[i]);
        out.push(61);
        out.push(34);
        append_bytes(out, values[i].as_slice());
        out.push(34);
        if i + 1 < count {
            out.push(44);
        }
        proof {
            assert(namesv.skip(i as int)[0] == namesv[i as int]);
            assert(valsv.skip(i as int)[0] == valsv[i as int]);
            assert(namesv.skip(i as int).skip(1) =~= namesv.skip(i + 1));
            assert(valsv.skip(i as int).skip(1) =~= valsv.skip(i + 1));
            assert(valsv[i as int] == values@[i as int]@);
            if i + 1 < count {
                assert(goal =~= out@ + spec_render_labels(namesv.skip(i + 1), valsv.skip(i + 1)));
            } else {
                assert(namesv.skip(i as int).len() == 1 || valsv.skip(i as int).len() == 1);
                assert(goal =~= out@ + spec_render_labels(namesv.skip(i + 1), valsv.skip(i + 1)));
            }
        }
        i = i + 1;
    }
    proof {
        assert(spec_render_labels(namesv.skip(count as int), valsv.skip(count as int))
            =~= Seq::<u8>::empty());
        assert(out@ =~= goal);
    }
}

/// One rendered exposition line: the namespaced metric name, the label
/// list in braces, the value, and a line break.
pub open spec fn spec_render_line(name: MetricName, labels: Seq<Seq<u8>>, value: int) -> Seq<
    u8,
> {
    "redis_".spec_bytes() + encode_utf8(name.spec_text()) + seq![123u8] + spec_render_labels(
        spec_label_names(name.spec_schema()),
        labels,
    ) + seq![125u8, 32u8] + spec_render_value(value) + seq![10u8]
}

/// The whole exposition body of a snapshot: every series, one line each,
/// in snapshot order.
pub open spec fn spec_render(rows: Seq<Series>) -> Seq<u8>
    decreases rows.len(),
{
    if rows.len() == 0 {
        Seq::empty()
    } else {
        spec_render_line(rows[0].name, rows[0].labels.deep_view(), rows[0].value as int)
            + spec_render(rows.skip(1))
    }
}

/// Renders a registry snapshot as the exposition body.
#[verifier::rlimit(60)]
pub fn render(snapshot: &Vec<Series>) -> (r: Vec<u8>)
    ensures
        r@ == spec_render(snapshot@),
{
    let mut out: Vec<u8> = Vec::new();
    let n = snapshot.len();
    let mut i: usize = 0;
    proof {
        assert(snapshot@.skip(0) =~= snapshot@);
        assert(out@ + spec_render(snapshot@) =~= spec_render(snapshot@));
    }
    while i < n
        invariant
            n == snapshot@.len(),
            0 <= i <= n,
            out@ + spec_render(snapshot@.skip(i as int)) == spec_render(snapshot@),
        decreases n - i,
    {
        let s = &snapshot[i];
        let ghost pre = out@;
        append_bytes(&mut out, "redis_".as_bytes());
        append_bytes(&mut out, s.name.text().as_bytes());
        out.push(123);
        render_labels(s.name.schema(), &s.labels, &mut out);
        out.push(125);
        out.push(32);
        let vb = render_value(s.value);
        append_bytes(&mut out, vb.as_slice());
        out.push(10);
        proof {
            let row = snapshot@[i as int];
            assert(out@ =~= pre + spec_render_line(row.name, row.labels.deep_view(), row.value as int));
            assert(snapshot@.skip(i as int)[0] == row);
            assert(snapshot@.skip(i as int).skip(1) =~= snapshot@.skip(i + 1));
        }
        i = i + 1;
    }
    proof {
        assert(spec_render(snapshot@.skip(n as int)) =~= Seq::<u8>::empty());
        assert(out@ =~= out@ + spec_render(snapshot@.skip(n as int)));
    }
    out
}

} // verus!
