//! The report: configured pins, output pins first and input pins after,
//! each group by ascending index, one padded line per pin.
use vstd::prelude::*;
use crate::pin::{Pin, PinMode, PinValue};
use crate::text::{decimal, decimal_text, mode_label, mode_text, padded, right_padd, value_label, value_text};

verus! {

/// Width that the part of a report line before ` = ` is padded to.
pub const REPORT_WIDTH: i64 = 30;

/// One configured pin as the report lists it.
#[derive(PartialEq, Eq, Structural, Clone, Copy, Debug)]
pub struct ReportEntry {
    pub mode: PinMode,
    pub pin_id: usize,
    pub value: PinValue,
}

/// The entry for the pin at index `i`, which must be configured.
pub open spec fn entry_of(pins: Seq<Pin>, i: int) -> ReportEntry {
    ReportEntry { mode: pins[i].mode->0, pin_id: i as usize, value: pins[i].value }
}

/// Entries for the pins among the first `n` whose mode is `mode`, by index.
pub open spec fn group(pins: Seq<Pin>, mode: PinMode, n: int) -> Seq<ReportEntry>
    decreases n,
{
    if n <= 0 {
        Seq::empty()
    } else if pins[n - 1].mode == Some(mode) {
        group(pins, mode, n - 1).push(entry_of(pins, n - 1))
    } else {
        group(pins, mode, n - 1)
    }
}

/// The order of the report: the output group, then the input group.
pub open spec fn report_order(pins: Seq<Pin>) -> Seq<ReportEntry> {
    group(pins, PinMode::Output, pins.len() as int) + group(pins, PinMode::Input, pins.len() as int)
}

/// `<mode> pin <index> `, before padding.
pub open spec fn prefix_text(e: ReportEntry) -> Seq<char> {
    mode_text(e.mode) + " pin "@ + decimal_text(e.pin_id as nat) + " "@
}

/// The line for one entry: the padded prefix, then ` = <level>`.
pub open spec fn line_text(e: ReportEntry) -> Seq<char> {
    padded(prefix_text(e), REPORT_WIDTH as int, ' ') + " = "@ + value_text(e.value)
}

/// Each entry's line followed by a line break.
pub open spec fn lines_text(es: Seq<ReportEntry>) -> Seq<char>
    decreases es.len(),
{
    if es.len() == 0 {
        Seq::empty()
    } else {
        lines_text(es.drop_last()) + line_text(es.last()) + "\n"@
    }
}

/// The whole report: every line, then an empty line.
pub open spec fn report_text(pins: Seq<Pin>) -> Seq<char> {
    lines_text(report_order(pins)) + "\n"@
}

fn collect_group(pins: &Vec<Pin>, mode: PinMode, out: &mut Vec<ReportEntry>)
    ensures
        final(out)@ == old(out)@ + group(pins@, mode, pins@.len() as int),
{
    let ghost start = out@;
    let mut i: usize = 0;
    while i < pins.len()
        invariant
            i <= pins@.len(),
            out@ == start + group(pins@, mode, i as int),
        decreases pins.len() - i,
    {
        let p = pins[i];
        match p.mode {
            Some(m) => {
                if m == mode {
                    out.push(ReportEntry { mode: m, pin_id: i, value: p.value });
                }
            },
            None => {},
        }
        i = i + 1;
        assert(out@ =~= start + group(pins@, mode, i as int));
    }
}

/// The configured pins of `pins` in report order.
pub fn report_entries(pins: &Vec<Pin>) -> (r: Vec<ReportEntry>)
    ensures
        r@ == report_order(pins@),
{
    let mut r: Vec<ReportEntry> = Vec::new();
    collect_group(pins, PinMode::Output, &mut r);
    collect_group(pins, PinMode::Input, &mut r);
    assert(r@ =~= report_order(pins@));
    r
}

/// The part of an entry's line before ` = `, padded to `REPORT_WIDTH`.
pub fn report_prefix(e: &ReportEntry) -> (r: String)
    ensures
        r@ == padded(prefix_text(*e), REPORT_WIDTH as int, ' '),
{
    let mut s = String::from_str(mode_label(e.mode));
    s.append(" pin ");
    let index = decimal(e.pin_id);
    s.append(index.as_str());
    s.append(" ");
    right_padd(s, REPORT_WIDTH, ' ')
}

/// The report line of one entry, without a line break.
pub fn report_line(e: &ReportEntry) -> (r: String)
    ensures
        r@ == line_text(*e),
{
    let mut s = report_prefix(e);
    s.append(" = ");
    s.append(value_label(e.value));
    s
}

/// The report of a snapshot of pins: one line per configured pin, in report
/// order, each ending in a line break, and then an empty line.
pub fn report(pins: &Vec<Pin>) -> (r: String)
    ensures
        r@ == report_text(pins@),
{
    let entries = report_entries(pins);
    let mut r = String::new();
    let mut k: usize = 0;
    while k < entries.len()
        invariant
            k <= entries@.len(),
            entries@ == report_order(pins@),
            r@ == lines_text(entries@.take(k as int)),
        decreases entries.len() - k,
    {
        let line = report_line(&entries[k]);
        r.append(line.as_str());
        r.append("\n");
        k = k + 1;
        assert(entries@.take(k as int).drop_last() =~= entries@.take(k - 1));
    }
    assert(entries@.take(k as int) =~= entries@);
    r.append("\n");
    r
}

/// What `group` holds: entries for pins of that mode only, with their
/// levels, in strictly increasing index order, and one for every such pin.
proof fn lemma_group(pins: Seq<Pin>, mode: PinMode, n: int)
    requires
        0 <= n <= pins.len() <= usize::MAX,
    ensures
        forall|k: int|
            0 <= k < group(pins, mode, n).len() ==> {
                let e = #[trigger] group(pins, mode, n)[k];
                &&& e.mode == mode
                &&& e.pin_id < n
                &&& pins[e.pin_id as int].mode == Some(mode)
                &&& e.value == pins[e.pin_id as int].value
            },
        forall|k1: int, k2: int|
            0 <= k1 < k2 < group(pins, mode, n).len() ==> #[trigger] group(pins, mode, n)[k1].pin_id
                < #[trigger] group(pins, mode, n)[k2].pin_id,
        forall|i: int|
            0 <= i < n && #[trigger] pins[i].mode == Some(mode) ==> exists|k: int|
                0 <= k < group(pins, mode, n).len() && #[trigger] group(pins, mode, n)[k].pin_id
                    == i,
    decreases n,
{
    if n > 0 {
        lemma_group(pins, mode, n - 1);
        let g = group(pins, mode, n - 1);
        if pins[n - 1].mode == Some(mode) {
            let g2 = g.push(entry_of(pins, n - 1));
            assert(g2[g.len() as int].pin_id == n - 1);
            assert forall|i: int|
                0 <= i < n && #[trigger] pins[i].mode == Some(mode) implies exists|k: int|
                    0 <= k < g2.len() && #[trigger] g2[k].pin_id == i by {
                if i < n - 1 {
                    let k = choose|k: int| 0 <= k < g.len() && #[trigger] g[k].pin_id == i;
                    assert(g2[k].pin_id == i);
                }
            }
        }
    }
}

/// In a report, every output pin comes before every input pin, and within
/// each group the pin indices strictly increase. Each entry is a configured
/// pin with its mode and level, and every configured pin has an entry.
pub proof fn lemma_report_order(pins: Seq<Pin>)
    requires
        pins.len() <= usize::MAX,
    ensures
        forall|i: int, j: int|
            0 <= i < j < report_order(pins).len() && #[trigger] report_order(pins)[i].mode
                == PinMode::Input ==> #[trigger] report_order(pins)[j].mode == PinMode::Input,
        forall|i: int, j: int|
            0 <= i < j < report_order(pins).len() && #[trigger] report_order(pins)[i].mode
                == #[trigger] report_order(pins)[j].mode ==> report_order(pins)[i].pin_id
                < report_order(pins)[j].pin_id,
        forall|k: int|
            0 <= k < report_order(pins).len() ==> {
                let e = #[trigger] report_order(pins)[k];
                &&& e.pin_id < pins.len()
                &&& pins[e.pin_id as int].mode == Some(e.mode)
                &&& pins[e.pin_id as int].value == e.value
            },
        forall|i: int|
            0 <= i < pins.len() && (#[trigger] pins[i].mode) is Some ==> exists|k: int|
                0 <= k < report_order(pins).len() && #[trigger] report_order(pins)[k].pin_id == i,
{
    let n = pins.len() as int;
    let out = group(pins, PinMode::Output, n);
    let inp = group(pins, PinMode::Input, n);
    let o = report_order(pins);
    lemma_group(pins, PinMode::Output, n);
    lemma_group(pins, PinMode::Input, n);
    assert forall|k: int| 0 <= k < o.len() implies (#[trigger] o[k] == if k < out.len() {
        out[k]
    } else {
        inp[k - out.len()]
    }) by {}
    assert forall|i: int|
        0 <= i < n && (#[trigger] pins[i].mode) is Some implies exists|k: int|
            0 <= k < o.len() && #[trigger] o[k].pin_id == i by {
        if pins[i].mode == Some(PinMode::Output) {
            let k = choose|k: int| 0 <= k < out.len() && #[trigger] out[k].pin_id == i;
            assert(o[k].pin_id == i);
        } else {
            assert(pins[i].mode == Some(PinMode::Input));
            let k = choose|k: int| 0 <= k < inp.len() && #[trigger] inp[k].pin_id == i;
            assert(o[out.len() + k].pin_id == i);
        }
    }
}

/// In every report line, the text before ` = ` is the entry's prefix
/// followed by spaces up to `REPORT_WIDTH` characters when the prefix is
/// shorter than that, and the prefix itself, uncut, when it is not.
pub proof fn lemma_line_padding(e: ReportEntry)
    ensures
        ({
            let p = prefix_text(e);
            let l = line_text(e);
            let w = if p.len() < REPORT_WIDTH { REPORT_WIDTH as int } else { p.len() as int };
            &&& l.subrange(0, p.len() as int) == p
            &&& forall|i: int| p.len() <= i < w ==> #[trigger] l[i] == ' '
            &&& l.subrange(w, w + 3) == " = "@
        }),
{
    reveal_strlit(" = ");
    let p = prefix_text(e);
    let l = line_text(e);
    let w = if p.len() < REPORT_WIDTH { REPORT_WIDTH as int } else { p.len() as int };
    let q = padded(p, REPORT_WIDTH as int, ' ');
    assert(q.len() == w);
    assert(l.subrange(0, p.len() as int) =~= p);
    assert(l.subrange(w, w + 3) =~= " = "@);
}

/// The report is a function of the pins alone: two reports of the same
/// pins, with no change in between, are the same text.
pub proof fn lemma_report_repeatable(a: Seq<Pin>, b: Seq<Pin>)
    requires
        a == b,
    ensures
        report_text(a) == report_text(b),
{
}

} // verus!
