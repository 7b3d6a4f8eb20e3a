//! The COFDM Di bar: a one-line summary of prioritised readings, fitted to a
//! width by dropping the lowest-priority fields rather than clipping the
//! line, with the lock run pinned just before the `SIM` badge.

use vstd::prelude::*;
use vstd::string::{StrSliceExecFns, StringExecFns};

use crate::decode::instrument::{Metric, Provenance};
use crate::text::{push_spaces, push_str, trail_white, trim_end, trimmed_end, is_white};

verus! {

/// The badge appended when any shown field is a placeholder.
pub const SIM_BADGE: &'static str = "SIM";

/// Fixed body width of a dB reading, e.g. `-99.9`.
pub const DB_W: usize = 5;

/// Fixed body width of a bit error rate, e.g. `1.0E-4`.
pub const BER_W: usize = 6;

/// Fixed body width of a frequency error, e.g. `-9999 Hz`.
pub const HZ_W: usize = 8;

/// Fixed body width of a level, e.g. `-100.0 dBFS`.
pub const DBFS_W: usize = 11;

/// One Di-bar field: its padded rendering, whether it is a placeholder, and
/// whether it is rendered last, just before the badge, whatever its place in
/// the drop priority.
#[derive(Clone, Debug, PartialEq, Eq)]
pub struct DiField {
    pub text: String,
    pub sim: bool,
    pub at_end: bool,
}

/// A field as plain values: text, placeholder, pinned to the end.
pub open spec fn field_view(f: DiField) -> (Seq<char>, bool, bool) {
    (f.text@, f.sim, f.at_end)
}

/// The fields as plain values.
pub open spec fn field_views(fs: Seq<DiField>) -> Seq<(Seq<char>, bool, bool)> {
    fs.map_values(|f: DiField| field_view(f))
}

/// The two spaces that separate fields.
pub open spec fn gap() -> Seq<char> {
    seq![' ', ' ']
}

/// The badge with its separator.
pub open spec fn badge() -> Seq<char> {
    seq![' ', ' ', 'S', 'I', 'M']
}

/// `s` padded on the right with spaces to `w` characters.
pub open spec fn pad_right(s: Seq<char>, w: nat) -> Seq<char> {
    if s.len() < w {
        s + Seq::new((w - s.len()) as nat, |_i: int| ' ')
    } else {
        s
    }
}

/// The room the fields of `fs` take, each with its separator.
pub open spec fn fields_width(fs: Seq<(Seq<char>, bool, bool)>) -> nat
    decreases fs.len(),
{
    if fs.len() == 0 {
        0
    } else {
        fields_width(fs.drop_last()) + 2 + fs.last().0.len()
    }
}

/// Some field of `fs` is a placeholder.
pub open spec fn any_sim(fs: Seq<(Seq<char>, bool, bool)>) -> bool {
    exists|i: int| 0 <= i < fs.len() && (#[trigger] fs[i]).1
}

/// How many fields, from index `i` on, the greedy fit admits, starting from
/// a line `width` characters wide: each next field is taken while the line
/// with it, and the badge's room once any taken field is a placeholder,
/// stays within `budget`; the first that does not fit ends the run.
pub open spec fn fit_count(
    fs: Seq<(Seq<char>, bool, bool)>,
    i: int,
    width: nat,
    sim: bool,
    budget: nat,
) -> int
    decreases fs.len() - i,
{
    if i < 0 || i >= fs.len() {
        i
    } else {
        let f = fs[i];
        let reserve: nat = if sim || f.1 {
            5
        } else {
            0
        };
        if width + 2 + f.0.len() + reserve > budget {
            i
        } else {
            fit_count(fs, i + 1, width + 2 + f.0.len(), sim || f.1, budget)
        }
    }
}

/// The rendering of those fields of `fs` that are, or are not, pinned to the
/// end, in order, each after two spaces.
pub open spec fn joined_fields(fs: Seq<(Seq<char>, bool, bool)>, at_end: bool) -> Seq<char>
    decreases fs.len(),
{
    if fs.len() == 0 {
        Seq::empty()
    } else {
        joined_fields(fs.drop_last(), at_end) + if fs.last().2 == at_end {
            gap() + fs.last().0
        } else {
            Seq::empty()
        }
    }
}

/// How many fields the line shows.
pub open spec fn shown_count(head: Seq<char>, fields: Seq<(Seq<char>, bool, bool)>, budget: nat) -> int {
    fit_count(fields, 0, head.len(), false, budget)
}

/// The line before its trailing white space is trimmed: the head, the shown
/// fields that are not pinned, the pinned ones, and the badge if any shown
/// field is a placeholder.
pub open spec fn di_line(head: Seq<char>, shown: Seq<(Seq<char>, bool, bool)>) -> Seq<char> {
    head + joined_fields(shown, false) + joined_fields(shown, true) + if any_sim(shown) {
        badge()
    } else {
        Seq::empty()
    }
}

/// The Di bar fitted to `budget` characters.
pub open spec fn di_fit(head: Seq<char>, fields: Seq<(Seq<char>, bool, bool)>, budget: nat) -> Seq<
    char,
> {
    trimmed_end(di_line(head, fields.take(shown_count(head, fields, budget))))
}

proof fn lemma_width_concat(a: Seq<(Seq<char>, bool, bool)>, b: Seq<(Seq<char>, bool, bool)>)
    ensures
        fields_width(a + b) == fields_width(a) + fields_width(b),
    decreases b.len(),
{
    if b.len() > 0 {
        assert((a + b).drop_last() =~= a + b.drop_last());
        lemma_width_concat(a, b.drop_last());
    } else {
        assert(a + b =~= a);
    }
}

proof fn lemma_joined_width(fs: Seq<(Seq<char>, bool, bool)>)
    ensures
        joined_fields(fs, false).len() + joined_fields(fs, true).len() == fields_width(fs),
    decreases fs.len(),
{
    if fs.len() > 0 {
        lemma_joined_width(fs.drop_last());
    }
}

/// What the greedy fit guarantees from index `i` on: it stops within the
/// fields, everything it admits fits with the badge's room, and a field is
/// left out only when it would not fit.
proof fn lemma_fit(fs: Seq<(Seq<char>, bool, bool)>, i: int, width: nat, sim: bool, budget: nat)
    requires
        0 <= i <= fs.len(),
        i > 0 ==> width + (if sim {
            5nat
        } else {
            0nat
        }) <= budget,
    ensures
        ({
            let k = fit_count(fs, i, width, sim, budget);
            let taken = fs.subrange(i, k);
            let w = width + fields_width(taken);
            let s = sim || any_sim(taken);
            &&& i <= k <= fs.len()
            &&& k > 0 ==> w + (if s {
                5nat
            } else {
                0nat
            }) <= budget
            &&& k < fs.len() ==> w + 2 + fs[k].0.len() + (if s || fs[k].1 {
                5nat
            } else {
                0nat
            }) > budget
        }),
    decreases fs.len() - i,
{
    let k = fit_count(fs, i, width, sim, budget);
    if i == fs.len() {
        assert(fs.subrange(i, k) =~= Seq::<(Seq<char>, bool, bool)>::empty());
        return;
    }
    let f = fs[i];
    let reserve: nat = if sim || f.1 {
        5
    } else {
        0
    };
    if width + 2 + f.0.len() + reserve > budget {
        assert(fs.subrange(i, k) =~= Seq::<(Seq<char>, bool, bool)>::empty());
        return;
    }
    let w1 = width + 2 + f.0.len();
    let s1 = sim || f.1;
    lemma_fit(fs, i + 1, w1, s1, budget);
    let rest = fs.subrange(i + 1, k);
    assert(fs.subrange(i, k) =~= seq![f] + rest);
    lemma_width_concat(seq![f], rest);
    assert(fields_width(seq![f]) == 2 + f.0.len()) by {
        assert(seq![f].drop_last() =~= Seq::<(Seq<char>, bool, bool)>::empty());
        assert(seq![f].last() == f);
        assert(fields_width(Seq::<(Seq<char>, bool, bool)>::empty()) == 0);
    }
    let taken = fs.subrange(i, k);
    assert(any_sim(taken) == (f.1 || any_sim(rest))) by {
        if f.1 {
            assert(taken[0].1);
        }
        if any_sim(rest) {
            let j = choose|j: int| 0 <= j < rest.len() && (#[trigger] rest[j]).1;
            assert(taken[j + 1] == rest[j]);
        }
        if any_sim(taken) {
            let j = choose|j: int| 0 <= j < taken.len() && (#[trigger] taken[j]).1;
            if j > 0 {
                assert(rest[j - 1] == taken[j]);
            }
        }
    }
}

proof fn lemma_trail_white_bounded(s: Seq<char>)
    ensures
        trail_white(s) <= s.len(),
        trimmed_end(s).len() == s.len() - trail_white(s),
    decreases s.len(),
{
    if s.len() > 0 {
        lemma_trail_white_bounded(s.drop_last());
    }
}

proof fn lemma_trail_white_after(a: Seq<char>, b: Seq<char>)
    requires
        a.len() > 0,
        !is_white(a.last()),
    ensures
        trail_white(a + b) <= b.len(),
    decreases b.len(),
{
    if b.len() == 0 {
        assert(a + b =~= a);
    } else {
        assert((a + b).drop_last() =~= a + b.drop_last());
        assert((a + b).last() == b.last());
        lemma_trail_white_after(a, b.drop_last());
    }
}

/// The line starts with its head, when the head does not end in white space
/// (trimming can then only take from what follows it).
pub proof fn lemma_di_starts_with_head(head: Seq<char>, fields: Seq<(Seq<char>, bool, bool)>, budget: nat)
    requires
        head.len() > 0,
        !is_white(head.last()),
    ensures
        di_fit(head, fields, budget).len() >= head.len(),
        di_fit(head, fields, budget).subrange(0, head.len() as int) == head,
{
    let shown = fields.take(shown_count(head, fields, budget));
    let rest = joined_fields(shown, false) + joined_fields(shown, true) + if any_sim(shown) {
        badge()
    } else {
        Seq::empty()
    };
    assert(di_line(head, shown) =~= head + rest);
    lemma_trail_white_after(head, rest);
    assert(di_fit(head, fields, budget).subrange(0, head.len() as int) =~= head);
}

/// The line never runs past the budget, or past its head when the head alone
/// is wider.
pub proof fn lemma_di_fits(head: Seq<char>, fields: Seq<(Seq<char>, bool, bool)>, budget: nat)
    ensures
        di_fit(head, fields, budget).len() <= if budget >= head.len() {
            budget
        } else {
            head.len()
        },
{
    lemma_fit(fields, 0, head.len(), false, budget);
    let k = shown_count(head, fields, budget);
    let shown = fields.take(k);
    assert(fields.subrange(0, k) =~= shown);
    lemma_joined_width(shown);
    let line = di_line(head, shown);
    assert(line.len() == head.len() + fields_width(shown) + if any_sim(shown) {
        5nat
    } else {
        0nat
    });
    lemma_trail_white_bounded(line);
    if k == 0 {
        assert(shown =~= Seq::<(Seq<char>, bool, bool)>::empty());
        assert(!any_sim(shown));
        assert(fields_width(shown) == 0);
    }
}

/// The shown fields are a prefix of the priority order: every field before
/// the cut is shown, and the first one left out would not have fitted, with
/// the badge's room once a shown or that field is a placeholder.
pub proof fn lemma_di_greedy(head: Seq<char>, fields: Seq<(Seq<char>, bool, bool)>, budget: nat)
    ensures
        ({
            let k = shown_count(head, fields, budget);
            let shown = fields.take(k);
            &&& 0 <= k <= fields.len()
            &&& k < fields.len() ==> head.len() + fields_width(shown) + 2 + fields[k].0.len() + (
            if any_sim(shown) || fields[k].1 {
                5nat
            } else {
                0nat
            }) > budget
        }),
{
    lemma_fit(fields, 0, head.len(), false, budget);
    let k = shown_count(head, fields, budget);
    assert(fields.subrange(0, k) =~= fields.take(k));
}

/// The badge closes the line exactly when a shown field is a placeholder;
/// with none, nothing is appended after the fields.
pub proof fn lemma_di_badge(head: Seq<char>, fields: Seq<(Seq<char>, bool, bool)>, budget: nat)
    ensures
        ({
            let shown = fields.take(shown_count(head, fields, budget));
            let out = di_fit(head, fields, budget);
            &&& any_sim(shown) ==> out.len() >= 5 && out.subrange(out.len() - 5, out.len() as int)
                == badge()
            &&& !any_sim(shown) ==> out == trimmed_end(
                head + joined_fields(shown, false) + joined_fields(shown, true),
            )
        }),
{
    let shown = fields.take(shown_count(head, fields, budget));
    let line = di_line(head, shown);
    if any_sim(shown) {
        let pre = head + joined_fields(shown, false) + joined_fields(shown, true);
        assert(line =~= pre + badge());
        assert(line.last() == 'M');
        assert(trail_white(line) == 0);
        assert(trimmed_end(line) =~= line);
        assert(line.subrange(line.len() - 5, line.len() as int) =~= badge());
    } else {
        assert(line =~= head + joined_fields(shown, false) + joined_fields(shown, true));
    }
}

/// A field reading `label body`, its body padded on the right to `body_w`
/// characters so that a value changing width cannot shift what follows.
pub fn di_field(label: &str, body: &str, body_w: usize, sim: bool) -> (f: DiField)
    ensures
        f.text@ == label@ + seq![' '] + pad_right(body@, body_w as nat),
        f.sim == sim,
        !f.at_end,
{
    let mut text = String::from_str(label);
    push_str(&mut text, " ");
    push_str(&mut text, body);
    let n = body.unicode_len();
    if n < body_w {
        push_spaces(&mut text, body_w - n);
    }
    proof {
        reveal_strlit(" ");
        assert(text@ =~= label@ + seq![' '] + pad_right(body@, body_w as nat));
    }
    DiField { text, sim, at_end: false }
}

/// The lock dots: `●` locked, `○` unlocked, one per lock that has a value.
pub open spec fn lock_dots(locks: Seq<Metric<bool>>) -> Seq<char>
    decreases locks.len(),
{
    if locks.len() == 0 {
        Seq::empty()
    } else {
        lock_dots(locks.drop_last()) + match locks.last().value {
            Some(v) => seq![if v {
                '\u{25cf}'
            } else {
                '\u{25cb}'
            }],
            None => Seq::empty(),
        }
    }
}

/// The lock run `lck ●●●○`, pinned to the end of the line and a placeholder
/// when any of the locks is, or `None` when no lock has a value.
pub fn di_lock_field(locks: &[Metric<bool>]) -> (f: Option<DiField>)
    ensures
        lock_dots(locks@).len() == 0 ==> f.is_none(),
        lock_dots(locks@).len() > 0 ==> (f matches Some(x) && x.text@ == seq!['l', 'c', 'k', ' ']
            + lock_dots(locks@) && x.at_end && x.sim == exists|i: int|
            0 <= i < locks@.len() && (#[trigger] locks@[i]).prov == Provenance::Simulated),
{
    let mut dots = String::new();
    let mut sim = false;
    let mut i: usize = 0;
    while i < locks.len()
        invariant
            i <= locks@.len(),
            dots@ == lock_dots(locks@.take(i as int)),
            sim == exists|j: int| 0 <= j < i && (#[trigger] locks@[j]).prov == Provenance::Simulated,
        decreases locks.len() - i,
    {
        assert(locks@.take(i + 1).drop_last() =~= locks@.take(i as int));
        match locks[i].value {
            Some(v) => {
                if v {
                    push_str(&mut dots, "\u{25cf}");
                } else {
                    push_str(&mut dots, "\u{25cb}");
                }
            },
            None => {},
        }
        proof {
            reveal_strlit("\u{25cf}");
            reveal_strlit("\u{25cb}");
        }
        if locks[i].prov == Provenance::Simulated {
            sim = true;
        }
        i = i + 1;
        assert(dots@ =~= lock_dots(locks@.take(i as int)));
    }
    assert(locks@.take(locks@.len() as int) =~= locks@);
    if dots.unicode_len() == 0 {
        return None;
    }
    let mut text = String::from_str("lck ");
    push_str(&mut text, dots.as_str());
    proof {
        reveal_strlit("lck ");
        assert(text@ =~= seq!['l', 'c', 'k', ' '] + lock_dots(locks@));
    }
    Some(DiField { text, sim, at_end: true })
}

fn push_pass(out: &mut String, fields: &[DiField], k: usize, at_end: bool)
    requires
        k <= fields@.len(),
    ensures
        final(out)@ == old(out)@ + joined_fields(field_views(fields@).take(k as int), at_end),
{
    let ghost fv = field_views(fields@);
    let mut i: usize = 0;
    while i < k
        invariant
            k <= fields@.len(),
            fv == field_views(fields@),
            i <= k,
            out@ == old(out)@ + joined_fields(fv.take(i as int), at_end),
        decreases k - i,
    {
        assert(fv.take(i + 1).drop_last() =~= fv.take(i as int));
        assert(fv.take(i + 1).last() == field_view(fields@[i as int]));
        if fields[i].at_end == at_end {
            push_str(out, "  ");
            push_str(out, fields[i].text.as_str());
            proof {
                reveal_strlit("  ");
            }
        }
        i = i + 1;
        assert(out@ =~= old(out)@ + joined_fields(fv.take(i as int), at_end));
    }
}

/// Fit the Di bar to `budget_chars`: `head`, then the fields taken greedily
/// in priority order while they fit, with room kept for the `SIM` badge once
/// a taken field is a placeholder; the taken fields pinned to the end come
/// last, the badge after them, and trailing white space is trimmed.
pub fn di_bar_fit(head: &str, fields: &[DiField], budget_chars: usize) -> (s: String)
    ensures
        s@ == di_fit(head@, field_views(fields@), budget_chars as nat),
{
    let ghost fv = field_views(fields@);
    let ghost b = budget_chars as nat;
    let n = fields.len();
    let mut width: usize = head.unicode_len();
    let mut sim = false;
    let mut k: usize = 0;
    let mut done = false;
    while k < n && !done
        invariant
            n == fields@.len(),
            fv == field_views(fields@),
            b == budget_chars as nat,
            k <= n,
            shown_count(head@, fv, b) == if done {
                k as int
            } else {
                fit_count(fv, k as int, width as nat, sim, b)
            },
        decreases n - k + if done {
            0int
        } else {
            1int
        },
    {
        let tl = fields[k].text.unicode_len();
        let reserve: u128 = if sim || fields[k].sim {
            5
        } else {
            0
        };
        assert(fv[k as int] == field_view(fields@[k as int]));
        if (width as u128) + 2 + (tl as u128) + reserve > (budget_chars as u128) {
            done = true;
        } else {
            width = width + 2 + tl;
            sim = sim || fields[k].sim;
            k = k + 1;
        }
    }
    let mut out = String::from_str(head);
    push_pass(&mut out, fields, k, false);
    push_pass(&mut out, fields, k, true);
    let ghost shown = fv.take(k as int);
    let mut any = false;
    let mut i: usize = 0;
    while i < k
        invariant
            k <= n,
            n == fields@.len(),
            fv == field_views(fields@),
            shown == fv.take(k as int),
            i <= k,
            any == exists|j: int| 0 <= j < i && (#[trigger] shown[j]).1,
        decreases k - i,
    {
        assert(shown[i as int] == field_view(fields@[i as int]));
        if fields[i].sim {
            any = true;
        }
        i = i + 1;
    }
    if any {
        push_str(&mut out, "  ");
        push_str(&mut out, SIM_BADGE);
    }
    proof {
        reveal_strlit("  ");
        reveal_strlit("SIM");
        assert(out@ =~= di_line(head@, shown));
    }
    String::from_str(trim_end(out.as_str()))
}

} // verus!
