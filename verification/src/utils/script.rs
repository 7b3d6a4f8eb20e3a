//! The word-level grammar of timed key scripts: name folding, pane names,
//! comments, repeat counts, labels and `set` key paths.

use vstd::prelude::*;
use vstd::string::{StrSliceExecFns, StringExecFns};

use crate::text::{dec, lemma_dec_digits, lemma_hex_digit, push_char, push_dec, push_str};

verus! {

/// A parse failure, carrying the 1-based source line so the diagnostic can
/// name it.
#[derive(Debug, Clone, PartialEq, Eq)]
pub struct ScriptError {
    pub line: usize,
    pub message: String,
}

/// An ASCII letter or digit.
pub open spec fn is_ascii_alnum(c: char) -> bool {
    ('0' <= c && c <= '9') || ('a' <= c && c <= 'z') || ('A' <= c && c <= 'Z')
}

/// An ASCII digit.
pub open spec fn is_ascii_digit(c: char) -> bool {
    '0' <= c && c <= '9'
}

/// ASCII lowercase of `c`; every other character unchanged.
pub open spec fn ascii_lower(c: char) -> char {
    if 'A' <= c && c <= 'Z' {
        ((c as u32) + 32) as char
    } else {
        c
    }
}

/// The comparison form of a name: its ASCII letters and digits, lowercased,
/// everything else dropped.
pub open spec fn fold(s: Seq<char>) -> Seq<char>
    decreases s.len(),
{
    if s.len() == 0 {
        Seq::empty()
    } else if is_ascii_alnum(s.last()) {
        fold(s.drop_last()).push(ascii_lower(s.last()))
    } else {
        fold(s.drop_last())
    }
}

/// Already folded: every character a lowercase ASCII letter or a digit.
pub open spec fn is_folded(s: Seq<char>) -> bool {
    forall|i: int| 0 <= i < s.len() ==> ('0' <= #[trigger] s[i] && s[i] <= '9') || ('a' <= s[i] && s[i] <= 'z')
}

proof fn lemma_fold_is_folded(s: Seq<char>)
    ensures
        is_folded(fold(s)),
    decreases s.len(),
{
    if s.len() > 0 {
        lemma_fold_is_folded(s.drop_last());
        let f = fold(s.drop_last());
        if is_ascii_alnum(s.last()) {
            let c = ascii_lower(s.last());
            assert(('0' <= c && c <= '9') || ('a' <= c && c <= 'z'));
            assert forall|i: int| 0 <= i < f.push(c).len() implies ('0' <= #[trigger] f.push(c)[i]
                && f.push(c)[i] <= '9') || ('a' <= f.push(c)[i] && f.push(c)[i] <= 'z') by {
                if i < f.len() {
                    assert(f.push(c)[i] == f[i]);
                }
            }
        }
    }
}

proof fn lemma_fold_of_folded(s: Seq<char>)
    requires
        is_folded(s),
    ensures
        fold(s) == s,
    decreases s.len(),
{
    if s.len() > 0 {
        let t = s.drop_last();
        assert(is_folded(t)) by {
            assert forall|i: int| 0 <= i < t.len() implies ('0' <= #[trigger] t[i] && t[i] <= '9')
                || ('a' <= t[i] && t[i] <= 'z') by {
                assert(t[i] == s[i]);
            }
        }
        lemma_fold_of_folded(t);
        assert(s.last() == s[s.len() - 1]);
        assert(t.push(s.last()) =~= s);
    }
}

/// Folding is a normal form: a folded name folds to itself, so two
/// spellings that fold alike stay alike under any further folding.
pub proof fn lemma_fold_idempotent(s: Seq<char>)
    ensures
        fold(fold(s)) == fold(s),
{
    lemma_fold_is_folded(s);
    lemma_fold_of_folded(fold(s));
}

/// Matching names is symmetric.
pub proof fn lemma_names_match_symmetric(a: Seq<char>, b: Seq<char>)
    ensures
        (fold(a).len() > 0 && fold(a) == fold(b)) == (fold(b).len() > 0 && fold(b) == fold(a)),
{
}

fn is_alnum_char(c: char) -> (b: bool)
    ensures
        b == is_ascii_alnum(c),
{
    ('0' <= c && c <= '9') || ('a' <= c && c <= 'z') || ('A' <= c && c <= 'Z')
}

fn lower_char(c: char) -> (r: char)
    ensures
        r == ascii_lower(c),
{
    if 'A' <= c && c <= 'Z' {
        let b = c as u8;
        (b + 32) as char
    } else {
        c
    }
}

/// Fold a source name to its comparison form: ASCII letters and digits only,
/// lowercased.  Spacing and punctuation carry no meaning in these labels, so
/// two spellings that differ only there are the same name.
pub fn fold_name(s: &str) -> (r: String)
    ensures
        r@ == fold(s@),
{
    let n = s.unicode_len();
    let mut out = String::new();
    let mut i: usize = 0;
    while i < n
        invariant
            n == s@.len(),
            i <= n,
            out@ == fold(s@.subrange(0, i as int)),
        decreases n - i,
    {
        let c = s.get_char(i);
        assert(s@.subrange(0, i + 1).drop_last() =~= s@.subrange(0, i as int));
        if is_alnum_char(c) {
            push_char(&mut out, lower_char(c));
        }
        i = i + 1;
    }
    assert(s@.subrange(0, n as int) =~= s@);
    out
}

/// Whether two names are the same once folded.  An empty fold matches
/// nothing, so punctuation alone is not a name.
pub fn names_match(a: &str, b: &str) -> (r: bool)
    ensures
        r == (fold(a@).len() > 0 && fold(a@) == fold(b@)),
{
    let fa = fold_name(a);
    let fb = fold_name(b);
    fa.unicode_len() > 0 && fa == fb
}

/// The first label that folds like `name`, scanning in order.
fn first_label_match(name: &str, labels: &[&str]) -> (r: Option<usize>)
    ensures
        match r {
            Some(i) => {
                &&& i < labels@.len()
                &&& fold(name@).len() > 0
                &&& fold(labels@[i as int]@) == fold(name@)
                &&& forall|j: int| 0 <= j < i ==> fold(#[trigger] labels@[j]@) != fold(name@)
            },
            None => fold(name@).len() == 0 || forall|j: int|
                0 <= j < labels@.len() ==> fold(#[trigger] labels@[j]@) != fold(name@),
        },
{
    let want = fold_name(name);
    if want.unicode_len() == 0 {
        return None;
    }
    let mut i: usize = 0;
    while i < labels.len()
        invariant
            i <= labels@.len(),
            want@ == fold(name@),
            want@.len() > 0,
            forall|j: int| 0 <= j < i ==> fold(#[trigger] labels@[j]@) != fold(name@),
        decreases labels.len() - i,
    {
        let f = fold_name(labels[i]);
        if f == want {
            return Some(i);
        }
        i = i + 1;
    }
    None
}

/// Resolve a source name as written in a script against the labels the HUD
/// shows, in the order the sources cycle: the index of the first label that
/// folds alike, or `None` when the name folds to nothing or matches none.
pub fn source_mode_by_name(name: &str, labels: &[&str]) -> (r: Option<usize>)
    ensures
        r == first_source(name@, views(labels@)),
        match r {
            Some(i) => {
                &&& i < labels@.len()
                &&& fold(name@).len() > 0
                &&& fold(labels@[i as int]@) == fold(name@)
                &&& forall|j: int| 0 <= j < i ==> fold(#[trigger] labels@[j]@) != fold(name@)
            },
            None => fold(name@).len() == 0 || forall|j: int|
                0 <= j < labels@.len() ==> fold(#[trigger] labels@[j]@) != fold(name@),
        },
{
    let r = first_label_match(name, labels);
    let ghost lv = views(labels@);
    proof {
        assert forall|j: int| 0 <= j < labels@.len() implies #[trigger] lv[j] == labels@[j]@ by {}
        match r {
            Some(i) => {
                assert(fold(lv[i as int]) == fold(name@));
                let c = choose|k: int|
                    0 <= k < lv.len() && fold(#[trigger] lv[k]) == fold(name@) && forall|j: int|
                        0 <= j < k ==> fold(#[trigger] lv[j]) != fold(name@);
                if c < i {
                    assert(fold(labels@[c]@) != fold(name@));
                } else if c > i {
                    assert(fold(lv[i as int]) != fold(name@));
                }
            },
            None => {
                if fold(name@).len() > 0 {
                    assert forall|k: int| 0 <= k < lv.len() implies fold(#[trigger] lv[k]) != fold(name@) by {
                        assert(fold(labels@[k]@) != fold(name@));
                    }
                }
            },
        }
    }
    r
}

/// The index of the first label that folds like `name`, if `name` folds to
/// something.
pub open spec fn first_source(name: Seq<char>, labels: Seq<Seq<char>>) -> Option<usize> {
    if fold(name).len() > 0 && exists|i: int| 0 <= i < labels.len() && fold(#[trigger] labels[i]) == fold(name) {
        Some(
            (choose|i: int|
                0 <= i < labels.len() && fold(#[trigger] labels[i]) == fold(name) && forall|j: int|
                    0 <= j < i ==> fold(#[trigger] labels[j]) != fold(name)) as usize,
        )
    } else {
        None
    }
}

/// Source names are case- and punctuation-insensitive: two spellings that
/// fold alike, such as `AM DSB`, `AM-DSB` and `amdsb`, name the same source.
pub proof fn lemma_source_spellings_agree(a: Seq<char>, b: Seq<char>, labels: Seq<Seq<char>>)
    requires
        fold(a) == fold(b),
    ensures
        first_source(a, labels) == first_source(b, labels),
{
}

/// A pane that keeps a CPU-side raster.
#[derive(Debug, Clone, Copy, PartialEq, Eq)]
pub enum Pane {
    Waterfall,
    Spectrogram,
    Persistence,
    /// Pane 3's decoder-mode left half: the equalizer's output.
    Constellation,
    /// Pane 3's decoder-mode right half: the per-coded-bit correction map.
    Correction,
}

/// The name a script writes for a pane.
pub open spec fn pane_name(p: Pane) -> Seq<char> {
    match p {
        Pane::Waterfall => "waterfall"@,
        Pane::Spectrogram => "spectrogram"@,
        Pane::Persistence => "persistence"@,
        Pane::Constellation => "constellation"@,
        Pane::Correction => "correction"@,
    }
}

/// The panes in the order a script's diagnostics list them.
pub open spec fn pane_at(i: int) -> Pane {
    if i == 0 {
        Pane::Waterfall
    } else if i == 1 {
        Pane::Spectrogram
    } else if i == 2 {
        Pane::Persistence
    } else if i == 3 {
        Pane::Constellation
    } else {
        Pane::Correction
    }
}

/// Each pane's name folds to itself and no two panes share one, so
/// resolving a pane's own name finds that pane.
pub proof fn lemma_pane_names_resolve(p: Pane)
    ensures
        fold(pane_name(p)) == pane_name(p),
        pane_name(p).len() > 0,
        forall|q: Pane| fold(pane_name(q)) == fold(pane_name(p)) ==> q == p,
{
    reveal_strlit("waterfall");
    reveal_strlit("spectrogram");
    reveal_strlit("persistence");
    reveal_strlit("constellation");
    reveal_strlit("correction");
    assert forall|q: Pane| is_folded(#[trigger] pane_name(q)) by {
    }
    assert forall|q: Pane| fold(#[trigger] pane_name(q)) == pane_name(q) by {
        lemma_fold_of_folded(pane_name(q));
    }
    assert forall|q: Pane| pane_name(q) == pane_name(p) implies q == p by {
        if q != p {
            assert(pane_name(q)[1] != pane_name(p)[1] || pane_name(q).len() != pane_name(p).len()
                || pane_name(q)[0] != pane_name(p)[0] || pane_name(q)[2] != pane_name(p)[2]);
        }
    }
}

/// The pane whose name folds like `s`, if `s` folds to something.
pub open spec fn pane_named(s: Seq<char>) -> Option<Pane> {
    if fold(s).len() > 0 && exists|i: int| 0 <= i < 5 && fold(pane_name(#[trigger] pane_at(i))) == fold(s) {
        Some(pane_at(choose|i: int| 0 <= i < 5 && fold(pane_name(#[trigger] pane_at(i))) == fold(s)))
    } else {
        None
    }
}

proof fn lemma_pane_listed(p: Pane)
    ensures
        exists|i: int| 0 <= i < 5 && pane_at(i) == p,
{
    match p {
        Pane::Waterfall => assert(pane_at(0) == p),
        Pane::Spectrogram => assert(pane_at(1) == p),
        Pane::Persistence => assert(pane_at(2) == p),
        Pane::Constellation => assert(pane_at(3) == p),
        Pane::Correction => assert(pane_at(4) == p),
    }
}

/// Every pane is found by its own name, written in any case or with any
/// spacing and punctuation that folds to it (`waterfall`, `WATERFALL`,
/// `Water-Fall`).
pub proof fn lemma_pane_found_by_name(p: Pane, s: Seq<char>)
    requires
        fold(s) == fold(pane_name(p)),
    ensures
        pane_named(s) == Some(p),
{
    lemma_pane_listed(p);
    lemma_pane_names_resolve(p);
    let k = choose|i: int| 0 <= i < 5 && pane_at(i) == p;
    assert(fold(pane_name(pane_at(k))) == fold(s));
    let c = choose|i: int| 0 <= i < 5 && fold(pane_name(#[trigger] pane_at(i))) == fold(s);
    assert(fold(pane_name(pane_at(c))) == fold(pane_name(p)));
}

/// ASCII uppercase of `c`; every other character unchanged.
pub open spec fn ascii_upper(c: char) -> char {
    if 'a' <= c && c <= 'z' {
        ((c as u32) - 32) as char
    } else {
        c
    }
}

/// `s` with its ASCII letters uppercased, as `str::to_ascii_uppercase` has it.
pub open spec fn ascii_upper_seq(s: Seq<char>) -> Seq<char> {
    s.map_values(|c: char| ascii_upper(c))
}

/// Uppercasing changes nothing a fold keeps.
pub proof fn lemma_fold_ignores_case(s: Seq<char>)
    ensures
        fold(ascii_upper_seq(s)) == fold(s),
    decreases s.len(),
{
    if s.len() > 0 {
        let u = ascii_upper_seq(s);
        assert(u.drop_last() =~= ascii_upper_seq(s.drop_last()));
        lemma_fold_ignores_case(s.drop_last());
        let c = s.last();
        assert(u.last() == ascii_upper(c));
        assert(is_ascii_alnum(ascii_upper(c)) == is_ascii_alnum(c));
        assert(ascii_lower(ascii_upper(c)) == ascii_lower(c)) by {
            if 'a' <= c && c <= 'z' {
                assert(((((c as u32) - 32) as char) as u32) + 32 == c as u32);
            }
        }
    }
}

/// Case never matters: a name resolves to the same pane and the same source
/// however its letters are cased, and every pane is found by its own name
/// as written and in capitals.
pub proof fn lemma_names_resolve_in_any_case(s: Seq<char>, labels: Seq<Seq<char>>, p: Pane)
    ensures
        pane_named(ascii_upper_seq(s)) == pane_named(s),
        first_source(ascii_upper_seq(s), labels) == first_source(s, labels),
        pane_named(pane_name(p)) == Some(p),
        pane_named(ascii_upper_seq(pane_name(p))) == Some(p),
{
    lemma_fold_ignores_case(s);
    lemma_fold_ignores_case(pane_name(p));
    lemma_pane_found_by_name(p, pane_name(p));
    lemma_pane_found_by_name(p, ascii_upper_seq(pane_name(p)));
}

/// A name with no letter or digit names neither a pane nor a source.
pub proof fn lemma_blank_name_resolves_to_nothing(s: Seq<char>, labels: Seq<Seq<char>>)
    requires
        fold(s).len() == 0,
    ensures
        pane_named(s) is None,
        first_source(s, labels) is None,
{
}

proof fn lemma_first_match_exists(name: Seq<char>, labels: Seq<Seq<char>>, k: int)
    requires
        0 <= k < labels.len(),
        fold(labels[k]) == fold(name),
    ensures
        exists|i: int|
            0 <= i < labels.len() && fold(#[trigger] labels[i]) == fold(name) && forall|j: int|
                0 <= j < i ==> fold(#[trigger] labels[j]) != fold(name),
    decreases k,
{
    if exists|j: int| 0 <= j < k && fold(#[trigger] labels[j]) == fold(name) {
        let j = choose|j: int| 0 <= j < k && fold(#[trigger] labels[j]) == fold(name);
        lemma_first_match_exists(name, labels, j);
    } else {
        assert(forall|j: int| 0 <= j < k ==> fold(#[trigger] labels[j]) != fold(name));
    }
}

/// A resolved source name folds like the label it resolved to, and no
/// earlier label folds like it.
pub proof fn lemma_source_found_folds_alike(name: Seq<char>, labels: Seq<Seq<char>>)
    requires
        labels.len() <= usize::MAX,
    ensures
        first_source(name, labels) matches Some(i) ==> {
            &&& (i as int) < labels.len()
            &&& fold(labels[i as int]) == fold(name)
            &&& forall|j: int| 0 <= j < i ==> fold(#[trigger] labels[j]) != fold(name)
        },
{
    if fold(name).len() > 0 && exists|i: int| 0 <= i < labels.len() && fold(#[trigger] labels[i]) == fold(name) {
        let k = choose|i: int| 0 <= i < labels.len() && fold(#[trigger] labels[i]) == fold(name);
        lemma_first_match_exists(name, labels, k);
        let c = choose|i: int|
            0 <= i < labels.len() && fold(#[trigger] labels[i]) == fold(name) && forall|j: int|
                0 <= j < i ==> fold(#[trigger] labels[j]) != fold(name);
        assert((c as usize) as int == c);
    }
}

impl Pane {
    /// The name a script writes, and the suffix a filename carries.
    pub fn name(self) -> (r: &'static str)
        ensures
            r@ == pane_name(self),
    {
        match self {
            Pane::Waterfall => "waterfall",
            Pane::Spectrogram => "spectrogram",
            Pane::Persistence => "persistence",
            Pane::Constellation => "constellation",
            Pane::Correction => "correction",
        }
    }

    fn at(i: usize) -> (p: Pane)
        ensures
            p == pane_at(i as int),
    {
        if i == 0 {
            Pane::Waterfall
        } else if i == 1 {
            Pane::Spectrogram
        } else if i == 2 {
            Pane::Persistence
        } else if i == 3 {
            Pane::Constellation
        } else {
            Pane::Correction
        }
    }

    /// The first pane, in listing order, whose name folds like `s`.
    fn first_pane_match(s: &str) -> (r: Option<Pane>)
        ensures
            match r {
                Some(p) => fold(s@).len() > 0 && fold(pane_name(p)) == fold(s@),
                None => fold(s@).len() == 0 || forall|i: int|
                    0 <= i < 5 ==> fold(pane_name(#[trigger] pane_at(i))) != fold(s@),
            },
    {
        let want = fold_name(s);
        if want.unicode_len() == 0 {
            return None;
        }
        let mut i: usize = 0;
        while i < 5
            invariant
                i <= 5,
                want@ == fold(s@),
                want@.len() > 0,
                forall|j: int| 0 <= j < i ==> fold(pane_name(#[trigger] pane_at(j))) != fold(s@),
            decreases 5 - i,
        {
            let p = Pane::at(i);
            let f = fold_name(p.name());
            if f == want {
                return Some(p);
            }
            i = i + 1;
        }
        None
    }

    /// Resolve a name written in a script, folded like a source name: the
    /// first pane whose name folds alike.
    pub fn by_name(s: &str) -> (r: Option<Pane>)
        ensures
            r == pane_named(s@),
            match r {
                Some(p) => fold(s@).len() > 0 && fold(pane_name(p)) == fold(s@),
                None => fold(s@).len() == 0 || forall|i: int|
                    0 <= i < 5 ==> fold(pane_name(#[trigger] pane_at(i))) != fold(s@),
            },
        {
        let r = Pane::first_pane_match(s);
        proof {
            if let Some(p) = r {
                lemma_pane_listed(p);
                let k = choose|i: int| 0 <= i < 5 && pane_at(i) == p;
                assert(fold(pane_name(pane_at(k))) == fold(s@));
                let c = choose|i: int| 0 <= i < 5 && fold(pane_name(#[trigger] pane_at(i))) == fold(s@);
                lemma_pane_names_resolve(p);
            }
        }
        r
    }
}

/// Drop a trailing `#` comment.  Text directives therefore cannot contain
/// `#`.
pub fn strip_comment(line: &str) -> (r: &str)
    ensures
        (forall|i: int| 0 <= i < line@.len() ==> line@[i] != '#') ==> r@ == line@,
        forall|k: int|
            0 <= k < line@.len() && line@[k] == '#' && (forall|j: int| 0 <= j < k ==> line@[j] != '#')
                ==> r@ == line@.subrange(0, k),
{
    let n = line.unicode_len();
    let mut i: usize = 0;
    while i < n
        invariant
            n == line@.len(),
            i <= n,
            forall|j: int| 0 <= j < i ==> line@[j] != '#',
        decreases n - i,
    {
        if line.get_char(i) == '#' {
            return line.substring_char(0, i);
        }
        i = i + 1;
    }
    line
}

/// A repeat suffix: `x` followed by one or more ASCII digits.
pub open spec fn is_repeat_word(w: Seq<char>) -> bool {
    &&& w.len() >= 2
    &&& w[0] == 'x'
    &&& forall|i: int| 1 <= i < w.len() ==> is_ascii_digit(#[trigger] w[i])
}

/// Whether a word is an `xN` repeat count.
pub fn is_repeat(word: &str) -> (r: bool)
    ensures
        r == is_repeat_word(word@),
{
    let n = word.unicode_len();
    if n < 2 || word.get_char(0) != 'x' {
        return false;
    }
    let mut i: usize = 1;
    while i < n
        invariant
            n == word@.len(),
            1 <= i <= n,
            word@[0] == 'x',
            forall|j: int| 1 <= j < i ==> is_ascii_digit(#[trigger] word@[j]),
        decreases n - i,
    {
        let c = word.get_char(i);
        if !('0' <= c && c <= '9') {
            return false;
        }
        i = i + 1;
    }
    true
}

/// The value of a string of decimal digits.
pub open spec fn digits_value(s: Seq<char>) -> nat
    decreases s.len(),
{
    if s.len() == 0 {
        0
    } else {
        digits_value(s.drop_last()) * 10 + (s.last() as int - '0' as int) as nat
    }
}

/// What `str::parse::<usize>` accepts: an optional single `+`, then one or
/// more ASCII digits whose value fits in a `usize`.
pub open spec fn usize_digits(s: Seq<char>) -> Seq<char> {
    if s.len() > 0 && s[0] == '+' {
        s.drop_first()
    } else {
        s
    }
}

pub open spec fn parses_as_usize(s: Seq<char>) -> bool {
    let d = usize_digits(s);
    &&& d.len() > 0
    &&& forall|i: int| 0 <= i < d.len() ==> is_ascii_digit(#[trigger] d[i])
    &&& digits_value(d) <= usize::MAX
}

proof fn lemma_digits_value_monotone(s: Seq<char>, k: int)
    requires
        0 <= k <= s.len(),
        forall|i: int| 0 <= i < s.len() ==> is_ascii_digit(#[trigger] s[i]),
    ensures
        digits_value(s.subrange(0, k)) <= digits_value(s),
    decreases s.len() - k,
{
    if k < s.len() {
        lemma_digits_value_monotone(s, k + 1);
        assert(s.subrange(0, k + 1).drop_last() =~= s.subrange(0, k));
    } else {
        assert(s.subrange(0, k) =~= s);
    }
}

/// `str::parse::<usize>`: the value of `s`, or `None` where it is not an
/// optional `+` and digits, or overflows.
pub fn parse_usize(s: &str) -> (r: Option<usize>)
    ensures
        match r {
            Some(v) => parses_as_usize(s@) && v == digits_value(usize_digits(s@)),
            None => !parses_as_usize(s@),
        },
{
    let n = s.unicode_len();
    let mut i: usize = 0;
    if n > 0 && s.get_char(0) == '+' {
        i = 1;
    }
    let start = i;
    let ghost d = usize_digits(s@);
    assert(d =~= s@.subrange(start as int, n as int));
    if start == n {
        return None;
    }
    let mut v: usize = 0;
    while i < n
        invariant
            n == s@.len(),
            start <= i <= n,
            d == s@.subrange(start as int, n as int),
            d == usize_digits(s@),
            forall|j: int| 0 <= j < i - start ==> is_ascii_digit(#[trigger] d[j]),
            v == digits_value(d.subrange(0, i - start)),
        decreases n - i,
    {
        let c = s.get_char(i);
        assert(d[i - start] == s@[i as int]);
        if !('0' <= c && c <= '9') {
            assert(!is_ascii_digit(d[i - start]));
            return None;
        }
        let digit = (c as u32 - '0' as u32) as usize;
        assert(d.subrange(0, i - start + 1).drop_last() =~= d.subrange(0, i - start));
        if v > (usize::MAX - digit) / 10 {
            proof {
                assert(digits_value(d.subrange(0, i - start + 1)) > usize::MAX);
                if forall|j: int| 0 <= j < d.len() ==> is_ascii_digit(#[trigger] d[j]) {
                    lemma_digits_value_monotone(d, i - start + 1);
                }
            }
            return None;
        }
        v = v * 10 + digit;
        i = i + 1;
    }
    assert(d.subrange(0, n - start) =~= d);
    Some(v)
}

/// Decimal numerals read back as the number they print.
pub proof fn lemma_digits_value_dec(n: nat)
    ensures
        digits_value(dec(n)) == n,
    decreases n,
{
    let s = dec(n);
    if n < 10 {
        lemma_hex_digit(n as int);
        assert(s.drop_last() =~= Seq::<char>::empty());
        assert(digits_value(s.drop_last()) == 0);
        assert(s.last() == crate::text::hex_lower(n as int));
        assert(digits_value(s) == digits_value(s.drop_last()) * 10 + (s.last() as int - '0' as int) as nat);
    } else {
        lemma_digits_value_dec(n / 10);
        lemma_hex_digit((n % 10) as int);
        assert(s.drop_last() =~= dec(n / 10));
        assert(s.last() == crate::text::hex_lower((n % 10) as int));
        assert(digits_value(s) == digits_value(s.drop_last()) * 10 + (s.last() as int - '0' as int) as nat);
    }
}

/// A printed count reads back as itself: `x` followed by the decimal
/// numeral of a count from 1 up is the repeat count of that number.
pub proof fn lemma_repeat_roundtrip(n: nat)
    requires
        1 <= n <= usize::MAX,
    ensures
        is_repeat_word(seq!['x'] + dec(n)),
        parses_as_usize((seq!['x'] + dec(n)).drop_first()),
        digits_value(usize_digits((seq!['x'] + dec(n)).drop_first())) == n,
{
    let w = seq!['x'] + dec(n);
    lemma_dec_digits(n);
    lemma_digits_value_dec(n);
    assert(w.drop_first() =~= dec(n));
    assert(dec(n).len() >= 1) by {
        if n >= 10 {
            assert(dec(n) == dec(n / 10).push(crate::text::hex_lower((n % 10) as int)));
        }
    }
    assert(usize_digits(dec(n)) == dec(n));
    assert forall|i: int| 1 <= i < w.len() implies is_ascii_digit(#[trigger] w[i]) by {
        assert(w[i] == dec(n)[i - 1]);
    }
}

/// The message for a word that is not a repeat count.
pub open spec fn not_a_repeat_message(word: Seq<char>) -> Seq<char> {
    "`"@ + word + "` is not a repeat count"@
}

/// Parse an `xN` repeat count.  A count of 0 is refused: it would make the
/// line do nothing.
pub fn parse_repeat(word: &str, line: usize) -> (r: Result<usize, ScriptError>)
    requires
        word@.len() >= 1,
        (word@[0] as u32) < 128,
    ensures
        match r {
            Ok(n) => parses_as_usize(word@.drop_first()) && n == digits_value(
                usize_digits(word@.drop_first()),
            ) && n > 0,
            Err(e) => e.line == line && if parses_as_usize(word@.drop_first()) {
                digits_value(usize_digits(word@.drop_first())) == 0 && e.message@
                    == "a repeat count of 0 does nothing; drop the line instead"@
            } else {
                e.message@ == not_a_repeat_message(word@)
            },
        },
{
    let n = word.unicode_len();
    let tail = word.substring_char(1, n);
    assert(tail@ =~= word@.drop_first());
    match parse_usize(tail) {
        None => {
            let mut message = String::from_str("`");
            push_str(&mut message, word);
            push_str(&mut message, "` is not a repeat count");
            Err(ScriptError { line, message })
        },
        Some(v) => {
            if v == 0 {
                Err(
                    ScriptError {
                        line,
                        message: String::from_str(
                            "a repeat count of 0 does nothing; drop the line instead",
                        ),
                    },
                )
            } else {
                Ok(v)
            }
        },
    }
}

/// A character a label may use: it becomes part of a file name.
pub open spec fn is_label_char(c: char) -> bool {
    is_ascii_alnum(c) || c == '-' || c == '_'
}

/// The words of `ws` joined by `-`.
pub open spec fn join_dash(ws: Seq<Seq<char>>) -> Seq<char>
    decreases ws.len(),
{
    if ws.len() == 0 {
        Seq::empty()
    } else if ws.len() == 1 {
        ws[0]
    } else {
        join_dash(ws.drop_last()) + "-"@ + ws.last()
    }
}

/// The views of a slice of string slices.
pub open spec fn views(ws: Seq<&str>) -> Seq<Seq<char>> {
    Seq::new(ws.len(), |i: int| ws[i]@)
}

/// The message for a label given as several words.
pub open spec fn label_words_message(n: nat, joined: Seq<char>) -> Seq<char> {
    "a label is one whitespace-free word, got "@ + dec(n) + " \u{2014} try `"@ + joined + "`"@
}

/// The message for a label with a character a file name should not carry.
pub open spec fn label_chars_message(label: Seq<char>) -> Seq<char> {
    "label `"@ + label
        + "` may use only letters, digits, `-` and `_`; it becomes part of a filename"@
}

fn join_with_dash(ws: &[&str]) -> (r: String)
    ensures
        r@ == join_dash(views(ws@)),
{
    let mut out = String::new();
    let mut i: usize = 0;
    while i < ws.len()
        invariant
            i <= ws@.len(),
            out@ == join_dash(views(ws@).subrange(0, i as int)),
        decreases ws.len() - i,
    {
        let ghost prev = views(ws@).subrange(0, i as int);
        assert(views(ws@).subrange(0, i + 1).drop_last() =~= prev);
        if i > 0 {
            push_char(&mut out, '-');
        }
        proof {
            reveal_strlit("-");
        }
        push_str(&mut out, ws[i]);
        proof {
            let cur = views(ws@).subrange(0, i + 1);
            if i == 0 {
                assert(out@ =~= cur[0]);
            } else {
                assert(out@ =~= join_dash(prev) + "-"@ + cur.last());
            }
        }
        i = i + 1;
    }
    assert(views(ws@).subrange(0, ws@.len() as int) =~= views(ws@));
    out
}

/// Parse an optional trailing label, which becomes part of a filename:
/// none, or one word of ASCII letters, digits, `-` and `_`.
pub fn parse_label(rest: &[&str], line: usize) -> (r: Result<Option<String>, ScriptError>)
    ensures
        match r {
            Ok(None) => rest@.len() == 0,
            Ok(Some(l)) => rest@.len() == 1 && l@ == rest@[0]@ && forall|i: int|
                0 <= i < l@.len() ==> is_label_char(#[trigger] l@[i]),
            Err(e) => e.line == line && if rest@.len() == 1 {
                (exists|i: int| 0 <= i < rest@[0]@.len() && !is_label_char(#[trigger] rest@[0]@[i]))
                    && e.message@ == label_chars_message(rest@[0]@)
            } else {
                rest@.len() > 1 && e.message@ == label_words_message(
                    rest@.len(),
                    join_dash(views(rest@)),
                )
            },
        },
{
    if rest.len() == 0 {
        return Ok(None);
    }
    if rest.len() != 1 {
        let mut message = String::from_str("a label is one whitespace-free word, got ");
        push_dec(&mut message, rest.len() as u64);
        push_str(&mut message, " \u{2014} try `");
        let joined = join_with_dash(rest);
        push_str(&mut message, joined.as_str());
        push_str(&mut message, "`");
        return Err(ScriptError { line, message });
    }
    let label = rest[0];
    let n = label.unicode_len();
    let mut i: usize = 0;
    while i < n
        invariant
            n == label@.len(),
            i <= n,
            rest@.len() == 1,
            label@ == rest@[0]@,
            forall|j: int| 0 <= j < i ==> is_label_char(#[trigger] label@[j]),
        decreases n - i,
    {
        let c = label.get_char(i);
        if !(is_alnum_char(c) || c == '-' || c == '_') {
            assert(!is_label_char(rest@[0]@[i as int]));
            let mut message = String::from_str("label `");
            push_str(&mut message, label);
            push_str(
                &mut message,
                "` may use only letters, digits, `-` and `_`; it becomes part of a filename",
            );
            return Err(ScriptError { line, message });
        }
        i = i + 1;
    }
    Ok(Some(label.to_owned()))
}

/// The message for a `set` that is not a key path and one value.
pub open spec fn set_arity_message(n: nat) -> Seq<char> {
    "`set` takes a key path and one whitespace-free value, got "@ + dec(n)
        + " \u{2014} e.g. `set cofdm.cn_db 10`"@
}

/// Split `set`'s two arguments, which are always a key path and one value.
pub fn split_set(words: &[&str], line: usize) -> (r: Result<(String, String), ScriptError>)
    ensures
        match r {
            Ok((spec, value)) => words@.len() == 2 && spec@ == words@[0]@ && value@ == words@[1]@,
            Err(e) => words@.len() != 2 && e.line == line && e.message@ == set_arity_message(
                words@.len(),
            ),
        },
{
    if words.len() != 2 {
        let mut message = String::from_str(
            "`set` takes a key path and one whitespace-free value, got ",
        );
        push_dec(&mut message, words.len() as u64);
        push_str(&mut message, " \u{2014} e.g. `set cofdm.cn_db 10`");
        return Err(ScriptError { line, message });
    }
    Ok((words[0].to_owned(), words[1].to_owned()))
}

/// What a `set` key path names.
#[derive(Debug, Clone, PartialEq, Eq)]
pub enum Scope {
    /// A run setting, carrying the key after `run.`.
    Run(String),
    /// One of the app's settings rows, by its key path.
    App(String),
}

/// Split a `set` key path into the run scope and everything else: a path
/// that begins `run.` names a run setting, any other path a settings row.
pub fn parse_scope(spec: &str) -> (r: Scope)
    ensures
        match r {
            Scope::Run(key) => spec@.len() >= 4 && spec@.subrange(0, 4) == "run."@ && key@
                == spec@.subrange(4, spec@.len() as int),
            Scope::App(path) => !(spec@.len() >= 4 && spec@.subrange(0, 4) == "run."@) && path@
                == spec@,
        },
{
    let n = spec.unicode_len();
    proof {
        reveal_strlit("run.");
    }
    if n >= 4 && spec.get_char(0) == 'r' && spec.get_char(1) == 'u' && spec.get_char(2) == 'n'
        && spec.get_char(3) == '.' {
        let key = spec.substring_char(4, n);
        assert(spec@.subrange(0, 4) =~= "run."@);
        return Scope::Run(key.to_owned());
    }
    proof {
        if n >= 4 && spec@.subrange(0, 4) == "run."@ {
            assert(spec@[0] == spec@.subrange(0, 4)[0]);
            assert(spec@[1] == spec@.subrange(0, 4)[1]);
            assert(spec@[2] == spec@.subrange(0, 4)[2]);
            assert(spec@[3] == spec@.subrange(0, 4)[3]);
        }
    }
    Scope::App(spec.to_owned())
}

/// An untimed `set` on the app's own settings, applied before the first
/// frame: the row's key path, the value as written, and its 1-based line.
#[derive(Debug, Clone, PartialEq, Eq)]
pub struct ScriptSet {
    pub target: String,
    pub value: String,
    pub line: usize,
}

} // verus!
