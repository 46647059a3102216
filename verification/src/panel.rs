//! Layout and text rules of the dialogue panel: how many lines a label wraps to,
//! how a label too long for its slot is cut with an ellipsis, the slot label and
//! the key prompt, and the option lists the panel shows.

use vstd::prelude::*;
use vstd::arithmetic::div_mod::{lemma_fundamental_div_mod, lemma_fundamental_div_mod_converse};

use crate::discovery::{entry_models, DiscoveryEntry, EntryModel};
use crate::script::{clone_opt_str, clone_str, opt_str, owned, NodeModel, OptionModel, RatNode};
use crate::text::{
    append_chars, ascii_lower_seq, ascii_lowercase, chars_eq, chars_of, decimal, decimal_chars, find_char, find_seq, is_whitespace, lemma_find_seq, lemma_trim_len, string_from_chars,
    sub_chars, trim, trim_end, trim_end_seq, trim_seq, unicode_whitespace,
};

verus! {

// ---------------------------------------------------------------
// wrapping
// ---------------------------------------------------------------

/// The lengths, in characters, of the words of `s` (its maximal runs of
/// non-white-space characters), in order.
pub open spec fn word_lengths(s: Seq<char>) -> Seq<nat>
    decreases s.len(),
{
    if s.len() == 0 {
        Seq::empty()
    } else {
        let w = word_lengths(s.drop_last());
        if unicode_whitespace(s.last()) {
            w
        } else if s.len() >= 2 && !unicode_whitespace(s[s.len() - 2]) {
            w.update(w.len() - 1, w.last() + 1)
        } else {
            w.push(1)
        }
    }
}

/// The sum of `v`.
pub open spec fn seq_sum(v: Seq<nat>) -> nat
    decreases v.len(),
{
    if v.len() == 0 {
        0
    } else {
        seq_sum(v.drop_last()) + v.last()
    }
}

proof fn lemma_word_lengths(s: Seq<char>)
    ensures
        s.len() > 0 && !unicode_whitespace(s.last()) ==> word_lengths(s).len() > 0,
        seq_sum(word_lengths(s)) <= s.len(),
        forall|i: int| 0 <= i < word_lengths(s).len() ==> #[trigger] word_lengths(s)[i] >= 1,
    decreases s.len(),
{
    if s.len() > 0 {
        let t = s.drop_last();
        lemma_word_lengths(t);
        let w = word_lengths(t);
        if !unicode_whitespace(s.last()) && s.len() >= 2 && !unicode_whitespace(s[s.len() - 2]) {
            assert(t.last() == s[s.len() - 2]);
            let u = w.update(w.len() - 1, w.last() + 1);
            assert(u.drop_last() =~= w.drop_last());
        } else if !unicode_whitespace(s.last()) {
            assert(w.push(1).drop_last() =~= w);
        }
    }
}

/// The number of lines a word of `w` characters takes when cut into lines of `cap`.
pub open spec fn chunks(w: nat, cap: nat) -> nat {
    w / cap + if w % cap == 0 {
        0nat
    } else {
        1nat
    }
}

/// The length of the last line of a word of `w` characters cut into lines of `cap`.
pub open spec fn chunk_rest(w: nat, cap: nat) -> nat {
    if w % cap == 0 {
        cap
    } else {
        w % cap
    }
}

/// A word of `w` characters starting a line: it fits, or it is cut into lines.
pub open spec fn start_line(lines: nat, w: nat, cap: nat) -> (nat, nat) {
    if w <= cap {
        (lines, w)
    } else {
        ((lines + chunks(w, cap) - 1) as nat, chunk_rest(w, cap))
    }
}

/// Laying a word of `w` characters after a line of `line_len` characters: it joins
/// the line after a space if it fits, else it starts a new line.
pub open spec fn place_word(lines: nat, line_len: nat, w: nat, cap: nat) -> (nat, nat) {
    if line_len == 0 {
        start_line(lines, w, cap)
    } else if line_len + 1 + w <= cap {
        (lines, line_len + 1 + w)
    } else {
        start_line(lines + 1, w, cap)
    }
}

/// The lines used and the length of the last line after laying out words of
/// lengths `ws`, starting on one empty line.
pub open spec fn lay_words(ws: Seq<nat>, cap: nat) -> (nat, nat)
    decreases ws.len(),
{
    if ws.len() == 0 {
        (1, 0)
    } else {
        let p = lay_words(ws.drop_last(), cap);
        place_word(p.0, p.1, ws.last(), cap)
    }
}

/// The lines a paragraph takes: one when it holds no word.
pub open spec fn paragraph_lines_spec(p: Seq<char>, cap: nat) -> nat {
    lay_words(word_lengths(p), cap).0
}

/// The lines the paragraphs of `s` (its pieces between `\n`) take together.
pub open spec fn text_lines(s: Seq<char>, cap: nat) -> nat
    decreases s.len(),
{
    match find_seq(s, '\n') {
        Some(k) => if 0 <= k < s.len() {
            paragraph_lines_spec(s.take(k), cap) + text_lines(s.skip(k + 1), cap)
        } else {
            0
        },
        None => paragraph_lines_spec(s, cap),
    }
}

/// The number of lines `label` wraps to in lines of `line_capacity` characters
/// (at least one character per line), and at least one.
pub open spec fn wrapped_lines(label: Seq<char>, line_capacity: nat) -> nat {
    let cap = if line_capacity >= 1 {
        line_capacity
    } else {
        1
    };
    let t = text_lines(label, cap);
    if t >= 1 {
        t
    } else {
        1
    }
}

proof fn lemma_chunks(w: nat, cap: nat)
    requires
        cap >= 1,
        w >= 1,
    ensures
        1 <= chunks(w, cap) <= w,
        chunk_rest(w, cap) <= cap,
        w > cap ==> chunk_rest(w, cap) <= w,
{
    assert(w / cap <= w) by (nonlinear_arith)
        requires
            cap >= 1,
    ;
    assert(w == cap * (w / cap) + w % cap) by (nonlinear_arith)
        requires
            cap >= 1,
    ;
    if w % cap != 0 {
        assert(w / cap + 1 <= w) by (nonlinear_arith)
            requires
                cap >= 1,
                w % cap >= 1,
                w == cap * (w / cap) + w % cap,
        ;
    } else {
        assert(w / cap >= 1) by (nonlinear_arith)
            requires
                cap >= 1,
                w >= 1,
                w % cap == 0,
                w == cap * (w / cap) + w % cap,
        ;
    }
}

/// The word lengths of `p`.
fn word_lengths_of(p: &[char]) -> (r: Vec<usize>)
    ensures
        r@.map_values(|x: usize| x as nat) == word_lengths(p@),
{
    let mut out: Vec<usize> = Vec::new();
    let mut k: usize = 0;
    while k < p.len()
        invariant
            k <= p@.len(),
            out@.map_values(|x: usize| x as nat) == word_lengths(p@.take(k as int)),
        decreases p.len() - k,
    {
        proof {
            lemma_word_lengths(p@.take(k as int));
            lemma_word_lengths(p@.take(k + 1));
            assert(p@.take(k + 1).drop_last() =~= p@.take(k as int));
        }
        if is_whitespace(p[k]) {
        } else if k >= 1 && !is_whitespace(p[k - 1]) {
            assert(p@.take(k as int).last() == p@[k - 1]);
            let last = out.len() - 1;
            assert(word_lengths(p@.take(k as int))[last as int] == out@[last as int] as nat);
            assert(seq_sum(word_lengths(p@.take(k as int))) <= k);
            proof {
                lemma_sum_bound(word_lengths(p@.take(k as int)), last as int);
            }
            let v = out[last] + 1;
            out.set(last, v);
            assert(out@.map_values(|x: usize| x as nat) =~= word_lengths(p@.take(k + 1)));
        } else {
            out.push(1);
            assert(out@.map_values(|x: usize| x as nat) =~= word_lengths(p@.take(k + 1)));
        }
        k += 1;
    }
    assert(p@.take(k as int) =~= p@);
    out
}

proof fn lemma_sum_bound(v: Seq<nat>, i: int)
    requires
        0 <= i < v.len(),
    ensures
        v[i] <= seq_sum(v),
    decreases v.len(),
{
    if i < v.len() - 1 {
        lemma_sum_bound(v.drop_last(), i);
    }
}

/// The lines paragraph `p` takes in lines of `cap` characters.
fn paragraph_lines(p: &[char], cap: usize) -> (r: usize)
    requires
        cap >= 1,
        p@.len() < usize::MAX,
    ensures
        r == paragraph_lines_spec(p@, cap as nat),
        r <= p@.len() + 1,
{
    let ws = word_lengths_of(p);
    let ghost wn = ws@.map_values(|x: usize| x as nat);
    proof {
        lemma_word_lengths(p@);
    }
    let mut lines: usize = 1;
    let mut line_len: usize = 0;
    let mut j: usize = 0;
    while j < ws.len()
        invariant
            j <= ws@.len(),
            cap >= 1,
            wn == ws@.map_values(|x: usize| x as nat),
            wn == word_lengths(p@),
            seq_sum(wn) <= p@.len(),
            p@.len() < usize::MAX,
            forall|i: int| 0 <= i < wn.len() ==> #[trigger] wn[i] >= 1,
            (lines as nat, line_len as nat) == lay_words(wn.take(j as int), cap as nat),
            lines <= 1 + seq_sum(wn.take(j as int)),
            line_len <= cap,
        decreases ws.len() - j,
    {
        let w = ws[j];
        assert(wn[j as int] == w as nat);
        assert(wn.take(j + 1).drop_last() =~= wn.take(j as int));
        assert(wn.take(j + 1).last() == w as nat);
        proof {
            lemma_prefix_sum(wn, j as int);
            lemma_chunks(w as nat, cap as nat);
        }
        if line_len == 0 || !(w < cap && line_len < cap - w) {
            if line_len != 0 {
                lines = lines + 1;
            }
            if w <= cap {
                line_len = w;
            } else {
                let c = w / cap + if w % cap == 0 {
                    0
                } else {
                    1
                };
                lines = lines + (c - 1);
                line_len = if w % cap == 0 {
                    cap
                } else {
                    w % cap
                };
            }
        } else {
            line_len = line_len + 1 + w;
        }
        j += 1;
    }
    assert(wn.take(j as int) =~= wn);
    lines
}

proof fn lemma_prefix_sum(v: Seq<nat>, j: int)
    requires
        0 <= j < v.len(),
    ensures
        seq_sum(v.take(j + 1)) == seq_sum(v.take(j)) + v[j],
        seq_sum(v.take(j + 1)) <= seq_sum(v),
    decreases v.len() - j,
{
    assert(v.take(j + 1).drop_last() =~= v.take(j));
    if j + 1 < v.len() {
        lemma_prefix_sum(v, j + 1);
    } else {
        assert(v.take(j + 1) =~= v);
    }
}

/// How many lines `label` wraps to in lines of `line_capacity` characters: each
/// `\n` starts a paragraph; words join a line after a space while they fit, a word
/// longer than a line is cut; a paragraph without words takes one line.
pub fn estimated_wrapped_lines(label: &str, line_capacity: usize) -> (r: usize)
    requires
        label@.len() < usize::MAX,
    ensures
        r == wrapped_lines(label@, line_capacity as nat),
{
    let cap: usize = if line_capacity >= 1 {
        line_capacity
    } else {
        1
    };
    let s = chars_of(label);
    let mut start: usize = 0;
    let mut total: usize = 0;
    assert(s@.skip(0) =~= s@);
    loop
        invariant
            start <= s@.len(),
            s@ == label@,
            s@.len() < usize::MAX,
            cap >= 1,
            cap == if line_capacity >= 1 { line_capacity as nat } else { 1 },
            total <= start,
            total + text_lines(s@.skip(start as int), cap as nat) == text_lines(s@, cap as nat),
        decreases s@.len() - start,
    {
        let rest = sub_chars(&s, start, s.len());
        assert(rest@ =~= s@.skip(start as int));
        proof {
            lemma_find_seq(rest@, '\n');
        }
        match find_char(&rest, '\n') {
            Some(k) => {
                let p = sub_chars(&rest, 0, k);
                assert(p@ =~= rest@.take(k as int));
                let n = paragraph_lines(&p, cap);
                assert(rest@.skip(k + 1) =~= s@.skip(start + k + 1));
                total = total + n;
                start = start + k + 1;
            },
            None => {
                let n = paragraph_lines(&rest, cap);
                total = total + n;
                return if total >= 1 {
                    total
                } else {
                    1
                };
            },
        }
    }
}

// ---------------------------------------------------------------
// fitting a label into its slot
// ---------------------------------------------------------------

/// The most characters of a label the option slot ever shows.
pub const SLOT_HARD_LIMIT: usize = 132;

/// Whether `s` fits a slot of lines of `cap` characters that shows at most
/// `max_lines` lines.
pub open spec fn fits(s: Seq<char>, cap: nat, max_lines: nat) -> bool {
    wrapped_lines(s, cap) <= max_lines
}

/// Growing a prefix of `c` one character at a time from `j`: its length when the
/// next character would no longer fit, or all of `c`.
pub open spec fn fitting_prefix_len(c: Seq<char>, j: nat, cap: nat, ml: nat) -> nat
    decreases c.len() - j,
{
    if j >= c.len() {
        c.len()
    } else if !fits(c.take(j + 1int), cap, ml) {
        j
    } else {
        fitting_prefix_len(c, j + 1, cap, ml)
    }
}

/// The index of the last white-space character of `t`.
pub open spec fn last_ws(t: Seq<char>) -> Option<int>
    decreases t.len(),
{
    if t.len() == 0 {
        None
    } else if unicode_whitespace(t.last()) {
        Some(t.len() - 1)
    } else {
        last_ws(t.drop_last())
    }
}

/// `t` cut back to its last word boundary: the text before its last white space,
/// trimmed at the end, when that leaves something; with no white space, `t`
/// trimmed at the end.
pub open spec fn cut_at_word(t: Seq<char>) -> Seq<char> {
    match last_ws(t) {
        Some(i) => {
            let wb = trim_end_seq(t.take(i));
            if wb.len() > 0 {
                wb
            } else {
                t
            }
        },
        None => trim_end_seq(t),
    }
}

/// The ellipsis.
pub open spec fn ellipsis() -> Seq<char> {
    seq!['…']
}

/// Dropping characters from the end of `t` (and the white space they uncover)
/// until `t` followed by an ellipsis fits.
pub open spec fn shrink_with_ellipsis(t: Seq<char>, cap: nat, ml: nat) -> Option<Seq<char>>
    decreases t.len(),
{
    if t.len() == 0 {
        None
    } else if fits(t + ellipsis(), cap, ml) {
        Some(t + ellipsis())
    } else {
        proof {
            lemma_trim_len(t.drop_last());
        }
        shrink_with_ellipsis(trim_end_seq(t.drop_last()), cap, ml)
    }
}

/// The label shown in an option slot: the label itself when it fits (and is not
/// over the hard limit); otherwise the longest fitting prefix of its first
/// characters, cut back to a word boundary and shortened until an ellipsis fits
/// after it; an ellipsis alone when nothing is left; the label unchanged when not
/// even the ellipsis fits.
pub open spec fn slot_label_spec(label: Seq<char>, cap: nat, ml: nat) -> Seq<char> {
    let c = if label.len() <= SLOT_HARD_LIMIT {
        label
    } else {
        label.take(SLOT_HARD_LIMIT as int)
    };
    if label.len() <= SLOT_HARD_LIMIT && fits(c, cap, ml) {
        c
    } else {
        let t = c.take(fitting_prefix_len(c, 0, cap, ml) as int);
        if trim_seq(t).len() == 0 {
            ellipsis()
        } else {
            let t2 = cut_at_word(t);
            if t2.len() == 0 {
                ellipsis()
            } else {
                match shrink_with_ellipsis(t2, cap, ml) {
                    Some(x) => x,
                    None => if fits(ellipsis(), cap, ml) {
                        ellipsis()
                    } else {
                        label
                    },
                }
            }
        }
    }
}

/// Whether the characters `s` fit the slot.
fn fits_exec(s: &Vec<char>, cap: usize, max_lines: usize) -> (r: bool)
    requires
        s@.len() < usize::MAX,
    ensures
        r == fits(s@, cap as nat, max_lines as nat),
{
    let text = string_from_chars(s);
    estimated_wrapped_lines(text.as_str(), cap) <= max_lines
}

proof fn lemma_fitting_prefix(c: Seq<char>, j: nat, cap: nat, ml: nat)
    requires
        j <= c.len(),
    ensures
        j <= fitting_prefix_len(c, j, cap, ml) <= c.len(),
    decreases c.len() - j,
{
    if j < c.len() && fits(c.take(j + 1int), cap, ml) {
        lemma_fitting_prefix(c, j + 1, cap, ml);
    }
}

proof fn lemma_last_ws(t: Seq<char>)
    ensures
        match last_ws(t) {
            Some(i) => 0 <= i < t.len() && unicode_whitespace(t[i]) && forall|k: int|
                i < k < t.len() ==> !unicode_whitespace(#[trigger] t[k]),
            None => forall|k: int| 0 <= k < t.len() ==> !unicode_whitespace(#[trigger] t[k]),
        },
    decreases t.len(),
{
    if t.len() > 0 && !unicode_whitespace(t.last()) {
        lemma_last_ws(t.drop_last());
        assert forall|k: int| 0 <= k < t.len() - 1 implies t.drop_last()[k] == t[k] by {}
    }
}

/// The index of the last white-space character of `t`.
fn last_whitespace(t: &Vec<char>) -> (r: Option<usize>)
    ensures
        r matches Some(i) ==> last_ws(t@) == Some(i as int),
        r is None ==> last_ws(t@) is None,
{
    let mut k: usize = t.len();
    proof {
        assert(t@.take(k as int) =~= t@);
    }
    while k > 0
        invariant
            k <= t@.len(),
            last_ws(t@) == last_ws(t@.take(k as int)),
        decreases k,
    {
        assert(t@.take(k as int).last() == t@[k - 1]);
        assert(t@.take(k as int).drop_last() =~= t@.take(k - 1));
        if is_whitespace(t[k - 1]) {
            return Some(k - 1);
        }
        k -= 1;
    }
    None
}

/// The label to show in an option slot whose lines hold `line_capacity`
/// characters and that shows at most `max_lines` lines (see `slot_label_spec`).
pub fn slot_label_with_ellipsis(label: &str, line_capacity: usize, max_lines: usize) -> (r: String)
    ensures
        r@ == slot_label_spec(label@, line_capacity as nat, max_lines as nat),
{
    let cap = line_capacity;
    let ml = max_lines;
    let all = chars_of(label);
    let n = all.len();
    let c = if n <= SLOT_HARD_LIMIT {
        assert(all@.subrange(0, n as int) =~= all@);
        sub_chars(&all, 0, n)
    } else {
        assert(all@.take(SLOT_HARD_LIMIT as int) =~= all@.subrange(0, SLOT_HARD_LIMIT as int));
        sub_chars(&all, 0, SLOT_HARD_LIMIT)
    };
    let ghost spec_c = if label@.len() <= SLOT_HARD_LIMIT {
        label@
    } else {
        label@.take(SLOT_HARD_LIMIT as int)
    };
    assert(c@ == spec_c);
    if n <= SLOT_HARD_LIMIT && fits_exec(&c, cap, ml) {
        return string_from_chars(&c);
    }
    // the longest prefix that fits
    let mut t: Vec<char> = Vec::new();
    let mut j: usize = 0;
    proof {
        lemma_fitting_prefix(c@, 0, cap as nat, ml as nat);
    }
    while j < c.len()
        invariant_except_break
            j <= c@.len(),
            c@.len() <= SLOT_HARD_LIMIT,
            t@ == c@.take(j as int),
            fitting_prefix_len(c@, 0, cap as nat, ml as nat) == fitting_prefix_len(
                c@,
                j as nat,
                cap as nat,
                ml as nat,
            ),
        ensures
            t@ == c@.take(fitting_prefix_len(c@, 0, cap as nat, ml as nat) as int),
        decreases c.len() - j,
    {
        t.push(c[j]);
        assert(t@ =~= c@.take(j + 1));
        if !fits_exec(&t, cap, ml) {
            t.pop();
            assert(t@ =~= c@.take(j as int));
            break;
        }
        j += 1;
    }
    let trimmed = trim(&t);
    if trimmed.len() == 0 {
        return string_from_chars(&vec!['…']);
    }
    proof {
        lemma_last_ws(t@);
    }
    proof {
        lemma_trim_len(t@);
    }
    let mut t2 = match last_whitespace(&t) {
        Some(i) => {
            let head = sub_chars(&t, 0, i);
            assert(head@ =~= t@.take(i as int));
            proof {
                lemma_trim_len(head@);
            }
            let wb = trim_end(&head);
            if wb.len() > 0 {
                wb
            } else {
                t
            }
        },
        None => trim_end(&t),
    };
    assert(t2@ == cut_at_word(t@));
    if t2.len() == 0 {
        return string_from_chars(&vec!['…']);
    }
    let ghost t2_0 = t2@;
    proof {
        lemma_trim_len(t@);
    }
    let ghost want = slot_label_spec(label@, cap as nat, ml as nat);
    assert(shrink_with_ellipsis(t2_0, cap as nat, ml as nat) matches Some(x) ==> want == x);
    assert(shrink_with_ellipsis(t2_0, cap as nat, ml as nat) is None ==> want == if fits(
        ellipsis(),
        cap as nat,
        ml as nat,
    ) {
        ellipsis()
    } else {
        label@
    });
    while t2.len() > 0
        invariant
            t2@.len() <= SLOT_HARD_LIMIT,
            want == slot_label_spec(label@, cap as nat, ml as nat),
            cap == line_capacity,
            ml == max_lines,
            shrink_with_ellipsis(t2_0, cap as nat, ml as nat) matches Some(x) ==> want == x,
            shrink_with_ellipsis(t2_0, cap as nat, ml as nat) is None ==> want == if fits(
                ellipsis(),
                cap as nat,
                ml as nat,
            ) {
                ellipsis()
            } else {
                label@
            },
            all@ == label@,
            shrink_with_ellipsis(t2@, cap as nat, ml as nat) == shrink_with_ellipsis(
                t2_0,
                cap as nat,
                ml as nat,
            ),
        decreases t2@.len(),
    {
        let mut candidate = t2.clone();
        candidate.push('…');
        assert(candidate@ =~= t2@ + ellipsis());
        if fits_exec(&candidate, cap, ml) {
            assert(shrink_with_ellipsis(t2@, cap as nat, ml as nat) == Some(candidate@));
            assert(want == candidate@);
            return string_from_chars(&candidate);
        }
        let ghost before = t2@;
        t2.pop();
        assert(t2@ =~= before.drop_last());
        t2 = trim_end(&t2);
        proof {
            lemma_trim_len(before.drop_last());
        }
    }
    let e = vec!['…'];
    assert(e@ =~= ellipsis());
    if fits_exec(&e, cap, ml) {
        string_from_chars(&e)
    } else {
        string_from_chars(&all)
    }
}

/// `p` is a prefix of `s`.
pub open spec fn is_prefix_of(p: Seq<char>, s: Seq<char>) -> bool {
    p.len() <= s.len() && p == s.take(p.len() as int)
}

proof fn lemma_prefix_trans(a: Seq<char>, b: Seq<char>, c: Seq<char>)
    requires
        is_prefix_of(a, b),
        is_prefix_of(b, c),
    ensures
        is_prefix_of(a, c),
{
    assert(a =~= c.take(a.len() as int));
}

proof fn lemma_take_prefix(s: Seq<char>, n: int)
    requires
        0 <= n <= s.len(),
    ensures
        is_prefix_of(s.take(n), s),
{
    assert(s.take(n) =~= s.take(s.take(n).len() as int));
}

proof fn lemma_trim_end_prefix(s: Seq<char>)
    ensures
        is_prefix_of(trim_end_seq(s), s),
    decreases s.len(),
{
    if s.len() > 0 && unicode_whitespace(s.last()) {
        lemma_trim_end_prefix(s.drop_last());
        lemma_take_prefix(s, s.len() - 1);
        assert(s.drop_last() =~= s.take(s.len() - 1));
        lemma_prefix_trans(trim_end_seq(s.drop_last()), s.drop_last(), s);
    } else {
        assert(s =~= s.take(s.len() as int));
    }
}

proof fn lemma_cut_at_word_prefix(t: Seq<char>)
    ensures
        is_prefix_of(cut_at_word(t), t),
{
    lemma_last_ws(t);
    match last_ws(t) {
        Some(i) => {
            lemma_trim_end_prefix(t.take(i));
            lemma_take_prefix(t, i);
            lemma_prefix_trans(trim_end_seq(t.take(i)), t.take(i), t);
            assert(t =~= t.take(t.len() as int));
        },
        None => lemma_trim_end_prefix(t),
    }
}

proof fn lemma_shrink(t: Seq<char>, cap: nat, ml: nat)
    ensures
        shrink_with_ellipsis(t, cap, ml) matches Some(x) ==> fits(x, cap, ml) && x.len() >= 1
            && x.last() == '…' && is_prefix_of(x.drop_last(), t),
    decreases t.len(),
{
    if t.len() > 0 {
        if fits(t + ellipsis(), cap, ml) {
            assert((t + ellipsis()).drop_last() =~= t);
            assert(t =~= t.take(t.len() as int));
        } else {
            lemma_trim_len(t.drop_last());
            let u = trim_end_seq(t.drop_last());
            lemma_shrink(u, cap, ml);
            lemma_trim_end_prefix(t.drop_last());
            lemma_take_prefix(t, t.len() - 1);
            assert(t.drop_last() =~= t.take(t.len() - 1));
            lemma_prefix_trans(u, t.drop_last(), t);
            if let Some(x) = shrink_with_ellipsis(u, cap, ml) {
                lemma_prefix_trans(x.drop_last(), u, t);
            }
        }
    }
}

/// What an option slot shows of a label: the label itself when it fits and is
/// within the hard limit; otherwise, whenever an ellipsis alone fits, text that
/// fits and ends with an ellipsis after the first characters of the label; and
/// in any case either the label or the first characters of the label followed by
/// an ellipsis.
pub proof fn law_slot_label_fits(label: Seq<char>, cap: nat, ml: nat)
    ensures
        (label.len() <= SLOT_HARD_LIMIT && fits(label, cap, ml)) ==> slot_label_spec(label, cap, ml)
            == label,
        ({
            let r = slot_label_spec(label, cap, ml);
            r == label || (r.len() >= 1 && r.last() == '…' && is_prefix_of(r.drop_last(), label))
        }),
        (!(label.len() <= SLOT_HARD_LIMIT && fits(label, cap, ml)) && fits(ellipsis(), cap, ml))
            ==> ({
            let r = slot_label_spec(label, cap, ml);
            fits(r, cap, ml) && r.len() >= 1 && r.last() == '…' && is_prefix_of(r.drop_last(), label)
        }),
{
    let c = if label.len() <= SLOT_HARD_LIMIT {
        label
    } else {
        label.take(SLOT_HARD_LIMIT as int)
    };
    if label.len() <= SLOT_HARD_LIMIT {
        assert(label =~= label.take(label.len() as int));
    } else {
        lemma_take_prefix(label, SLOT_HARD_LIMIT as int);
    }
    assert(is_prefix_of(c, label));
    lemma_fitting_prefix(c, 0, cap, ml);
    let t = c.take(fitting_prefix_len(c, 0, cap, ml) as int);
    lemma_take_prefix(c, fitting_prefix_len(c, 0, cap, ml) as int);
    lemma_prefix_trans(t, c, label);
    let t2 = cut_at_word(t);
    lemma_cut_at_word_prefix(t);
    lemma_prefix_trans(t2, t, label);
    lemma_shrink(t2, cap, ml);
    if let Some(x) = shrink_with_ellipsis(t2, cap, ml) {
        lemma_prefix_trans(x.drop_last(), t2, label);
    }
    assert(ellipsis().drop_last() =~= Seq::<char>::empty());
    assert(is_prefix_of(Seq::<char>::empty(), label)) by {
        assert(Seq::<char>::empty() =~= label.take(0));
    }
}


// ---------------------------------------------------------------
// what the panel lists
// ---------------------------------------------------------------

#[derive(Debug, Clone, Copy, PartialEq, Eq, Structural)]
pub enum UiDialogueMode {
    Standard,
    Inventory,
}

/// What an item preview shows.
pub struct PreviewModel {
    pub title: Seq<char>,
    pub subtitle: Seq<char>,
    pub description: Seq<char>,
    pub image_path: Option<Seq<char>>,
    pub model_path: Option<Seq<char>>,
}

#[derive(Debug)]
pub struct UiDialoguePreview {
    pub title: String,
    pub subtitle: String,
    pub description: String,
    pub image_path: Option<String>,
    pub model_path: Option<String>,
}

impl View for UiDialoguePreview {
    type V = PreviewModel;

    open spec fn view(&self) -> PreviewModel {
        PreviewModel {
            title: self.title@,
            subtitle: self.subtitle@,
            description: self.description@,
            image_path: opt_str(self.image_path),
            model_path: opt_str(self.model_path),
        }
    }
}

/// What an entry of the panel is.
pub struct PanelOptionModel {
    pub text: Seq<char>,
    pub preview: Option<PreviewModel>,
    pub item_id: Option<Seq<char>>,
    pub seen: bool,
    pub enabled: bool,
}

#[derive(Debug)]
pub struct UiDialogueOption {
    pub text: String,
    pub preview: Option<UiDialoguePreview>,
    pub item_id: Option<String>,
    pub seen: bool,
    pub enabled: bool,
}

impl View for UiDialogueOption {
    type V = PanelOptionModel;

    open spec fn view(&self) -> PanelOptionModel {
        PanelOptionModel {
            text: self.text@,
            preview: match self.preview {
                Some(p) => Some(p@),
                None => None,
            },
            item_id: opt_str(self.item_id),
            seen: self.seen,
            enabled: self.enabled,
        }
    }
}

/// The views of a list of panel entries.
pub open spec fn panel_models(v: Seq<UiDialogueOption>) -> Seq<PanelOptionModel> {
    v.map_values(|o: UiDialogueOption| o@)
}

/// The preview of a discovery entry.
pub open spec fn preview_spec(e: EntryModel) -> PreviewModel {
    PreviewModel {
        title: e.title,
        subtitle: e.subtitle,
        description: e.description,
        image_path: e.image_path,
        model_path: e.model_path,
    }
}

/// A plain entry showing `text`.
pub open spec fn plain_entry(text: Seq<char>, enabled: bool) -> PanelOptionModel {
    PanelOptionModel { text, preview: None, item_id: None, seen: false, enabled }
}

/// The entries shown at a node: its options, then "Show item..." (enabled when the
/// player carries an item).
pub open spec fn node_entries_spec(n: NodeModel, show_item_enabled: bool) -> Seq<PanelOptionModel> {
    n.options.map_values(|o: OptionModel| plain_entry(o.text, true)).push(
        plain_entry("Show item..."@, show_item_enabled),
    )
}

/// The entry of an item in the inventory list.
pub open spec fn item_entry(e: EntryModel) -> PanelOptionModel {
    PanelOptionModel {
        text: e.title,
        preview: Some(preview_spec(e)),
        item_id: Some(e.id),
        seen: e.seen,
        enabled: true,
    }
}

/// The inventory list: one entry per item, then "back".
pub open spec fn inventory_entries_spec(items: Seq<EntryModel>) -> Seq<PanelOptionModel> {
    items.map_values(|e: EntryModel| item_entry(e)).push(plain_entry("back"@, true))
}

/// The preview card of an item.
pub fn preview_of(e: &DiscoveryEntry) -> (r: UiDialoguePreview)
    ensures
        r@ == preview_spec(e@),
{
    UiDialoguePreview {
        title: clone_str(&e.title),
        subtitle: clone_str(&e.subtitle),
        description: clone_str(&e.description),
        image_path: clone_opt_str(&e.image_path),
        model_path: clone_opt_str(&e.model_path),
    }
}

fn plain(text: &str, enabled: bool) -> (r: UiDialogueOption)
    ensures
        r@ == plain_entry(text@, enabled),
{
    UiDialogueOption { text: owned(text), preview: None, item_id: None, seen: false, enabled }
}

/// The entries the panel lists at node `node` (see `node_entries_spec`).
pub fn node_entries(node: &RatNode, show_item_enabled: bool) -> (r: Vec<UiDialogueOption>)
    ensures
        panel_models(r@) == node_entries_spec(node@, show_item_enabled),
{
    let mut out: Vec<UiDialogueOption> = Vec::new();
    let ghost opts = node@.options;
    let mut k: usize = 0;
    while k < node.options.len()
        invariant
            k <= node.options@.len(),
            opts == node@.options,
            panel_models(out@) == opts.take(k as int).map_values(
                |o: OptionModel| plain_entry(o.text, true),
            ),
        decreases node.options.len() - k,
    {
        assert(opts[k as int] == node.options@[k as int]@);
        let ghost o0 = out@;
        out.push(plain(node.options[k].text.as_str(), true));
        assert(panel_models(out@) =~= panel_models(o0).push(plain_entry(opts[k as int].text, true)));
        k += 1;
        assert(panel_models(out@) =~= opts.take(k as int).map_values(
            |o: OptionModel| plain_entry(o.text, true),
        ));
    }
    assert(opts.take(k as int) =~= opts);
    let ghost o1 = out@;
    out.push(plain("Show item...", show_item_enabled));
    assert(panel_models(out@) =~= panel_models(o1).push(plain_entry("Show item..."@, show_item_enabled)));
    out
}

/// The inventory list the panel shows for `items` (see `inventory_entries_spec`).
pub fn inventory_entries(items: &[DiscoveryEntry]) -> (r: Vec<UiDialogueOption>)
    ensures
        panel_models(r@) == inventory_entries_spec(entry_models(items@)),
{
    let mut out: Vec<UiDialogueOption> = Vec::new();
    let ghost es = entry_models(items@);
    let mut k: usize = 0;
    while k < items.len()
        invariant
            k <= items@.len(),
            es == entry_models(items@),
            panel_models(out@) == es.take(k as int).map_values(|e: EntryModel| item_entry(e)),
        decreases items.len() - k,
    {
        let e = &items[k];
        assert(es[k as int] == e@);
        let entry = UiDialogueOption {
            text: clone_str(&e.title),
            preview: Some(preview_of(e)),
            item_id: Some(clone_str(&e.id)),
            seen: e.seen,
            enabled: true,
        };
        let ghost o0 = out@;
        out.push(entry);
        assert(panel_models(out@) =~= panel_models(o0).push(item_entry(es[k as int])));
        k += 1;
        assert(panel_models(out@) =~= es.take(k as int).map_values(|e: EntryModel| item_entry(e)));
    }
    assert(es.take(k as int) =~= es);
    let ghost o1 = out@;
    out.push(plain("back", true));
    assert(panel_models(out@) =~= panel_models(o1).push(plain_entry("back"@, true)));
    out
}

// ---------------------------------------------------------------
// slot label, prompt and quick actions
// ---------------------------------------------------------------

/// The text of the option slot: "<n> / <count>  <text>", with " [shown]" after an
/// item already shown, or "no choices" when nothing is selected.
pub open spec fn slot_text_spec(
    selected: nat,
    options: Seq<PanelOptionModel>,
    mode: UiDialogueMode,
) -> Seq<char> {
    if selected < options.len() {
        let o = options[selected as int];
        decimal(selected + 1) + " / "@ + decimal(options.len()) + "  "@ + o.text + if mode
            == UiDialogueMode::Inventory && o.seen {
            " [shown]"@
        } else {
            ""@
        }
    } else {
        "no choices"@
    }
}

/// The text of the option slot (see `slot_text_spec`).
pub fn slot_text(selected: usize, options: &[UiDialogueOption], mode: UiDialogueMode) -> (r: String)
    ensures
        r@ == slot_text_spec(selected as nat, panel_models(options@), mode),
{
    if selected < options.len() {
        let o = &options[selected];
        assert(panel_models(options@)[selected as int] == o@);
        let mut out = decimal_chars(selected + 1);
        append_chars(&mut out, &chars_of(" / "));
        append_chars(&mut out, &decimal_chars(options.len()));
        append_chars(&mut out, &chars_of("  "));
        append_chars(&mut out, &chars_of(o.text.as_str()));
        let suffix = if mode == UiDialogueMode::Inventory && o.seen {
            " [shown]"
        } else {
            ""
        };
        append_chars(&mut out, &chars_of(suffix));
        string_from_chars(&out)
    } else {
        owned("no choices")
    }
}

/// Whether `p` occurs in `s`.
pub open spec fn contains_seq(s: Seq<char>, p: Seq<char>) -> bool {
    exists|i: int| 0 <= i && i + p.len() <= s.len() && #[trigger] s.subrange(i, i + p.len()) == p
}

/// Whether `p` occurs in `s`.
fn contains_chars(s: &[char], p: &[char]) -> (r: bool)
    ensures
        r == contains_seq(s@, p@),
{
    if p.len() > s.len() {
        return false;
    }
    let last = s.len() - p.len();
    let mut i: usize = 0;
    loop
        invariant_except_break
            p@.len() <= s@.len(),
            s@.len() <= usize::MAX,
            last == s@.len() - p@.len(),
            i <= last,
            forall|j: int| 0 <= j < i ==> #[trigger] s@.subrange(j, j + p@.len()) != p@,
        ensures
            forall|j: int| 0 <= j <= last ==> #[trigger] s@.subrange(j, j + p@.len()) != p@,
        decreases last - i,
    {
        let piece = sub_chars(s, i, i + p.len());
        if chars_eq(&piece, p) {
            return true;
        }
        if i == last {
            break;
        }
        i += 1;
    }
    assert forall|j: int| 0 <= j && j + p@.len() <= s@.len() implies #[trigger] s@.subrange(
        j,
        j + p@.len(),
    ) != p@ by {
        assert(j <= last);
    }
    false
}

/// The quick action an entry offers, read from its text: "show item" or "leave".
pub open spec fn quick_action_spec(text: Seq<char>) -> Option<Seq<char>> {
    let t = ascii_lower_seq(trim_seq(text));
    if contains_seq(t, "show item"@) {
        Some("show item"@)
    } else if contains_seq(t, "leave"@) || contains_seq(t, "go."@) {
        Some("leave"@)
    } else {
        None
    }
}

/// The quick action an entry offers (see `quick_action_spec`).
pub fn quick_action_label(text: &str) -> (r: Option<&'static str>)
    ensures
        match quick_action_spec(text@) {
            Some(x) => r matches Some(y) && y@ == x,
            None => r is None,
        },
{
    let chars = chars_of(text);
    let trimmed = trim(&chars);
    let t = ascii_lowercase(&trimmed);
    if contains_chars(&t, &chars_of("show item")) {
        Some("show item")
    } else if contains_chars(&t, &chars_of("leave")) || contains_chars(&t, &chars_of("go.")) {
        Some("leave")
    } else {
        None
    }
}

/// Whether some entry offers a quick action.
pub open spec fn has_quick_actions_spec(options: Seq<PanelOptionModel>) -> bool {
    exists|i: int| 0 <= i < options.len() && (#[trigger] quick_action_spec(options[i].text)) is Some
}

/// Whether some entry offers a quick action.
pub fn has_quick_actions(options: &[UiDialogueOption]) -> (r: bool)
    ensures
        r == has_quick_actions_spec(panel_models(options@)),
{
    let ghost m = panel_models(options@);
    let mut k: usize = 0;
    while k < options.len()
        invariant
            k <= options@.len(),
            m == panel_models(options@),
            forall|i: int| 0 <= i < k ==> (#[trigger] quick_action_spec(m[i].text)) is None,
        decreases options.len() - k,
    {
        assert(m[k as int] == options@[k as int]@);
        if quick_action_label(options[k].text.as_str()).is_some() {
            assert(quick_action_spec(m[k as int].text) is Some);
            return true;
        }
        k += 1;
    }
    false
}

/// The key prompt under the panel.
pub open spec fn prompt_spec(mode: UiDialogueMode, revealing: bool, options: Seq<PanelOptionModel>) -> Seq<char> {
    if mode == UiDialogueMode::Inventory {
        "a/d: browse | enter: show | q: drop"@
    } else if revealing {
        "e/enter/click: skip"@
    } else if options.len() == 0 {
        "e/enter/click: continue"@
    } else if options.len() == 1 {
        if has_quick_actions_spec(options) {
            "enter: choose | click: quick action"@
        } else {
            "e/enter/click: continue"@
        }
    } else if has_quick_actions_spec(options) {
        "a/d or arrows: switch | enter: choose | click: quick action"@
    } else {
        "a/d or arrows: switch | enter: choose"@
    }
}

/// The key prompt under the panel; `revealing` says the text is still being typed.
pub fn prompt_text(mode: UiDialogueMode, revealing: bool, options: &[UiDialogueOption]) -> (r: &'static str)
    ensures
        r@ == prompt_spec(mode, revealing, panel_models(options@)),
{
    if mode == UiDialogueMode::Inventory {
        return "a/d: browse | enter: show | q: drop";
    }
    let has_quick = has_quick_actions(options);
    if revealing {
        "e/enter/click: skip"
    } else if options.len() == 0 {
        "e/enter/click: continue"
    } else if options.len() == 1 {
        if has_quick {
            "enter: choose | click: quick action"
        } else {
            "e/enter/click: continue"
        }
    } else if has_quick {
        "a/d or arrows: switch | enter: choose | click: quick action"
    } else {
        "a/d or arrows: switch | enter: choose"
    }
}

// ---------------------------------------------------------------
// moving through the entries
// ---------------------------------------------------------------

/// The entry selected after moving `dir` steps from `selected` among `len`
/// entries, wrapping around at both ends; fewer than two entries stay as they are.
pub open spec fn cycle_spec(selected: nat, len: nat, dir: int) -> nat {
    if len < 2 {
        selected
    } else {
        ((selected + dir) % (len as int)) as nat
    }
}

/// Moves the selection `dir` steps (see `cycle_spec`).
pub fn cycle_selection(selected: usize, len: usize, dir: i32) -> (r: usize)
    ensures
        r == cycle_spec(selected as nat, len as nat, dir as int),
{
    if len < 2 {
        return selected;
    }
    let x: i128 = selected as i128 + dir as i128;
    let l: u128 = len as u128;
    if x >= 0 {
        let r: u128 = (x as u128) % l;
        r as usize
    } else {
        let e: u128 = (-x) as u128;
        let m: u128 = e % l;
        proof {
            let ei = e as int;
            let li = l as int;
            let q = ei / li;
            lemma_fundamental_div_mod(ei, li);
            assert(ei == li * q + m);
            if m == 0 {
                assert(x as int == (-q) * li + 0) by (nonlinear_arith)
                    requires
                        x as int == -ei,
                        ei == li * q + 0,
                ;
                lemma_fundamental_div_mod_converse(x as int, li, -q, 0);
            } else {
                assert(x as int == (-q - 1) * li + (li - m)) by (nonlinear_arith)
                    requires
                        x as int == -ei,
                        ei == li * q + m,
                ;
                lemma_fundamental_div_mod_converse(x as int, li, -q - 1, li - m);
            }
        }
        if m == 0 {
            0
        } else {
            (l - m) as usize
        }
    }
}

/// The selected entry's index when it is an item.
pub open spec fn selected_item_spec(options: Seq<PanelOptionModel>, selected: nat) -> Option<nat> {
    if selected < options.len() && options[selected as int].item_id is Some {
        Some(selected)
    } else {
        None
    }
}

/// The selected entry's index when it is an item.
pub fn selected_item_option_index(options: &[UiDialogueOption], selected: usize) -> (r: Option<usize>)
    ensures
        match selected_item_spec(panel_models(options@), selected as nat) {
            Some(i) => r == Some(i as usize),
            None => r is None,
        },
{
    if selected < options.len() && options[selected].item_id.is_some() {
        assert(panel_models(options@)[selected as int] == options@[selected as int]@);
        Some(selected)
    } else {
        proof {
            if selected < options.len() {
                assert(panel_models(options@)[selected as int] == options@[selected as int]@);
            }
        }
        None
    }
}

/// The number of item entries of `v`.
pub open spec fn item_count(v: Seq<PanelOptionModel>) -> nat
    decreases v.len(),
{
    if v.len() == 0 {
        0
    } else {
        item_count(v.drop_last()) + if v.last().item_id is Some {
            1nat
        } else {
            0nat
        }
    }
}

/// The position of the first entry for item `id`.
pub open spec fn item_position(v: Seq<PanelOptionModel>, id: Seq<char>) -> Option<int>
    decreases v.len(),
{
    if v.len() == 0 {
        None
    } else {
        match item_position(v.drop_last(), id) {
            Some(k) => Some(k),
            None => if v.last().item_id == Some(id) {
                Some(v.len() - 1)
            } else {
                None
            },
        }
    }
}

proof fn lemma_item_position(v: Seq<PanelOptionModel>, id: Seq<char>)
    ensures
        match item_position(v, id) {
            Some(k) => 0 <= k < v.len() && v[k].item_id == Some(id) && forall|j: int|
                0 <= j < k ==> v[j].item_id != Some(id),
            None => forall|j: int| 0 <= j < v.len() ==> v[j].item_id != Some(id),
        },
    decreases v.len(),
{
    if v.len() > 0 {
        let t = v.drop_last();
        lemma_item_position(t, id);
        assert forall|j: int| 0 <= j < t.len() implies t[j] == v[j] by {}
    }
}

proof fn lemma_item_count(v: Seq<PanelOptionModel>)
    ensures
        item_count(v) <= v.len(),
    decreases v.len(),
{
    if v.len() > 0 {
        lemma_item_count(v.drop_last());
    }
}

/// The entries after dropping item `id`: its first entry goes, and "back" is added
/// when the list would otherwise end with an item or be empty.
pub open spec fn after_drop(v: Seq<PanelOptionModel>, id: Seq<char>) -> Seq<PanelOptionModel> {
    let o1 = match item_position(v, id) {
        Some(k) => v.remove(k),
        None => v,
    };
    if o1.len() == 0 || o1.last().item_id is Some {
        o1.push(plain_entry("back"@, true))
    } else {
        o1
    }
}

/// The selection after a drop: the last entry when no item is left, else the
/// old selection kept within the items.
pub open spec fn selection_after_drop(v: Seq<PanelOptionModel>, selected: nat) -> nat {
    let n = item_count(v);
    if n == 0 {
        if v.len() == 0 {
            0
        } else {
            (v.len() - 1) as nat
        }
    } else if selected <= n - 1 {
        selected
    } else {
        (n - 1) as nat
    }
}

/// Drops the selected item from the inventory list: when the selected entry is an
/// item, its entry leaves the list (see `after_drop`) and the item's id comes back
/// with the new selection (see `selection_after_drop`); otherwise nothing changes.
pub fn drop_selected_item(options: &mut Vec<UiDialogueOption>, selected: usize) -> (r: Option<(String, usize)>)
    ensures
        match selected_item_spec(panel_models(old(options)@), selected as nat) {
            Some(i) => {
                let id = panel_models(old(options)@)[i as int].item_id->0;
                let after = after_drop(panel_models(old(options)@), id);
                &&& r matches Some((dropped, sel)) && dropped@ == id && sel == selection_after_drop(
                    after,
                    selected as nat,
                )
                &&& panel_models(final(options)@) == after
            },
            None => r is None && panel_models(final(options)@) == panel_models(old(options)@),
        },
{
    let ghost m0 = panel_models(options@);
    if selected >= options.len() {
        return None;
    }
    assert(m0[selected as int] == options@[selected as int]@);
    let id = match &options[selected].item_id {
        Some(x) => clone_str(x),
        None => {
            return None;
        },
    };
    proof {
        lemma_item_position(m0, id@);
    }
    let mut k: usize = 0;
    while k < options.len()
        invariant
            k <= options@.len(),
            m0 == panel_models(options@),
            selected < m0.len(),
            m0[selected as int].item_id == Some(id@),
            forall|j: int| 0 <= j < k ==> m0[j].item_id != Some(id@),
            match item_position(m0, id@) {
                Some(p) => 0 <= p < m0.len() && m0[p].item_id == Some(id@) && forall|j: int|
                    0 <= j < p ==> m0[j].item_id != Some(id@),
                None => forall|j: int| 0 <= j < m0.len() ==> m0[j].item_id != Some(id@),
            },
        ensures
            k < m0.len(),
            m0[k as int].item_id == Some(id@),
            forall|j: int| 0 <= j < k ==> m0[j].item_id != Some(id@),
        decreases options.len() - k,
    {
        assert(m0[k as int] == options@[k as int]@);
        let hit = match &options[k].item_id {
            Some(x) => *x == id,
            None => false,
        };
        if hit {
            break;
        }
        k += 1;
    }
    assert(item_position(m0, id@) == Some(k as int));
    options.remove(k);
    assert(panel_models(options@) =~= m0.remove(k as int));
    let ghost o1 = panel_models(options@);
    let needs_back = match options.last() {
        Some(o) => o.item_id.is_some(),
        None => true,
    };
    if needs_back {
        options.push(plain("back", true));
        assert(panel_models(options@) =~= o1.push(plain_entry("back"@, true)));
    }
    let ghost after = panel_models(options@);
    assert(after == after_drop(m0, id@));
    let mut n: usize = 0;
    let mut j: usize = 0;
    while j < options.len()
        invariant
            j <= options@.len(),
            after == panel_models(options@),
            n == item_count(after.take(j as int)),
            n <= j,
        decreases options.len() - j,
    {
        assert(after.take(j + 1).drop_last() =~= after.take(j as int));
        assert(after[j as int] == options@[j as int]@);
        if options[j].item_id.is_some() {
            n += 1;
        }
        j += 1;
    }
    assert(after.take(j as int) =~= after);
    let sel = if n == 0 {
        if options.len() == 0 {
            0
        } else {
            options.len() - 1
        }
    } else if selected <= n - 1 {
        selected
    } else {
        n - 1
    };
    Some((id, sel))
}

/// Moving the selection keeps it among the entries, and moving back undoes it.
pub proof fn law_cycle_round_trip(selected: nat, len: nat, dir: int)
    requires
        len >= 2,
        selected < len,
    ensures
        cycle_spec(selected, len, dir) < len,
        cycle_spec(cycle_spec(selected, len, dir), len, -dir) == selected,
{
    let l = len as int;
    let c = (selected + dir) % l;
    assert(0 <= c < l) by (nonlinear_arith)
        requires
            l >= 2,
            c == (selected + dir) % l,
    ;
    let q = (selected + dir) / l;
    assert(selected + dir == l * q + c) by (nonlinear_arith)
        requires
            l >= 2,
            c == (selected + dir) % l,
            q == (selected + dir) / l,
    ;
    assert(c - dir == (-q) * l + selected) by (nonlinear_arith)
        requires
            selected + dir == l * q + c,
    ;
    lemma_fundamental_div_mod_converse(c - dir, l, -q, selected as int);
}

/// After a drop the list still ends with a non-item entry ("back"), and the
/// selection points into it.
pub proof fn law_drop_keeps_list_usable(v: Seq<PanelOptionModel>, id: Seq<char>, selected: nat)
    ensures
        after_drop(v, id).len() > 0,
        after_drop(v, id).last().item_id is None,
        selection_after_drop(after_drop(v, id), selected) < after_drop(v, id).len(),
{
    let a = after_drop(v, id);
    lemma_item_count(a);
    if item_count(a) == a.len() {
        lemma_all_items(a);
    }
}

proof fn lemma_all_items(v: Seq<PanelOptionModel>)
    requires
        v.len() > 0,
        item_count(v) == v.len(),
    ensures
        v.last().item_id is Some,
{
    lemma_item_count(v.drop_last());
}

// ---------------------------------------------------------------
// the panel's keys
// ---------------------------------------------------------------

/// What the dialogue panel shows: its mode, its entries, the selected one, and how
/// many characters of the text (of `text_len`) are revealed so far.
#[derive(Debug)]
pub struct PanelSession {
    pub mode: UiDialogueMode,
    pub options: Vec<UiDialogueOption>,
    pub selected: usize,
    pub revealed: usize,
    pub text_len: usize,
}

/// A key the panel reacts to.
#[derive(Debug, Clone, Copy, PartialEq, Eq, Structural)]
pub enum PanelKey {
    /// Escape.
    Close,
    /// Left arrow or `a`.
    Previous,
    /// Right arrow or `d`.
    Next,
    /// `e`, Enter or Space.
    Confirm,
    /// `q` or Delete.
    Drop,
}

/// What the game does after a key, a click or an advance request.
#[derive(Debug, PartialEq, Eq)]
pub enum PanelAction {
    Nothing,
    /// Ask the dialogue runtime to close the conversation.
    CloseConversation,
    /// The whole text was revealed at once.
    RevealedAll,
    /// Ask the dialogue runtime to advance.
    Advance,
    /// Ask the dialogue runtime to choose entry `n`.
    Choose(usize),
    /// The selection moved.
    Moved,
    /// The item with this id was dropped from the inventory list; the game removes
    /// it from the database and reopens the inventory.
    Dropped(String),
}

impl PanelSession {
    /// The session state the contracts speak of.
    pub open spec fn state(&self) -> (UiDialogueMode, Seq<PanelOptionModel>, usize, usize, usize) {
        (self.mode, panel_models(self.options@), self.selected, self.revealed, self.text_len)
    }

    /// An advance request: reveal the whole text while it is still being typed;
    /// otherwise advance when there are no entries, else choose the selected one.
    pub fn advance(&mut self) -> (r: PanelAction)
        ensures
            old(self).revealed < old(self).text_len ==> r == PanelAction::RevealedAll && final(self).state() == (old(self).mode, panel_models(old(self).options@), old(self).selected, old(self).text_len, old(self).text_len),
            old(self).revealed >= old(self).text_len ==> final(self).state() == old(self).state() && r
                == if old(self).options@.len() == 0 {
                PanelAction::Advance
            } else {
                PanelAction::Choose(old(self).selected)
            },
    {
        if self.revealed < self.text_len {
            self.revealed = self.text_len;
            return PanelAction::RevealedAll;
        }
        if self.options.len() == 0 {
            PanelAction::Advance
        } else {
            PanelAction::Choose(self.selected)
        }
    }

    /// A click on the panel (not on the item preview): reveal the whole text
    /// while it is being typed; with no entries, advance; otherwise nothing.
    pub fn click(&mut self) -> (r: PanelAction)
        ensures
            old(self).revealed < old(self).text_len ==> r == PanelAction::RevealedAll && final(self).state() == (old(self).mode, panel_models(old(self).options@), old(self).selected, old(self).text_len, old(self).text_len),
            old(self).revealed >= old(self).text_len ==> final(self).state() == old(self).state() && r
                == if old(self).options@.len() == 0 {
                PanelAction::Advance
            } else {
                PanelAction::Nothing
            },
    {
        if self.revealed < self.text_len {
            self.revealed = self.text_len;
            return PanelAction::RevealedAll;
        }
        if self.options.len() == 0 {
            PanelAction::Advance
        } else {
            PanelAction::Nothing
        }
    }

    /// A key while the conversation is shown. Escape closes it; in the inventory,
    /// the drop key drops the selected item (when an item is selected). While the
    /// text is typed, confirm reveals it; with no entries, confirm advances;
    /// otherwise the arrows move the selection and confirm chooses the selected
    /// entry.
    pub fn key(&mut self, key: PanelKey) -> (r: PanelAction)
        ensures
            key == PanelKey::Close ==> r == PanelAction::CloseConversation && final(self).state()
                == old(self).state(),
            key == PanelKey::Drop && old(self).mode == UiDialogueMode::Inventory && selected_item_spec(
                panel_models(old(self).options@),
                old(self).selected as nat,
            ) is Some ==> ({
                let id = panel_models(old(self).options@)[old(self).selected as int].item_id->0;
                let after = after_drop(panel_models(old(self).options@), id);
                &&& r matches PanelAction::Dropped(d) && d@ == id
                &&& panel_models(final(self).options@) == after
                &&& final(self).selected == selection_after_drop(after, old(self).selected as nat)
                &&& final(self).mode == old(self).mode
                &&& final(self).revealed == old(self).revealed
                &&& final(self).text_len == old(self).text_len
            }),
            key != PanelKey::Close && !(key == PanelKey::Drop && old(self).mode
                == UiDialogueMode::Inventory && selected_item_spec(
                panel_models(old(self).options@),
                old(self).selected as nat,
            ) is Some) ==> if old(self).revealed < old(self).text_len {
                if key == PanelKey::Confirm {
                    r == PanelAction::RevealedAll && final(self).state() == (
                        old(self).mode,
                        panel_models(old(self).options@),
                        old(self).selected,
                        old(self).text_len,
                        old(self).text_len,
                    )
                } else {
                    r == PanelAction::Nothing && final(self).state() == old(self).state()
                }
            } else if old(self).options@.len() == 0 {
                final(self).state() == old(self).state() && r == if key == PanelKey::Confirm {
                    PanelAction::Advance
                } else {
                    PanelAction::Nothing
                }
            } else if key == PanelKey::Previous || key == PanelKey::Next {
                r == PanelAction::Moved && final(self).state() == (
                    old(self).mode,
                    panel_models(old(self).options@),
                    cycle_spec(
                        old(self).selected as nat,
                        old(self).options@.len(),
                        if key == PanelKey::Previous {
                            -1
                        } else {
                            1
                        },
                    ) as usize,
                    old(self).revealed,
                    old(self).text_len,
                )
            } else if key == PanelKey::Confirm {
                final(self).state() == old(self).state() && r == PanelAction::Choose(
                    match selected_item_spec(
                        panel_models(old(self).options@),
                        old(self).selected as nat,
                    ) {
                        Some(i) => if old(self).mode == UiDialogueMode::Inventory {
                            i as usize
                        } else {
                            old(self).selected
                        },
                        None => old(self).selected,
                    },
                )
            } else {
                r == PanelAction::Nothing && final(self).state() == old(self).state()
            },
    {
        if key == PanelKey::Close {
            return PanelAction::CloseConversation;
        }
        if self.mode == UiDialogueMode::Inventory && key == PanelKey::Drop {
            let ghost before = panel_models(self.options@);
            match drop_selected_item(&mut self.options, self.selected) {
                Some((id, sel)) => {
                    self.selected = sel;
                    return PanelAction::Dropped(id);
                },
                None => {
                    assert(panel_models(self.options@) == before);
                },
            }
        }
        if self.revealed < self.text_len {
            if key == PanelKey::Confirm {
                self.revealed = self.text_len;
                return PanelAction::RevealedAll;
            }
            return PanelAction::Nothing;
        }
        if self.options.len() == 0 {
            if key == PanelKey::Confirm {
                return PanelAction::Advance;
            }
            return PanelAction::Nothing;
        }
        if key == PanelKey::Previous {
            self.selected = cycle_selection(self.selected, self.options.len(), -1);
            return PanelAction::Moved;
        }
        if key == PanelKey::Next {
            self.selected = cycle_selection(self.selected, self.options.len(), 1);
            return PanelAction::Moved;
        }
        if key == PanelKey::Confirm {
            if self.mode == UiDialogueMode::Inventory {
                match selected_item_option_index(&self.options, self.selected) {
                    Some(i) => {
                        return PanelAction::Choose(i);
                    },
                    None => {
                        return PanelAction::Choose(self.selected);
                    },
                }
            }
            return PanelAction::Choose(self.selected);
        }
        PanelAction::Nothing
    }
}

} // verus!
