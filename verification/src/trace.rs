//! The line format in which the embedded filter reports its state, and the
//! selection of the state fields from a captured trace.
//!
//! A report line reads `update #  N:    K ticks  x=  V y=  V vx=  V vy=  V`.
//! The values are padded (`x=   0.100`), so a key word may stand alone.
//! Lines without `update #` (summaries, semihosting noise) are skipped. For
//! each report line the last whitespace-separated word that starts with `x=`,
//! `y=`, `vx=` or `vy=` gives that field's text: what follows the key in the
//! word, or, when the word is the key alone, the next word. Turning the text
//! into a number is left to the caller.
use vstd::prelude::*;

use crate::text::{chars_of, contains, contains_seq, is_white_space, matches_at, starts_with, white_space};

verus! {

/// Length of the run of characters before the first `'\n'` (all of `s` when
/// there is none).
pub open spec fn first_newline(s: Seq<char>) -> nat
    decreases s.len(),
{
    if s.len() == 0 || s[0] == '\n' {
        0
    } else {
        1 + first_newline(s.drop_first())
    }
}

/// `l` without one carriage return at its end.
pub open spec fn strip_cr(l: Seq<char>) -> Seq<char> {
    if l.len() > 0 && l.last() == '\r' {
        l.drop_last()
    } else {
        l
    }
}

/// The lines of `s` as `str::lines` yields them: split at `"\n"` or
/// `"\r\n"`, with no empty line after a final line ending.
pub open spec fn lines(s: Seq<char>) -> Seq<Seq<char>>
    decreases s.len(),
{
    if s.len() == 0 {
        seq![]
    } else {
        let i = first_newline(s);
        if i >= s.len() {
            seq![s]
        } else {
            seq![strip_cr(s.take(i as int))] + lines(s.skip(i + 1int))
        }
    }
}

/// Length of the leading run of characters that are not white space.
pub open spec fn word_len(s: Seq<char>) -> nat
    decreases s.len(),
{
    if s.len() == 0 || is_white_space(s[0]) {
        0
    } else {
        1 + word_len(s.drop_first())
    }
}

/// The words of `s` as `str::split_whitespace` yields them.
pub open spec fn words(s: Seq<char>) -> Seq<Seq<char>>
    decreases s.len(),
{
    if s.len() == 0 {
        seq![]
    } else if is_white_space(s[0]) {
        words(s.drop_first())
    } else {
        let n = word_len(s);
        proof {
            lemma_word_len_bounds(s);
        }
        seq![s.take(n as int)] + words(s.skip(n as int))
    }
}

/// The text that the key word `ws[i]` gives for `key`: what follows the key
/// in the word, or, when the word is the key alone, the next word (empty when
/// there is none).
pub open spec fn field_value(ws: Seq<Seq<char>>, i: int, key: Seq<char>) -> Seq<char> {
    let rest = ws[i].skip(key.len() as int);
    if rest.len() == 0 && i + 1 < ws.len() {
        ws[i + 1]
    } else {
        rest
    }
}

/// The text given by the last of the first `n` words that starts with `key`.
pub open spec fn last_field_in(ws: Seq<Seq<char>>, n: int, key: Seq<char>) -> Option<Seq<char>>
    decreases n,
{
    if n <= 0 {
        None
    } else if starts_with(ws[n - 1], key) {
        Some(field_value(ws, n - 1, key))
    } else {
        last_field_in(ws, n - 1, key)
    }
}

/// The text given by the last word that starts with `key`.
pub open spec fn last_field(ws: Seq<Seq<char>>, key: Seq<char>) -> Option<Seq<char>> {
    last_field_in(ws, ws.len() as int, key)
}

pub open spec fn marker() -> Seq<char> {
    seq!['u', 'p', 'd', 'a', 't', 'e', ' ', '#']
}

pub open spec fn x_key() -> Seq<char> {
    seq!['x', '=']
}

pub open spec fn y_key() -> Seq<char> {
    seq!['y', '=']
}

pub open spec fn vx_key() -> Seq<char> {
    seq!['v', 'x', '=']
}

pub open spec fn vy_key() -> Seq<char> {
    seq!['v', 'y', '=']
}

/// The field texts of one report line.
pub struct TraceFields {
    pub x: Option<Seq<char>>,
    pub y: Option<Seq<char>>,
    pub vx: Option<Seq<char>>,
    pub vy: Option<Seq<char>>,
}

/// The fields of a line, or `None` when the line is no report line.
pub open spec fn line_fields(l: Seq<char>) -> Option<TraceFields> {
    if contains_seq(l, marker()) {
        let ws = words(l);
        Some(
            TraceFields {
                x: last_field(ws, x_key()),
                y: last_field(ws, y_key()),
                vx: last_field(ws, vx_key()),
                vy: last_field(ws, vy_key()),
            },
        )
    } else {
        None
    }
}

/// The fields of the report lines among `ls`, in order.
pub open spec fn report_fields(ls: Seq<Seq<char>>) -> Seq<TraceFields>
    decreases ls.len(),
{
    if ls.len() == 0 {
        seq![]
    } else {
        match line_fields(ls[0]) {
            Some(f) => seq![f] + report_fields(ls.drop_first()),
            None => report_fields(ls.drop_first()),
        }
    }
}

/// The fields of every report line of a captured trace.
pub open spec fn trace_fields(s: Seq<char>) -> Seq<TraceFields> {
    report_fields(lines(s))
}

pub proof fn lemma_first_newline_bounds(s: Seq<char>)
    ensures
        first_newline(s) <= s.len(),
        first_newline(s) < s.len() ==> s[first_newline(s) as int] == '\n',
        forall|k: int| 0 <= k < first_newline(s) ==> s[k] != '\n',
    decreases s.len(),
{
    if s.len() > 0 && s[0] != '\n' {
        lemma_first_newline_bounds(s.drop_first());
        assert forall|k: int| 0 <= k < first_newline(s) implies s[k] != '\n' by {
            if k > 0 {
                assert(s[k] == s.drop_first()[k - 1]);
            }
        }
    }
}

pub proof fn lemma_word_len_bounds(s: Seq<char>)
    ensures
        word_len(s) <= s.len(),
        s.len() > 0 && !is_white_space(s[0]) ==> word_len(s) > 0,
        word_len(s) < s.len() ==> is_white_space(s[word_len(s) as int]),
        forall|k: int| 0 <= k < word_len(s) ==> !is_white_space(#[trigger] s[k]),
    decreases s.len(),
{
    if s.len() > 0 && !is_white_space(s[0]) {
        lemma_word_len_bounds(s.drop_first());
        assert forall|k: int| 0 <= k < word_len(s) implies !is_white_space(#[trigger] s[k]) by {
            if k > 0 {
                assert(s[k] == s.drop_first()[k - 1]);
            }
        }
    }
}

proof fn lemma_first_newline_is(s: Seq<char>, j: int)
    requires
        0 <= j <= s.len(),
        forall|k: int| 0 <= k < j ==> s[k] != '\n',
        j == s.len() || s[j] == '\n',
    ensures
        first_newline(s) == j,
    decreases j,
{
    if j > 0 {
        lemma_first_newline_is(s.drop_first(), j - 1);
    }
}

proof fn lemma_word_len_is(s: Seq<char>, j: int)
    requires
        0 <= j <= s.len(),
        forall|k: int| 0 <= k < j ==> !is_white_space(#[trigger] s[k]),
        j == s.len() || is_white_space(s[j]),
    ensures
        word_len(s) == j,
    decreases j,
{
    if j > 0 {
        assert(!is_white_space(s[0]));
        assert forall|k: int| 0 <= k < j - 1 implies !is_white_space(
            #[trigger] s.drop_first()[k],
        ) by {
            assert(s.drop_first()[k] == s[k + 1]);
        }
        lemma_word_len_is(s.drop_first(), j - 1);
    }
}


pub open spec fn chars_view(o: Option<Vec<char>>) -> Option<Seq<char>> {
    match o {
        Some(v) => Some(v@),
        None => None,
    }
}

/// The field texts of one report line, as characters.
pub struct ReportLine {
    pub x: Option<Vec<char>>,
    pub y: Option<Vec<char>>,
    pub vx: Option<Vec<char>>,
    pub vy: Option<Vec<char>>,
}

impl View for ReportLine {
    type V = TraceFields;

    open spec fn view(&self) -> TraceFields {
        TraceFields {
            x: chars_view(self.x),
            y: chars_view(self.y),
            vx: chars_view(self.vx),
            vy: chars_view(self.vy),
        }
    }
}

pub open spec fn lines_view(v: Seq<ReportLine>) -> Seq<TraceFields> {
    v.map_values(|r: ReportLine| r@)
}

/// A copy of `s[lo..hi]`.
pub fn copy_range(s: &Vec<char>, lo: usize, hi: usize) -> (r: Vec<char>)
    requires
        lo <= hi <= s@.len(),
    ensures
        r@ == s@.subrange(lo as int, hi as int),
{
    let mut r: Vec<char> = Vec::new();
    let mut i = lo;
    while i < hi
        invariant
            lo <= i <= hi <= s@.len(),
            r@ == s@.subrange(lo as int, i as int),
        decreases hi - i,
    {
        r.push(s[i]);
        i += 1;
        assert(r@ =~= s@.subrange(lo as int, i as int));
    }
    r
}

/// `b` holds the bounds of the words `ws` of `l`.
pub open spec fn bounds_of(l: Seq<char>, ws: Seq<Seq<char>>, b: Seq<(usize, usize)>) -> bool {
    &&& b.len() == ws.len()
    &&& forall|j: int|
        #![trigger b[j]]
        0 <= j < b.len() ==> b[j].0 <= b[j].1 <= l.len() && ws[j] == l.subrange(
            b[j].0 as int,
            b[j].1 as int,
        )
}

/// The bounds of the words of `l`, in order.
fn word_bounds(l: &Vec<char>) -> (b: Vec<(usize, usize)>)
    ensures
        bounds_of(l@, words(l@), b@),
{
    let mut b: Vec<(usize, usize)> = Vec::new();
    let ghost mut done: Seq<Seq<char>> = seq![];
    let n = l.len();
    let mut pos: usize = 0;
    assert(l@.skip(0) =~= l@);
    while pos < n
        invariant
            pos <= n,
            n == l@.len(),
            words(l@) == done + words(l@.skip(pos as int)),
            bounds_of(l@, done, b@),
        decreases n - pos,
    {
        if white_space(l[pos]) {
            assert(l@.skip(pos as int).drop_first() =~= l@.skip(pos + 1));
            pos += 1;
        } else {
            let mut q = pos + 1;
            while q < n && !white_space(l[q])
                invariant
                    pos < q <= n,
                    n == l@.len(),
                    forall|k: int| pos <= k < q ==> !is_white_space(#[trigger] l@[k]),
                decreases n - q,
            {
                q += 1;
            }
            let ghost rest = l@.skip(pos as int);
            let ghost w = l@.subrange(pos as int, q as int);
            proof {
                assert forall|k: int| 0 <= k < q - pos implies !is_white_space(#[trigger] rest[k]) by {
                    assert(rest[k] == l@[pos + k]);
                }
                lemma_word_len_is(rest, q - pos);
                assert(rest.take(q - pos) =~= w);
                assert(rest.skip(q - pos) =~= l@.skip(q as int));
                assert(done + words(rest) =~= done.push(w) + words(l@.skip(q as int)));
            }
            let ghost old_b = b@;
            b.push((pos, q));
            proof {
                done = done.push(w);
                assert forall|j: int| 0 <= j < b@.len() implies #[trigger] b@[j].0 <= b@[j].1 <= l@.len()
                    && done[j] == l@.subrange(b@[j].0 as int, b@[j].1 as int) by {
                    if j < old_b.len() {
                        assert(b@[j] == old_b[j]);
                    }
                }
            }
            pos = q;
        }
    }
    assert(l@.skip(n as int) =~= Seq::<char>::empty());
    assert(done + Seq::<Seq<char>>::empty() =~= done);
    b
}

/// The field that word `i` gives for `key`, or `cur` when the word does not
/// start with `key`.
fn field_at(l: &Vec<char>, b: &Vec<(usize, usize)>, i: usize, key: &Vec<char>, cur: Option<Vec<char>>) -> (r:
    Option<Vec<char>>)
    requires
        i < b@.len(),
        bounds_of(l@, words(l@), b@),
    ensures
        chars_view(r) == (if starts_with(words(l@)[i as int], key@) {
            Some(field_value(words(l@), i as int, key@))
        } else {
            chars_view(cur)
        }),
{
    let ghost ws = words(l@);
    let (lo, hi) = b[i];
    assert(ws[i as int] == l@.subrange(lo as int, hi as int));
    let ghost w = l@.subrange(lo as int, hi as int);
    if key.len() <= hi - lo && matches_at(l, key, lo) {
        assert(w.subrange(0, key@.len() as int) =~= l@.subrange(lo as int, lo + key@.len()));
        if hi - lo == key.len() && i < b.len() - 1 {
            let (a, c) = b[i + 1];
            assert(ws[i + 1] == l@.subrange(a as int, c as int));
            assert(w.skip(key@.len() as int).len() == 0);
            Some(copy_range(l, a, c))
        } else {
            let v = copy_range(l, lo + key.len(), hi);
            assert(v@ =~= w.skip(key@.len() as int));
            Some(v)
        }
    } else {
        proof {
            if starts_with(w, key@) {
                assert(w.subrange(0, key@.len() as int) =~= l@.subrange(lo as int, lo + key@.len()));
            }
        }
        cur
    }
}

/// The fields of one line, or `None` when it is no report line.
pub fn report_line(l: &Vec<char>) -> (r: Option<ReportLine>)
    ensures
        match r {
            Some(a) => line_fields(l@) == Some(a@),
            None => line_fields(l@) is None,
        },
{
    let mark = vec!['u', 'p', 'd', 'a', 't', 'e', ' ', '#'];
    assert(mark@ =~= marker());
    if !contains(l, &mark) {
        return None;
    }
    let xk = vec!['x', '='];
    let yk = vec!['y', '='];
    let vxk = vec!['v', 'x', '='];
    let vyk = vec!['v', 'y', '='];
    assert(xk@ =~= x_key());
    assert(yk@ =~= y_key());
    assert(vxk@ =~= vx_key());
    assert(vyk@ =~= vy_key());
    let b = word_bounds(l);
    let ghost ws = words(l@);
    let mut x: Option<Vec<char>> = None;
    let mut y: Option<Vec<char>> = None;
    let mut vx: Option<Vec<char>> = None;
    let mut vy: Option<Vec<char>> = None;
    let mut i: usize = 0;
    while i < b.len()
        invariant
            i <= b@.len(),
            ws == words(l@),
            bounds_of(l@, ws, b@),
            xk@ == x_key(),
            yk@ == y_key(),
            vxk@ == vx_key(),
            vyk@ == vy_key(),
            chars_view(x) == last_field_in(ws, i as int, x_key()),
            chars_view(y) == last_field_in(ws, i as int, y_key()),
            chars_view(vx) == last_field_in(ws, i as int, vx_key()),
            chars_view(vy) == last_field_in(ws, i as int, vy_key()),
        decreases b.len() - i,
    {
        x = field_at(l, &b, i, &xk, x);
        y = field_at(l, &b, i, &yk, y);
        vx = field_at(l, &b, i, &vxk, vx);
        vy = field_at(l, &b, i, &vyk, vy);
        i += 1;
    }
    Some(ReportLine { x, y, vx, vy })
}

/// The fields of every report line of a captured trace, in the order of the
/// lines.
pub fn report_lines(content: &str) -> (out: Vec<ReportLine>)
    ensures
        lines_view(out@) == trace_fields(content@),
{
    let s = chars_of(content);
    let n = s.len();
    let mut out: Vec<ReportLine> = Vec::new();
    let mut start: usize = 0;
    assert(s@.skip(0) =~= s@);
    assert(lines_view(out@) =~= Seq::<TraceFields>::empty());
    while start < n
        invariant
            start <= n,
            n == s@.len(),
            s@ == content@,
            report_fields(lines(s@)) == lines_view(out@) + report_fields(lines(s@.skip(start as int))),
        decreases n - start,
    {
        let mut end = start;
        while end < n && s[end] != '\n'
            invariant
                start <= end <= n,
                n == s@.len(),
                forall|k: int| start <= k < end ==> s@[k] != '\n',
            decreases n - end,
        {
            end += 1;
        }
        let ghost rest = s@.skip(start as int);
        proof {
            assert forall|k: int| 0 <= k < end - start implies rest[k] != '\n' by {
                assert(rest[k] == s@[start + k]);
            }
            lemma_first_newline_is(rest, end - start);
        }
        let mut line_end = end;
        if end < n && end > start && s[end - 1] == '\r' {
            line_end = end - 1;
        }
        let line = copy_range(&s, start, line_end);
        proof {
            if end < n {
                assert(rest.take(end - start) =~= s@.subrange(start as int, end as int));
                assert(line@ =~= strip_cr(s@.subrange(start as int, end as int)));
                assert(rest.skip(end - start + 1) =~= s@.skip(end + 1));
            } else {
                assert(line@ =~= rest);
            }
        }
        let ghost ls = lines(rest);
        assert(report_fields(ls) == match line_fields(line@) {
            Some(f) => seq![f] + report_fields(ls.drop_first()),
            None => report_fields(ls.drop_first()),
        });
        match report_line(&line) {
            Some(r) => {
                out.push(r);
            },
            None => {},
        }
        if end == n {
            start = n;
            assert(ls.drop_first() =~= Seq::<Seq<char>>::empty());
        } else {
            start = end + 1;
            assert(ls.drop_first() =~= lines(s@.skip(start as int)));
        }
        assert(lines_view(out@) + report_fields(lines(s@.skip(start as int))) =~= report_fields(lines(s@)));
    }
    assert(s@.skip(n as int) =~= Seq::<char>::empty());
    assert(lines_view(out@) + Seq::<TraceFields>::empty() =~= lines_view(out@));
    out
}


proof fn lemma_report_fields_append(l1: Seq<Seq<char>>, l2: Seq<Seq<char>>)
    ensures
        report_fields(l1 + l2) == report_fields(l1) + report_fields(l2),
    decreases l1.len(),
{
    if l1.len() == 0 {
        assert(l1 + l2 =~= l2);
    } else {
        assert((l1 + l2).drop_first() =~= l1.drop_first() + l2);
        lemma_report_fields_append(l1.drop_first(), l2);
        match line_fields(l1[0]) {
            Some(f) => {
                assert(seq![f] + report_fields(l1.drop_first() + l2) =~= (seq![f] + report_fields(
                    l1.drop_first(),
                )) + report_fields(l2));
            },
            None => {},
        }
    }
}

proof fn lemma_word_len_push_space(s: Seq<char>, c: char)
    requires
        is_white_space(c),
    ensures
        word_len(s.push(c)) == word_len(s),
    decreases s.len(),
{
    if s.len() > 0 && !is_white_space(s[0]) {
        assert(s.push(c).drop_first() =~= s.drop_first().push(c));
        lemma_word_len_push_space(s.drop_first(), c);
    }
}

proof fn lemma_words_push_space(s: Seq<char>, c: char)
    requires
        is_white_space(c),
    ensures
        words(s.push(c)) == words(s),
    decreases s.len(),
{
    if s.len() == 0 {
        assert(s.push(c).drop_first() =~= s);
    } else if is_white_space(s[0]) {
        assert(s.push(c).drop_first() =~= s.drop_first().push(c));
        lemma_words_push_space(s.drop_first(), c);
    } else {
        lemma_word_len_push_space(s, c);
        lemma_word_len_bounds(s);
        let n = word_len(s) as int;
        assert(s.push(c).take(n) =~= s.take(n));
        assert(s.push(c).skip(n) =~= s.skip(n).push(c));
        lemma_words_push_space(s.skip(n), c);
    }
}

proof fn lemma_line_fields_strip_cr(l: Seq<char>)
    ensures
        line_fields(strip_cr(l)) == line_fields(l),
{
    if l.len() > 0 && l.last() == '\r' {
        let d = l.drop_last();
        assert(d.push('\r') =~= l);
        lemma_words_push_space(d, '\r');
        if contains_seq(d, marker()) {
            let i = choose|i: int| crate::text::occurs_at(d, marker(), i);
            assert(l.subrange(i, i + 8) =~= d.subrange(i, i + 8));
            assert(crate::text::occurs_at(l, marker(), i));
        }
        if contains_seq(l, marker()) {
            let i = choose|i: int| crate::text::occurs_at(l, marker(), i);
            if i + 8 == l.len() {
                assert(l.subrange(i, i + 8)[7] == l.last());
            }
            assert(l.subrange(i, i + 8) =~= d.subrange(i, i + 8));
            assert(crate::text::occurs_at(d, marker(), i));
        }
    }
}

/// Cutting a trace at a line ending cuts its report lines there: the fields
/// read from `a`, a line ending and `b` are those read from `a` followed by
/// those read from `b`.
pub proof fn lemma_trace_fields_split(a: Seq<char>, b: Seq<char>)
    ensures
        trace_fields(a + seq!['\n'] + b) == trace_fields(a) + trace_fields(b),
    decreases a.len(),
{
    let t = a + seq!['\n'] + b;
    lemma_first_newline_bounds(a);
    let i = first_newline(a) as int;
    assert forall|k: int| 0 <= k < i implies t[k] != '\n' by {
        assert(t[k] == a[k]);
    }
    if i < a.len() {
        assert(t[i] == a[i]);
        lemma_first_newline_is(t, i);
        assert(t.take(i) =~= a.take(i));
        assert(t.skip(i + 1) =~= a.skip(i + 1) + seq!['\n'] + b);
        lemma_trace_fields_split(a.skip(i + 1), b);
        let la = lines(a.skip(i + 1));
        let lb = lines(b);
        let l0 = strip_cr(a.take(i));
        assert(lines(t) == seq![l0] + lines(a.skip(i + 1) + seq!['\n'] + b));
        assert(lines(a) == seq![l0] + la);
        lemma_report_fields_append(seq![l0], lines(a.skip(i + 1) + seq!['\n'] + b));
        lemma_report_fields_append(seq![l0], la);
        assert(report_fields(seq![l0] + la) + report_fields(lb) =~= report_fields(seq![l0])
            + (report_fields(la) + report_fields(lb)));
    } else {
        assert(t[a.len() as int] == '\n');
        lemma_first_newline_is(t, a.len() as int);
        assert(t.take(a.len() as int) =~= a);
        assert(t.skip(a.len() + 1int) =~= b);
        assert(lines(t) == seq![strip_cr(a)] + lines(b));
        lemma_report_fields_append(seq![strip_cr(a)], lines(b));
        lemma_line_fields_strip_cr(a);
        if a.len() == 0 {
            assert(!contains_seq(a, marker()));
            assert(lines(a) =~= Seq::<Seq<char>>::empty());
            assert(strip_cr(a) == a);
            assert(line_fields(a) is None);
            assert(seq![a].drop_first() =~= Seq::<Seq<char>>::empty());
            assert(report_fields(Seq::<Seq<char>>::empty()) == Seq::<TraceFields>::empty());
            assert(report_fields(seq![strip_cr(a)]) =~= Seq::<TraceFields>::empty());
            assert(Seq::<TraceFields>::empty() + report_fields(lines(b)) =~= report_fields(lines(b)));
        } else {
            assert(lines(a) == seq![a]);
            assert(seq![a].drop_first() =~= Seq::<Seq<char>>::empty());
            assert(seq![strip_cr(a)].drop_first() =~= Seq::<Seq<char>>::empty());
        }
    }
}

/// Whether `w` holds no white space.
pub open spec fn no_white_space(w: Seq<char>) -> bool {
    forall|k: int| 0 <= k < w.len() ==> !is_white_space(#[trigger] w[k])
}

/// A word after a space is one more word: the words of `a`, a space and
/// `w` are the words of `a` followed by `w`.
pub proof fn lemma_words_then_word(a: Seq<char>, w: Seq<char>)
    requires
        w.len() > 0,
        no_white_space(w),
    ensures
        words(a + seq![' '] + w) == words(a) + seq![w],
    decreases a.len(),
{
    let s = a + seq![' '] + w;
    if a.len() == 0 {
        assert(s.drop_first() =~= w);
        lemma_word_len_is(w, w.len() as int);
        assert(w.take(w.len() as int) =~= w);
        assert(w.skip(w.len() as int) =~= Seq::<char>::empty());
        assert(!is_white_space(w[0]));
        assert(words(Seq::<char>::empty()) == Seq::<Seq<char>>::empty());
        assert(words(w) == seq![w.take(w.len() as int)] + words(w.skip(w.len() as int)));
        assert(words(w) =~= seq![w]);
        assert(words(a) + seq![w] =~= seq![w]);
    } else if is_white_space(a[0]) {
        assert(s.drop_first() =~= a.drop_first() + seq![' '] + w);
        lemma_words_then_word(a.drop_first(), w);
    } else {
        lemma_word_len_bounds(a);
        let n = word_len(a) as int;
        assert forall|k: int| 0 <= k < n implies !is_white_space(#[trigger] s[k]) by {
            assert(s[k] == a[k]);
        }
        if n < a.len() {
            assert(s[n] == a[n]);
        } else {
            assert(s[n] == ' ');
        }
        lemma_word_len_is(s, n);
        assert(s.take(n) =~= a.take(n));
        assert(s.skip(n) =~= a.skip(n) + seq![' '] + w);
        lemma_words_then_word(a.skip(n), w);
        assert(words(s) =~= seq![a.take(n)] + (words(a.skip(n)) + seq![w]));
        assert(words(a) == seq![a.take(n)] + words(a.skip(n)));
        assert(words(s) =~= words(a) + seq![w]);
    }
}

/// A key word with its value glued on (`vx=-1.000`) gives everything after
/// the key, sign and all.
pub proof fn lemma_glued_field(ws: Seq<Seq<char>>, i: int, key: Seq<char>, v: Seq<char>)
    requires
        0 <= i < ws.len(),
        ws[i] == key + v,
        v.len() > 0,
    ensures
        field_value(ws, i, key) == v,
{
    assert(ws[i].skip(key.len() as int) =~= v);
}

/// A key standing alone (`x=   0.100`, the value padded) gives the word
/// after it.
pub proof fn lemma_padded_field(ws: Seq<Seq<char>>, i: int, key: Seq<char>)
    requires
        0 <= i < ws.len() - 1,
        ws[i] == key,
    ensures
        field_value(ws, i, key) == ws[i + 1],
{
    assert(ws[i].skip(key.len() as int).len() == 0);
}

/// A line that ends with the word `<key><v>` (`v` not empty) reads `v`,
/// every character of it, for that key.
pub proof fn lemma_line_ending_glued(a: Seq<char>, key: Seq<char>, v: Seq<char>)
    requires
        key.len() > 0,
        v.len() > 0,
        no_white_space(key + v),
    ensures
        last_field(words(a + seq![' '] + key + v), key) == Some(v),
{
    let w = key + v;
    assert(a + seq![' '] + key + v =~= a + seq![' '] + w);
    lemma_words_then_word(a, w);
    let ws = words(a) + seq![w];
    assert(ws.last() == w);
    assert(w.subrange(0, key.len() as int) =~= key);
    assert(starts_with(ws[ws.len() - 1], key));
    lemma_glued_field(ws, ws.len() - 1, key, v);
}

/// A line that ends with the key alone and then the padded value `v` (a word
/// that does not itself start with the key) reads `v` for that key.
pub proof fn lemma_line_ending_padded(a: Seq<char>, key: Seq<char>, v: Seq<char>)
    requires
        key.len() > 0,
        v.len() > 0,
        no_white_space(key),
        no_white_space(v),
        !starts_with(v, key),
    ensures
        last_field(words(a + seq![' '] + key + seq![' '] + v), key) == Some(v),
{
    lemma_words_then_word(a, key);
    lemma_words_then_word(a + seq![' '] + key, v);
    let ws = words(a) + seq![key] + seq![v];
    assert(words(a + seq![' '] + key + seq![' '] + v) =~= ws);
    let n = ws.len() as int;
    assert(ws[n - 1] == v);
    assert(ws[n - 2] == key);
    assert(key.subrange(0, key.len() as int) =~= key);
    assert(starts_with(ws[n - 2], key));
    lemma_padded_field(ws, n - 2, key);
    assert(last_field_in(ws, n - 1, key) == Some(field_value(ws, n - 2, key)));
    assert(last_field_in(ws, n, key) == last_field_in(ws, n - 1, key));
}

proof fn lemma_marker_kept(a: Seq<char>, t: Seq<char>)
    requires
        contains_seq(a, marker()),
    ensures
        contains_seq(a + t, marker()),
{
    let i = choose|i: int| crate::text::occurs_at(a, marker(), i);
    assert((a + t).subrange(i, i + 8) =~= a.subrange(i, i + 8));
    assert(crate::text::occurs_at(a + t, marker(), i));
}

/// A report line that ends with a field glued to its value (as the embedded
/// binary prints a negative velocity, `vx=-1.000`) reads that value, sign
/// and all, for that field.
pub proof fn lemma_report_line_glued(a: Seq<char>, key: Seq<char>, v: Seq<char>)
    requires
        contains_seq(a, marker()),
        key == x_key() || key == y_key() || key == vx_key() || key == vy_key(),
        v.len() > 0,
        no_white_space(v),
    ensures
        line_fields(a + seq![' '] + key + v) matches Some(f) && {
            &&& key == x_key() ==> f.x == Some(v)
            &&& key == y_key() ==> f.y == Some(v)
            &&& key == vx_key() ==> f.vx == Some(v)
            &&& key == vy_key() ==> f.vy == Some(v)
        },
{
    let l = a + seq![' '] + key + v;
    assert(l =~= a + (seq![' '] + key + v));
    lemma_marker_kept(a, seq![' '] + key + v);
    assert(no_white_space(key + v)) by {
        assert forall|k: int| 0 <= k < (key + v).len() implies !is_white_space(
            #[trigger] (key + v)[k],
        ) by {
            if k >= key.len() {
                assert((key + v)[k] == v[k - key.len()]);
            }
        }
    }
    lemma_line_ending_glued(a, key, v);
}

} // verus!
