//! Plain text handling: lines, words, trimming, joining, decimal numbers.
//!
//! Every function is stated over the sequence of characters of a string.

use vstd::prelude::*;

verus! {

/// The characters with the Unicode property `White_Space`.
pub open spec fn is_white_space(c: char) -> bool {
    ||| '\u{9}' <= c <= '\u{d}'
    ||| c == '\u{20}'
    ||| c == '\u{85}'
    ||| c == '\u{a0}'
    ||| c == '\u{1680}'
    ||| '\u{2000}' <= c <= '\u{200a}'
    ||| c == '\u{2028}'
    ||| c == '\u{2029}'
    ||| c == '\u{202f}'
    ||| c == '\u{205f}'
    ||| c == '\u{3000}'
}

/// Tells whether `c` has the Unicode property `White_Space`.
pub fn white_space(c: char) -> (r: bool)
    ensures
        r == is_white_space(c),
{
    ('\u{9}' <= c && c <= '\u{d}') || c == '\u{20}' || c == '\u{85}' || c == '\u{a0}' || c
        == '\u{1680}' || ('\u{2000}' <= c && c <= '\u{200a}') || c == '\u{2028}' || c == '\u{2029}'
        || c == '\u{202f}' || c == '\u{205f}' || c == '\u{3000}'
}

/// The characters of `s`, one by one.
pub fn chars_of(s: &str) -> (r: Vec<char>)
    ensures
        r@ == s@,
{
    let mut r: Vec<char> = Vec::new();
    for c in it: s.chars()
        invariant
            it.seq() == s@,
            r@ == s@.take(it.index()),
    {
        r.push(c);
    }
    r
}

/// Tells whether two texts hold the same characters.
pub fn same(a: &str, b: &str) -> (r: bool)
    ensures
        r == (a@ == b@),
{
    a.to_owned() == b.to_owned()
}

/// Length of the longest prefix of `s` whose characters all satisfy `p`.
pub open spec fn run(s: Seq<char>, p: spec_fn(char) -> bool) -> nat
    decreases s.len(),
{
    if s.len() > 0 && p(s[0]) {
        1 + run(s.drop_first(), p)
    } else {
        0
    }
}

/// What makes a length the one of the longest such prefix.
pub open spec fn is_run(s: Seq<char>, p: spec_fn(char) -> bool, n: int) -> bool {
    &&& 0 <= n <= s.len()
    &&& forall|i: int| 0 <= i < n ==> p(#[trigger] s[i])
    &&& n < s.len() ==> !p(s[n])
}

/// `run` is the one length that satisfies `is_run`.
pub proof fn lemma_run(s: Seq<char>, p: spec_fn(char) -> bool, n: int)
    ensures
        is_run(s, p, n) <==> run(s, p) == n,
    decreases s.len(),
{
    if s.len() > 0 && p(s[0]) {
        let t = s.drop_first();
        lemma_run(t, p, n - 1);
        lemma_run(t, p, -1);
        if is_run(s, p, n) {
            assert forall|i: int| 0 <= i < n - 1 implies p(#[trigger] t[i]) by {
                assert(t[i] == s[i + 1]);
            }
            if n < s.len() {
                assert(t[n - 1] == s[n]);
            }
            assert(n != 0);
        }
        if run(s, p) == n {
            assert forall|i: int| 0 <= i < n implies p(#[trigger] s[i]) by {
                if i > 0 {
                    assert(s[i] == t[i - 1]);
                }
            }
            if n < s.len() {
                assert(t[n - 1] == s[n]);
            }
        }
    } else {
        if is_run(s, p, n) && n > 0 {
            assert(p(s[0]));
        }
    }
}

/// A character that does not end a line.
pub open spec fn in_line() -> spec_fn(char) -> bool {
    |c: char| c != '\n'
}

/// A line without the carriage return that belongs to its line ending.
pub open spec fn without_cr(line: Seq<char>) -> Seq<char> {
    if line.len() > 0 && line.last() == '\r' {
        line.drop_last()
    } else {
        line
    }
}

/// The lines of a text. A line ends in `\n` or `\r\n`, which are not part of it; the
/// last line may lack its ending, and then keeps a trailing `\r`.
pub open spec fn lines(s: Seq<char>) -> Seq<Seq<char>>
    decreases s.len(),
{
    let n = run(s, in_line()) as int;
    if s.len() == 0 {
        seq![]
    } else if n >= s.len() {
        seq![s]
    } else {
        seq![without_cr(s.take(n))] + lines(s.skip(n + 1))
    }
}

/// A character of a word.
pub open spec fn in_word() -> spec_fn(char) -> bool {
    |c: char| !is_white_space(c)
}

/// A character between words.
pub open spec fn in_gap() -> spec_fn(char) -> bool {
    |c: char| is_white_space(c)
}

/// The words of a text: its maximal runs of characters other than white space.
pub open spec fn words(s: Seq<char>) -> Seq<Seq<char>>
    decreases s.len(),
{
    let gap = run(s, in_gap()) as int;
    if gap >= s.len() {
        seq![]
    } else {
        let t = s.skip(gap);
        let n = run(t, in_word()) as int;
        proof {
            lemma_run(s, in_gap(), gap);
            lemma_run(t, in_word(), n);
        }
        seq![t.take(n)] + words(t.skip(n))
    }
}

/// Position behind the last character of `s` that is no white space.
pub open spec fn trimmed_len(s: Seq<char>) -> nat
    decreases s.len(),
{
    if s.len() > 0 && is_white_space(s.last()) {
        trimmed_len(s.drop_last())
    } else {
        s.len()
    }
}

/// A text without the white space at its two ends.
pub open spec fn trim(s: Seq<char>) -> Seq<char> {
    let t = s.take(trimmed_len(s) as int);
    t.skip(run(t, in_gap()) as int)
}

/// The parts in order, with `sep` between two neighbours.
pub open spec fn join(parts: Seq<Seq<char>>, sep: Seq<char>) -> Seq<char>
    decreases parts.len(),
{
    if parts.len() == 0 {
        seq![]
    } else if parts.len() == 1 {
        parts[0]
    } else {
        join(parts.drop_last(), sep) + sep + parts.last()
    }
}

/// The digit for a number below ten.
pub open spec fn digit(d: int) -> char {
    if d == 0 {
        '0'
    } else if d == 1 {
        '1'
    } else if d == 2 {
        '2'
    } else if d == 3 {
        '3'
    } else if d == 4 {
        '4'
    } else if d == 5 {
        '5'
    } else if d == 6 {
        '6'
    } else if d == 7 {
        '7'
    } else if d == 8 {
        '8'
    } else {
        '9'
    }
}

/// The decimal notation of a number, without leading zeros.
pub open spec fn decimal(n: nat) -> Seq<char>
    decreases n,
{
    if n < 10 {
        seq![digit(n as int)]
    } else {
        decimal(n / 10).push(digit((n % 10) as int))
    }
}

/// Length of the leading run of white space (`gap`) or of other characters of the part
/// of `cs` from `from` on.
fn run_from(cs: &Vec<char>, from: usize, gap: bool) -> (n: usize)
    requires
        from <= cs.len(),
    ensures
        n == run(cs@.skip(from as int), if gap { in_gap() } else { in_word() }),
        from + n <= cs.len(),
{
    let ghost p = if gap { in_gap() } else { in_word() };
    let mut n: usize = 0;
    while from + n < cs.len() && white_space(cs[from + n]) == gap
        invariant
            from + n <= cs.len(),
            p == if gap { in_gap() } else { in_word() },
            forall|i: int| 0 <= i < n ==> p(#[trigger] cs@.skip(from as int)[i]),
        decreases cs.len() - n,
    {
        n = n + 1;
    }
    proof {
        lemma_run(cs@.skip(from as int), p, n as int);
    }
    n
}

/// Splits a text into its lines.
pub fn split_lines(s: &str) -> (r: Vec<String>)
    ensures
        r.deep_view() == lines(s@),
{
    let cs = chars_of(s);
    let mut r: Vec<String> = Vec::new();
    let mut start: usize = 0;
    proof {
        assert(s@.skip(0) == s@);
    }
    while start < cs.len()
        invariant
            cs@ == s@,
            start <= cs.len(),
            lines(s@) == r.deep_view() + lines(s@.skip(start as int)),
        decreases cs.len() - start,
    {
        let ghost rest = s@.skip(start as int);
        let ghost before = r.deep_view();
        let mut end: usize = start;
        while end < cs.len() && cs[end] != '\n'
            invariant
                cs@ == s@,
                rest == s@.skip(start as int),
                start <= end <= cs.len(),
                forall|i: int| 0 <= i < end - start ==> in_line()(#[trigger] rest[i]),
            decreases cs.len() - end,
        {
            end = end + 1;
        }
        proof {
            lemma_run(rest, in_line(), end - start);
        }
        if end == cs.len() {
            r.push(s.substring_char(start, end).to_owned());
            assert(rest =~= s@.subrange(start as int, end as int));
            start = end;
        } else {
            let mut cut: usize = end;
            if start < end && cs[end - 1] == '\r' {
                cut = end - 1;
            }
            r.push(s.substring_char(start, cut).to_owned());
            assert(s@.subrange(start as int, cut as int) =~= without_cr(rest.take(end - start)));
            assert(rest.skip(end - start + 1) =~= s@.skip(end + 1));
            start = end + 1;
        }
        assert(r.deep_view() =~= before.push(r.deep_view().last()));
    }
    assert(s@.skip(start as int).len() == 0);
    r
}

/// Splits a text into its words.
pub fn split_words(s: &str) -> (r: Vec<String>)
    ensures
        r.deep_view() == words(s@),
{
    let cs = chars_of(s);
    let mut r: Vec<String> = Vec::new();
    let mut start: usize = 0;
    proof {
        assert(s@.skip(0) == s@);
    }
    loop
        invariant
            cs@ == s@,
            start <= cs.len(),
            words(s@) == r.deep_view() + words(s@.skip(start as int)),
        ensures
            r.deep_view() == words(s@),
        decreases cs.len() - start,
    {
        let ghost rest = s@.skip(start as int);
        let ghost before = r.deep_view();
        let gap = run_from(&cs, start, true);
        if start + gap == cs.len() {
            break;
        }
        let from: usize = start + gap;
        let n = run_from(&cs, from, false);
        proof {
            assert(rest.skip(gap as int) =~= s@.skip(from as int));
            lemma_run(rest, in_gap(), gap as int);
            lemma_run(s@.skip(from as int), in_word(), n as int);
            assert(s@.skip(from as int).skip(n as int) =~= s@.skip(from + n));
            assert(s@.skip(from as int).take(n as int) =~= s@.subrange(from as int, from + n));
        }
        r.push(s.substring_char(from, from + n).to_owned());
        assert(r.deep_view() =~= before.push(r.deep_view().last()));
        start = from + n;
    }
    r
}

/// Removes the white space at the two ends of a text.
pub fn trimmed(s: &str) -> (r: String)
    ensures
        r@ == trim(s@),
{
    let cs = chars_of(s);
    let mut end: usize = cs.len();
    proof {
        assert(s@.take(end as int) =~= s@);
    }
    while end > 0 && white_space(cs[end - 1])
        invariant
            cs@ == s@,
            end <= cs.len(),
            trimmed_len(s@) == trimmed_len(s@.take(end as int)),
        decreases end,
    {
        proof {
            assert(s@.take(end as int).drop_last() =~= s@.take(end - 1));
        }
        end = end - 1;
    }
    let ghost t = s@.take(end as int);
    let mut start: usize = 0;
    while start < end && white_space(cs[start])
        invariant
            cs@ == s@,
            t == s@.take(end as int),
            start <= end <= cs.len(),
            forall|i: int| 0 <= i < start ==> in_gap()(#[trigger] t[i]),
        decreases end - start,
    {
        start = start + 1;
    }
    proof {
        lemma_run(t, in_gap(), start as int);
        assert(s@.subrange(start as int, end as int) =~= t.skip(start as int));
    }
    s.substring_char(start, end).to_owned()
}

/// Joins the parts from index `from` on, with `sep` between two neighbours.
pub fn joined(parts: &Vec<String>, from: usize, sep: &str) -> (r: String)
    requires
        from <= parts.len(),
    ensures
        r@ == join(parts.deep_view().skip(from as int), sep@),
{
    let ghost all = parts.deep_view().skip(from as int);
    let mut r = String::new();
    let mut i: usize = from;
    while i < parts.len()
        invariant
            all == parts.deep_view().skip(from as int),
            from <= i <= parts.len(),
            r@ == join(all.take(i - from), sep@),
        decreases parts.len() - i,
    {
        proof {
            assert(all.take(i - from + 1).drop_last() =~= all.take(i - from));
            assert(all[i - from] == parts[i as int]@);
        }
        if i > from {
            r.append(sep);
        }
        r.append(parts[i].as_str());
        i = i + 1;
    }
    proof {
        assert(all.take(i - from) =~= all);
    }
    r
}

/// The text of one digit.
fn digit_text(d: u64) -> (r: &'static str)
    requires
        d < 10,
    ensures
        r@ == seq![digit(d as int)],
{
    proof {
        reveal_strlit("0");
        reveal_strlit("1");
        reveal_strlit("2");
        reveal_strlit("3");
        reveal_strlit("4");
        reveal_strlit("5");
        reveal_strlit("6");
        reveal_strlit("7");
        reveal_strlit("8");
        reveal_strlit("9");
    }
    match d {
        0 => "0",
        1 => "1",
        2 => "2",
        3 => "3",
        4 => "4",
        5 => "5",
        6 => "6",
        7 => "7",
        8 => "8",
        _ => "9",
    }
}

/// Writes a number in decimal notation.
pub fn decimal_text(n: u64) -> (r: String)
    ensures
        r@ == decimal(n as nat),
    decreases n,
{
    if n < 10 {
        digit_text(n).to_owned()
    } else {
        let mut r = decimal_text(n / 10);
        r.append(digit_text(n % 10));
        assert(r@ =~= decimal(n as nat));
        r
    }
}

/// A text that holds white space only.
pub open spec fn is_gap(s: Seq<char>) -> bool {
    forall|i: int| 0 <= i < s.len() ==> is_white_space(#[trigger] s[i])
}

/// A nonempty text without white space.
pub open spec fn is_word(s: Seq<char>) -> bool {
    s.len() > 0 && forall|i: int| 0 <= i < s.len() ==> !is_white_space(#[trigger] s[i])
}

/// Words with gaps before, between and behind them.
pub open spec fn spaced(gaps: Seq<Seq<char>>, ws: Seq<Seq<char>>) -> Seq<char>
    decreases ws.len(),
{
    if ws.len() == 0 {
        gaps[0]
    } else {
        gaps[0] + ws[0] + spaced(gaps.drop_first(), ws.drop_first())
    }
}

/// Gaps that fit `n` words: white space only, and not empty between two words.
pub open spec fn are_gaps(gaps: Seq<Seq<char>>, n: nat) -> bool {
    &&& gaps.len() == n + 1
    &&& forall|i: int| 0 <= i < gaps.len() ==> is_gap(#[trigger] gaps[i])
    &&& forall|i: int| 0 < i < n ==> (#[trigger] gaps[i]).len() > 0
}

/// A text of white space has no words.
pub proof fn lemma_words_of_gap(s: Seq<char>)
    requires
        is_gap(s),
    ensures
        words(s) == Seq::<Seq<char>>::empty(),
{
    lemma_run(s, in_gap(), s.len() as int);
}

/// A word behind a gap comes first.
pub proof fn lemma_words_cons(gap: Seq<char>, w: Seq<char>, rest: Seq<char>)
    requires
        is_gap(gap),
        is_word(w),
        rest.len() > 0 ==> is_white_space(rest[0]),
    ensures
        words(gap + w + rest) == seq![w] + words(rest),
{
    let s = gap + w + rest;
    lemma_run(s, in_gap(), gap.len() as int);
    assert(s[gap.len() as int] == w[0]);
    assert forall|i: int| 0 <= i < gap.len() implies in_gap()(#[trigger] s[i]) by {
        assert(s[i] == gap[i]);
    }
    let t = s.skip(gap.len() as int);
    assert(t =~= w + rest);
    assert forall|i: int| 0 <= i < w.len() implies in_word()(#[trigger] t[i]) by {
        assert(t[i] == w[i]);
    }
    if rest.len() > 0 {
        assert(t[w.len() as int] == rest[0]);
    }
    lemma_run(t, in_word(), w.len() as int);
    assert(t.take(w.len() as int) =~= w);
    assert(t.skip(w.len() as int) =~= rest);
}

/// However wide the gaps are, the words are the same.
pub proof fn law_words_ignore_spacing(gaps: Seq<Seq<char>>, ws: Seq<Seq<char>>)
    requires
        are_gaps(gaps, ws.len()),
        forall|i: int| 0 <= i < ws.len() ==> is_word(#[trigger] ws[i]),
    ensures
        words(spaced(gaps, ws)) == ws,
    decreases ws.len(),
{
    if ws.len() == 0 {
        lemma_words_of_gap(gaps[0]);
        assert(ws =~= Seq::<Seq<char>>::empty());
    } else {
        let g = gaps.drop_first();
        let v = ws.drop_first();
        assert forall|i: int| 0 <= i < g.len() implies is_gap(#[trigger] g[i]) by {
            assert(g[i] == gaps[i + 1]);
        }
        assert forall|i: int| 0 <= i < v.len() implies is_word(#[trigger] v[i]) by {
            assert(v[i] == ws[i + 1]);
        }
        assert forall|i: int| 0 < i < v.len() implies (#[trigger] g[i]).len() > 0 by {
            assert(g[i] == gaps[i + 1]);
        }
        law_words_ignore_spacing(g, v);
        let rest = spaced(g, v);
        assert(g[0] == gaps[1]);
        assert(is_gap(gaps[0]) && is_gap(gaps[1]) && is_word(ws[0]));
        if rest.len() > 0 {
            if v.len() > 0 {
                assert(gaps[1].len() > 0);
                assert(rest[0] == g[0][0]);
            } else {
                assert(rest == g[0]);
            }
        }
        lemma_words_cons(gaps[0], ws[0], rest);
        assert(seq![ws[0]] + v =~= ws);
    }
}

/// The first part of joined parts stands in front.
pub proof fn lemma_join_front(parts: Seq<Seq<char>>, sep: Seq<char>)
    requires
        parts.len() > 1,
    ensures
        join(parts, sep) == parts[0] + sep + join(parts.drop_first(), sep),
    decreases parts.len(),
{
    let rest = parts.drop_first();
    if parts.len() == 2 {
        assert(join(parts.drop_last(), sep) == parts[0]);
        assert(join(rest, sep) == parts.last());
    } else {
        lemma_join_front(parts.drop_last(), sep);
        assert(parts.drop_last().drop_first() =~= rest.drop_last());
        assert(join(parts, sep) =~= parts[0] + sep + join(rest, sep));
    }
}

/// The words of joined words are those words.
pub proof fn law_words_of_joined(ws: Seq<Seq<char>>)
    requires
        forall|i: int| 0 <= i < ws.len() ==> is_word(#[trigger] ws[i]),
    ensures
        words(join(ws, seq![' '])) == ws,
    decreases ws.len(),
{
    let none: Seq<char> = seq![];
    if ws.len() == 0 {
        lemma_words_of_gap(none);
        assert(ws =~= Seq::<Seq<char>>::empty());
    } else if ws.len() == 1 {
        lemma_words_of_gap(none);
        lemma_words_cons(none, ws[0], none);
        assert(none + ws[0] + none =~= ws[0]);
        assert(seq![ws[0]] + Seq::<Seq<char>>::empty() =~= ws);
    } else {
        let v = ws.drop_first();
        assert forall|i: int| 0 <= i < v.len() implies is_word(#[trigger] v[i]) by {
            assert(v[i] == ws[i + 1]);
        }
        law_words_of_joined(v);
        lemma_join_front(ws, seq![' ']);
        let tail = join(v, seq![' ']);
        lemma_words_cons(none, ws[0], seq![' '] + tail);
        assert(none + ws[0] + (seq![' '] + tail) =~= ws[0] + seq![' '] + tail);
        lemma_words_leading(' ', tail);
        assert(seq![ws[0]] + v =~= ws);
    }
}

/// White space in front changes no word.
pub proof fn lemma_words_leading(c: char, s: Seq<char>)
    requires
        is_white_space(c),
    ensures
        words(seq![c] + s) == words(s),
{
    let t = seq![c] + s;
    assert(t.drop_first() =~= s);
    let n = run(s, in_gap()) as int;
    assert(t[0] == c);
    assert(run(t, in_gap()) == n + 1);
    lemma_run(s, in_gap(), n);
    assert(t.skip(n + 1) =~= s.skip(n));
}

/// White space at the end changes no word.
pub proof fn lemma_words_trailing(s: Seq<char>, c: char)
    requires
        is_white_space(c),
    ensures
        words(s.push(c)) == words(s),
    decreases s.len(),
{
    let t = s.push(c);
    let gap = run(s, in_gap()) as int;
    lemma_run(s, in_gap(), gap);
    if gap >= s.len() {
        assert forall|i: int| 0 <= i < t.len() implies is_white_space(#[trigger] t[i]) by {
            if i < s.len() {
                assert(in_gap()(s[i]));
            }
        }
        lemma_words_of_gap(t);
    } else {
        assert forall|i: int| 0 <= i < gap implies in_gap()(#[trigger] t[i]) by {
            assert(t[i] == s[i]);
        }
        lemma_run(t, in_gap(), gap);
        let u = s.skip(gap);
        let v = t.skip(gap);
        assert(v =~= u.push(c));
        let n = run(u, in_word()) as int;
        lemma_run(u, in_word(), n);
        assert(u[0] == s[gap]);
        assert forall|i: int| 0 <= i < n implies in_word()(#[trigger] v[i]) by {
            assert(v[i] == u[i]);
        }
        lemma_run(v, in_word(), n);
        assert(v.take(n) =~= u.take(n));
        assert(v.skip(n) =~= u.skip(n).push(c));
        lemma_words_trailing(u.skip(n), c);
    }
}

/// The carriage return of a line ending belongs to no word.
pub proof fn lemma_words_without_cr(line: Seq<char>)
    ensures
        words(without_cr(line)) == words(line),
{
    if line.len() > 0 && line.last() == '\r' {
        lemma_words_trailing(line.drop_last(), '\r');
        assert(line.drop_last().push('\r') =~= line);
    }
}

/// Lines, each followed by a newline.
pub open spec fn terminated(ls: Seq<Seq<char>>) -> Seq<char>
    decreases ls.len(),
{
    if ls.len() == 0 {
        seq![]
    } else {
        ls[0] + seq!['\n'] + terminated(ls.drop_first())
    }
}

/// The first line of a text stands in front.
pub proof fn lemma_lines_cons(line: Seq<char>, rest: Seq<char>)
    requires
        !line.contains('\n'),
    ensures
        lines(line + seq!['\n'] + rest) == seq![without_cr(line)] + lines(rest),
{
    let s = line + seq!['\n'] + rest;
    let n = line.len() as int;
    assert(s[n] == '\n');
    assert forall|i: int| 0 <= i < n implies in_line()(#[trigger] s[i]) by {
        assert(s[i] == line[i]);
        assert(line.contains(line[i]));
    }
    lemma_run(s, in_line(), n);
    assert(s.take(n) =~= line);
    assert(s.skip(n + 1) =~= rest);
}

/// The lines of terminated lines are those lines, but for a carriage return at the end of
/// a line, which counts as part of the line ending.
pub proof fn law_lines_of_terminated(ls: Seq<Seq<char>>)
    requires
        forall|i: int| 0 <= i < ls.len() ==> !(#[trigger] ls[i]).contains('\n'),
    ensures
        lines(terminated(ls)) == ls.map_values(|l: Seq<char>| without_cr(l)),
    decreases ls.len(),
{
    let f = |l: Seq<char>| without_cr(l);
    if ls.len() == 0 {
        assert(ls.map_values(f) =~= seq![]);
    } else {
        let rest = ls.drop_first();
        assert forall|i: int| 0 <= i < rest.len() implies !(#[trigger] rest[i]).contains('\n') by {
            assert(rest[i] == ls[i + 1]);
        }
        law_lines_of_terminated(rest);
        lemma_lines_cons(ls[0], terminated(rest));
        assert(seq![without_cr(ls[0])] + rest.map_values(f) =~= ls.map_values(f));
    }
}

/// A text that neither begins nor ends with white space.
pub open spec fn is_trimmed(s: Seq<char>) -> bool {
    s.len() > 0 ==> !is_white_space(s[0]) && !is_white_space(s.last())
}

/// Trimming leaves no white space at the ends, and is done once and for all.
pub proof fn law_trim_is_idempotent(s: Seq<char>)
    ensures
        is_trimmed(trim(s)),
        trim(trim(s)) == trim(s),
{
    lemma_trimmed_len(s);
    let t = s.take(trimmed_len(s) as int);
    let n = run(t, in_gap()) as int;
    lemma_run(t, in_gap(), n);
    if n < t.len() {
        assert(trim(s)[0] == t[n]);
        assert(trim(s).last() == t.last());
    }
    lemma_trim_trimmed(trim(s));
}

/// A trimmed text is left as it is.
pub proof fn lemma_trim_trimmed(s: Seq<char>)
    requires
        is_trimmed(s),
    ensures
        trim(s) == s,
{
    assert(s.take(s.len() as int) =~= s);
    lemma_run(s, in_gap(), 0);
    assert(s.skip(0) =~= s);
}

proof fn lemma_trimmed_len(s: Seq<char>)
    ensures
        trimmed_len(s) <= s.len(),
        trimmed_len(s) > 0 ==> !is_white_space(s[trimmed_len(s) - 1]),
    decreases s.len(),
{
    if s.len() > 0 && is_white_space(s.last()) {
        lemma_trimmed_len(s.drop_last());
    }
}

/// The number that a text of decimal digits writes.
pub open spec fn number(s: Seq<char>) -> int
    decreases s.len(),
{
    if s.len() == 0 {
        0
    } else {
        number(s.drop_last()) * 10 + (s.last() as int - '0' as int)
    }
}

/// The decimal notation of a number consists of digits and writes that number.
pub proof fn law_decimal_reads_back(n: nat)
    ensures
        number(decimal(n)) == n,
        decimal(n).len() > 0,
        forall|i: int| 0 <= i < decimal(n).len() ==> '0' <= #[trigger] decimal(n)[i] <= '9',
    decreases n,
{
    if n < 10 {
        assert(seq![digit(n as int)].drop_last() =~= Seq::<char>::empty());
        assert(number(seq![]) == 0);
    } else {
        law_decimal_reads_back(n / 10);
        assert(decimal(n).drop_last() =~= decimal(n / 10));
    }
}

/// What the line endings do: `\r\n` and `\n` each end a line and belong to none, and a last
/// line without an ending is kept whole.
pub proof fn law_lines_follow_line_endings(line: Seq<char>, rest: Seq<char>)
    requires
        !line.contains('\n'),
    ensures
        lines(line + seq!['\r', '\n'] + rest) == seq![line] + lines(rest),
        line.len() == 0 || line.last() != '\r' ==> lines(line + seq!['\n'] + rest) == seq![line]
            + lines(rest),
        line.len() > 0 ==> lines(line) == seq![line],
        lines(seq![]) == Seq::<Seq<char>>::empty(),
{
    let with_cr = line.push('\r');
    assert forall|i: int| 0 <= i < with_cr.len() implies with_cr[i] != '\n' by {
        if i < line.len() {
            assert(line.contains(line[i]));
        }
    }
    lemma_lines_cons(with_cr, rest);
    assert(with_cr + seq!['\n'] + rest =~= line + seq!['\r', '\n'] + rest);
    assert(with_cr.drop_last() =~= line);
    lemma_lines_cons(line, rest);
    assert forall|i: int| 0 <= i < line.len() implies in_line()(#[trigger] line[i]) by {
        assert(line.contains(line[i]));
    }
    lemma_run(line, in_line(), line.len() as int);
}

/// The lines of terminated lines with an unterminated text behind them are those lines and
/// that whole text.
pub proof fn law_lines_keep_an_unterminated_end(ls: Seq<Seq<char>>, last: Seq<char>)
    requires
        forall|i: int|
            0 <= i < ls.len() ==> !(#[trigger] ls[i]).contains('\n') && (ls[i].len() == 0
                || ls[i].last() != '\r'),
        !last.contains('\n'),
    ensures
        lines(terminated(ls) + last) == if last.len() > 0 {
            ls.push(last)
        } else {
            ls
        },
    decreases ls.len(),
{
    let all = if last.len() > 0 {
        ls.push(last)
    } else {
        ls
    };
    if ls.len() == 0 {
        law_lines_follow_line_endings(last, seq![]);
        assert(terminated(ls) + last =~= last);
        assert(seq![last] =~= ls.push(last));
        assert(ls =~= seq![]);
        if last.len() == 0 {
            assert(last =~= seq![]);
        }
    } else {
        let rest = ls.drop_first();
        assert forall|i: int| 0 <= i < rest.len() implies !(#[trigger] rest[i]).contains('\n') && (
        rest[i].len() == 0 || rest[i].last() != '\r') by {
            assert(rest[i] == ls[i + 1]);
        }
        law_lines_keep_an_unterminated_end(rest, last);
        assert(!ls[0].contains('\n'));
        law_lines_follow_line_endings(ls[0], terminated(rest) + last);
        assert(terminated(ls) + last =~= ls[0] + seq!['\n'] + (terminated(rest) + last));
        assert(seq![ls[0]] + rest.push(last) =~= ls.push(last));
        assert(seq![ls[0]] + rest =~= ls);
    }
}

/// The ending of the last line is optional.
pub proof fn law_final_line_ending_is_optional(s: Seq<char>)
    requires
        s.len() > 0,
        s.last() != '\n',
        s.last() != '\r',
    ensures
        lines(s.push('\n')) == lines(s),
        lines(s + seq!['\r', '\n']) == lines(s),
    decreases s.len(),
{
    let n = run(s, in_line()) as int;
    lemma_run(s, in_line(), n);
    let line = s.take(n);
    assert(!line.contains('\n')) by {
        assert forall|i: int| 0 <= i < n implies line[i] != '\n' by {
            assert(in_line()(s[i]));
        }
    }
    let none: Seq<char> = seq![];
    if n >= s.len() {
        assert(line =~= s);
        law_lines_follow_line_endings(s, none);
        assert(s + seq!['\n'] + none =~= s.push('\n'));
        assert(s + seq!['\r', '\n'] + none =~= s + seq!['\r', '\n']);
        assert(seq![s] + Seq::<Seq<char>>::empty() =~= seq![s]);
    } else {
        let rest = s.skip(n + 1);
        assert(s[n] == '\n');
        assert(rest.len() > 0);
        assert(rest.last() == s.last());
        law_final_line_ending_is_optional(rest);
        lemma_lines_cons(line, rest);
        lemma_lines_cons(line, rest.push('\n'));
        lemma_lines_cons(line, rest + seq!['\r', '\n']);
        assert(line + seq!['\n'] + rest =~= s);
        assert(line + seq!['\n'] + rest.push('\n') =~= s.push('\n'));
        assert(line + seq!['\n'] + (rest + seq!['\r', '\n']) =~= s + seq!['\r', '\n']);
    }
}

/// Trimming removes exactly the white space around a trimmed text.
pub proof fn law_trim_removes_padding(a: Seq<char>, s: Seq<char>, b: Seq<char>)
    requires
        is_gap(a),
        is_gap(b),
        is_trimmed(s),
        s.len() == 0 ==> b.len() == 0,
    ensures
        trim(a + s + b) == s,
{
    let all = a + s + b;
    lemma_trimmed_len_behind(a + s, b);
    if s.len() > 0 {
        assert((a + s).last() == s.last());
        assert(trimmed_len(a + s) == (a + s).len());
        let t = all.take(trimmed_len(all) as int);
        assert(t =~= a + s);
        assert forall|i: int| 0 <= i < a.len() implies in_gap()(#[trigger] t[i]) by {
            assert(t[i] == a[i]);
        }
        assert(t[a.len() as int] == s[0]);
        lemma_run(t, in_gap(), a.len() as int);
        assert(t.skip(a.len() as int) =~= s);
    } else {
        assert(all =~= a);
        lemma_trimmed_len_behind(seq![], a);
        let none: Seq<char> = seq![];
        assert(none + a =~= a);
        assert(trimmed_len(none) == 0);
        let t = all.take(trimmed_len(all) as int);
        assert(t =~= none);
        lemma_run(t, in_gap(), 0);
        assert(trim(all) =~= s);
    }
}

/// White space at the end does not count.
proof fn lemma_trimmed_len_behind(s: Seq<char>, gap: Seq<char>)
    requires
        is_gap(gap),
    ensures
        trimmed_len(s + gap) == trimmed_len(s),
    decreases gap.len(),
{
    if gap.len() == 0 {
        assert(s + gap =~= s);
    } else {
        assert((s + gap).last() == gap[gap.len() - 1]);
        assert((s + gap).drop_last() =~= s + gap.drop_last());
        lemma_trimmed_len_behind(s, gap.drop_last());
    }
}

/// Joining keeps the parts whole and in order, with one separator between any two
/// neighbours and nothing else.
pub proof fn law_join_puts_one_separator_between(
    a: Seq<Seq<char>>,
    b: Seq<Seq<char>>,
    part: Seq<char>,
    sep: Seq<char>,
)
    ensures
        join(seq![], sep) == Seq::<char>::empty(),
        join(seq![part], sep) == part,
        a.len() > 0 && b.len() > 0 ==> join(a + b, sep) == join(a, sep) + sep + join(b, sep),
    decreases b.len(),
{
    if a.len() > 0 && b.len() > 0 {
        assert((a + b).drop_last() =~= a + b.drop_last());
        assert((a + b).last() == b.last());
        if b.len() == 1 {
            assert(a + b.drop_last() =~= a);
        } else {
            law_join_puts_one_separator_between(a, b.drop_last(), part, sep);
            assert(join(a + b, sep) =~= join(a, sep) + sep + join(b, sep));
        }
    }
}

/// The decimal notation of a number has no leading zero.
pub proof fn law_decimal_has_no_leading_zero(n: nat)
    ensures
        decimal(0) == seq!['0'],
        n > 0 ==> decimal(n).len() > 0 && decimal(n)[0] != '0',
    decreases n,
{
    if n >= 10 {
        law_decimal_has_no_leading_zero(n / 10);
        assert(decimal(n)[0] == decimal(n / 10)[0]);
    }
}

/// Lines joined by newlines, with an ending behind the last one or without.
pub proof fn lemma_joined_lines(ls: Seq<Seq<char>>, last: Seq<char>)
    ensures
        join(ls.push(last), seq!['\n']) == terminated(ls) + last,
        join(ls.push(last), seq!['\n']).push('\n') == terminated(ls.push(last)),
    decreases ls.len(),
{
    let sep = seq!['\n'];
    let all = ls.push(last);
    let none: Seq<Seq<char>> = seq![];
    if ls.len() == 0 {
        law_join_puts_one_separator_between(none, none, last, sep);
        assert(all =~= seq![last]);
        assert(terminated(ls) + last =~= last);
        assert(all.drop_first() =~= none);
        assert(terminated(none) =~= seq![]);
        assert(terminated(all) =~= last.push('\n'));
    } else {
        let rest = ls.drop_first();
        lemma_joined_lines(rest, last);
        law_join_puts_one_separator_between(seq![ls[0]], rest.push(last), ls[0], sep);
        assert(all =~= seq![ls[0]] + rest.push(last));
        assert(all.drop_first() =~= rest.push(last));
        assert(join(all, sep) =~= terminated(ls) + last);
        assert(join(all, sep).push('\n') =~= terminated(all));
    }
}

/// Splitting gives back lines that were joined by newlines, each of them whole, whether or
/// not the last one has an ending. An empty last line takes one to be seen.
pub proof fn law_split_lines_of_joined(s: &str, all: Seq<Seq<char>>, r: Vec<String>)
    requires
        call_ensures(split_lines, (s,), r),
        all.len() > 0,
        forall|i: int|
            0 <= i < all.len() ==> !(#[trigger] all[i]).contains('\n') && (all[i].len() == 0
                || all[i].last() != '\r'),
        ({
            ||| s@ == join(all, seq!['\n']) && all.last().len() > 0
            ||| s@ == join(all, seq!['\n']).push('\n')
        }),
    ensures
        r.deep_view() == all,
{
    let ls = all.drop_last();
    let last = all.last();
    let none: Seq<char> = seq![];
    assert(ls.push(last) =~= all);
    lemma_joined_lines(ls, last);
    assert(!all[all.len() - 1].contains('\n'));
    assert forall|i: int| 0 <= i < ls.len() implies !(#[trigger] ls[i]).contains('\n') && (
    ls[i].len() == 0 || ls[i].last() != '\r') by {
        assert(ls[i] == all[i]);
    }
    law_lines_keep_an_unterminated_end(ls, last);
    law_lines_keep_an_unterminated_end(all, none);
    assert(terminated(all) + none =~= terminated(all));
}

/// Splitting at white space gives back the words, however they are spaced.
pub proof fn law_split_words_of_spaced(
    s: &str,
    gaps: Seq<Seq<char>>,
    ws: Seq<Seq<char>>,
    r: Vec<String>,
)
    requires
        call_ensures(split_words, (s,), r),
        s@ == spaced(gaps, ws),
        are_gaps(gaps, ws.len()),
        forall|i: int| 0 <= i < ws.len() ==> is_word(#[trigger] ws[i]),
    ensures
        r.deep_view() == ws,
{
    law_words_ignore_spacing(gaps, ws);
}

/// Trimming gives back what stands between the white space at the ends.
pub proof fn law_trimmed_of_padded(s: &str, a: Seq<char>, t: Seq<char>, b: Seq<char>, r: String)
    requires
        call_ensures(trimmed, (s,), r),
        s@ == a + t + b,
        is_gap(a),
        is_gap(b),
        is_trimmed(t),
    ensures
        r@ == t,
{
    if t.len() == 0 {
        let none: Seq<char> = seq![];
        assert(s@ =~= s@ + t + none);
        law_trim_removes_padding(s@, t, none);
    } else {
        law_trim_removes_padding(a, t, b);
    }
}

/// Different numbers have different decimal notations, and each can be read back.
pub proof fn law_decimal_text_reads_back(n: u64, r: String)
    requires
        call_ensures(decimal_text, (n,), r),
    ensures
        number(r@) == n,
        r@.len() > 0,
        forall|i: int| 0 <= i < r@.len() ==> '0' <= #[trigger] r@[i] <= '9',
        r@[0] == '0' ==> r@.len() == 1,
{
    law_decimal_reads_back(n as nat);
    law_decimal_has_no_leading_zero(n as nat);
    assert(decimal(0).len() == 1);
}

} // verus!
