//! Quoting for a POSIX shell, and what the shell reads back from quoted text.

use crate::text;
use vstd::prelude::*;

verus! {

/// What stands for one character between single quotes: a single quote leaves the
/// quotes, is written with a backslash, and enters them again.
pub open spec fn quoted_char(c: char) -> Seq<char> {
    if c == '\'' {
        seq!['\'', '\\', '\'', '\'']
    } else {
        seq![c]
    }
}

/// A text with each of its single quotes replaced for use between single quotes.
pub open spec fn quoted(s: Seq<char>) -> Seq<char>
    decreases s.len(),
{
    if s.len() == 0 {
        seq![]
    } else {
        quoted(s.drop_last()) + quoted_char(s.last())
    }
}

/// A text as one single-quoted shell word.
pub open spec fn escaped(s: Seq<char>) -> Seq<char> {
    seq!['\''] + quoted(s) + seq!['\'']
}

/// Quoting goes part by part.
pub proof fn lemma_quoted_concat(a: Seq<char>, b: Seq<char>)
    ensures
        quoted(a + b) == quoted(a) + quoted(b),
    decreases b.len(),
{
    if b.len() == 0 {
        assert(a + b =~= a);
    } else {
        lemma_quoted_concat(a, b.drop_last());
        assert((a + b).drop_last() =~= a + b.drop_last());
    }
}

/// A text without single quotes is left as it is.
pub proof fn lemma_quoted_plain(s: Seq<char>)
    requires
        !s.contains('\''),
    ensures
        quoted(s) == s,
    decreases s.len(),
{
    if s.len() > 0 {
        let t = s.drop_last();
        assert(s.contains(s.last()));
        assert forall|c: char| t.contains(c) implies s.contains(c) by {
            let i = choose|i: int| 0 <= i < t.len() && t[i] == c;
            assert(s[i] == c);
        }
        lemma_quoted_plain(t);
    }
}

/// Quotes a text as one shell word.
pub fn shell_escape(s: &str) -> (r: String)
    ensures
        r@ == escaped(s@),
{
    let cs = text::chars_of(s);
    let mut r = "'".to_owned();
    let mut start: usize = 0;
    let mut i: usize = 0;
    proof {
        reveal_strlit("'");
        reveal_strlit("'\\''");
        assert(s@.take(0) =~= seq![]);
        assert(r@ =~= seq!['\''] + quoted(s@.take(0)));
    }
    while i < cs.len()
        invariant
            cs@ == s@,
            start <= i <= cs.len(),
            !s@.subrange(start as int, i as int).contains('\''),
            r@ == seq!['\''] + quoted(s@.take(start as int)),
            "'\\''"@ =~= quoted_char('\''),
        decreases cs.len() - i,
    {
        let ghost plain = s@.subrange(start as int, i as int);
        if cs[i] == '\'' {
            r.append(s.substring_char(start, i));
            r.append("'\\''");
            proof {
                let upto = s@.take(i as int);
                lemma_quoted_plain(plain);
                lemma_quoted_concat(s@.take(start as int), plain);
                assert(s@.take(start as int) + plain =~= upto);
                assert(s@.take(i + 1).drop_last() =~= upto);
                assert(r@ =~= seq!['\''] + quoted(s@.take(i + 1)));
                assert(s@.subrange(i + 1, i + 1) =~= seq![]);
            }
            start = i + 1;
        } else {
            assert(s@.subrange(start as int, i + 1) =~= plain.push(s@[i as int]));
        }
        i = i + 1;
    }
    r.append(s.substring_char(start, i));
    r.append("'");
    proof {
        let plain = s@.subrange(start as int, i as int);
        lemma_quoted_plain(plain);
        lemma_quoted_concat(s@.take(start as int), plain);
        assert(s@.take(start as int) + plain =~= s@);
        assert(r@ =~= escaped(s@));
    }
    r
}

/// Where the shell stands between two characters: outside quotes, between single
/// quotes, or behind a backslash outside quotes.
pub enum Mode {
    Plain,
    Quoted,
    Escaped,
}

/// What the shell has read so far: the finished words, and the word it is in, if any.
#[verifier::ext_equal]
pub struct Reading {
    pub words: Seq<Seq<char>>,
    pub current: Option<Seq<char>>,
    pub mode: Mode,
}

impl Reading {
    /// Before the first character.
    pub open spec fn start() -> Reading {
        Reading { words: seq![], current: None, mode: Mode::Plain }
    }

    /// The text of the word that is being read.
    pub open spec fn text(self) -> Seq<char> {
        match self.current {
            Some(t) => t,
            None => seq![],
        }
    }

    /// The same reading with `more` added to the current word, in mode `mode`.
    pub open spec fn extended(self, more: Seq<char>, mode: Mode) -> Reading {
        Reading { words: self.words, current: Some(self.text() + more), mode }
    }

    /// The words, with the current one finished.
    pub open spec fn all_words(self) -> Seq<Seq<char>> {
        match self.current {
            Some(t) => self.words.push(t),
            None => self.words,
        }
    }

    /// One character further. Single quotes keep every character as it is, a backslash
    /// outside quotes keeps the next one, and blanks outside quotes end a word.
    pub open spec fn step(self, c: char) -> Reading {
        match self.mode {
            Mode::Quoted => if c == '\'' {
                self.extended(seq![], Mode::Plain)
            } else {
                self.extended(seq![c], Mode::Quoted)
            },
            Mode::Escaped => self.extended(seq![c], Mode::Plain),
            Mode::Plain => if c == '\'' {
                self.extended(seq![], Mode::Quoted)
            } else if c == '\\' {
                self.extended(seq![], Mode::Escaped)
            } else if is_blank(c) {
                Reading { words: self.all_words(), current: None, mode: Mode::Plain }
            } else {
                self.extended(seq![c], Mode::Plain)
            },
        }
    }

    /// The whole of `input` further.
    pub open spec fn read(self, input: Seq<char>) -> Reading
        decreases input.len(),
    {
        if input.len() == 0 {
            self
        } else {
            self.read(input.drop_last()).step(input.last())
        }
    }
}

/// A character that separates shell words.
pub open spec fn is_blank(c: char) -> bool {
    c == ' ' || c == '\t' || c == '\n'
}

/// The words that a shell reads from a text that quotes with single quotes and
/// backslashes only. Operators such as `;` and `>` stay part of the word they stand in.
pub open spec fn shell_words(input: Seq<char>) -> Seq<Seq<char>> {
    Reading::start().read(input).all_words()
}

/// A text whose quotes are all closed at its end.
pub open spec fn is_closed(input: Seq<char>) -> bool {
    Reading::start().read(input).mode is Plain
}

/// A text that the shell takes as it stands: no quotes, backslashes or blanks.
pub open spec fn is_literal(w: Seq<char>) -> bool {
    forall|i: int|
        0 <= i < w.len() ==> {
            &&& #[trigger] w[i] != '\''
            &&& w[i] != '\\'
            &&& !is_blank(w[i])
        }
}

/// Reading two texts one after the other is reading them as one.
pub proof fn lemma_read_concat(r: Reading, a: Seq<char>, b: Seq<char>)
    ensures
        r.read(a + b) == r.read(a).read(b),
    decreases b.len(),
{
    if b.len() == 0 {
        assert(a + b =~= a);
    } else {
        lemma_read_concat(r, a, b.drop_last());
        assert((a + b).drop_last() =~= a + b.drop_last());
    }
}

/// Reading one character is one step.
proof fn lemma_read_push(r: Reading, a: Seq<char>, c: char)
    ensures
        r.read(a.push(c)) == r.read(a).step(c),
        r.read(seq![c]) == r.step(c),
{
    assert(a.push(c).drop_last() =~= a);
    let none: Seq<char> = seq![];
    assert(seq![c].drop_last() =~= none);
    assert(r.read(none) == r);
}

/// What was read before does not change what is read now.
proof fn lemma_read_from(r: Reading, input: Seq<char>)
    requires
        r.mode is Plain,
        r.current is None,
    ensures
        ({
            let fresh = Reading::start().read(input);
            r.read(input) == (Reading {
                words: r.words + fresh.words,
                current: fresh.current,
                mode: fresh.mode,
            })
        }),
    decreases input.len(),
{
    if input.len() == 0 {
        assert(r.words + Seq::<Seq<char>>::empty() =~= r.words);
    } else {
        lemma_read_from(r, input.drop_last());
        let fresh = Reading::start().read(input.drop_last());
        assert(r.words + fresh.all_words() =~= r.read(input.drop_last()).all_words());
    }
}

/// Between quotes, what stands for a character is read as that character.
proof fn lemma_read_quoted_char(r: Reading, c: char)
    requires
        r.mode is Quoted,
        r.current is Some,
    ensures
        r.read(quoted_char(c)) == r.extended(seq![c], Mode::Quoted),
{
    if c == '\'' {
        let one = seq!['\''];
        let two = one.push('\\');
        let three = two.push('\'');
        assert(three.push('\'') =~= quoted_char(c));
        lemma_read_push(r, seq![], '\'');
        lemma_read_push(r, one, '\\');
        lemma_read_push(r, two, '\'');
        lemma_read_push(r, three, '\'');
        let text = r.text();
        assert(text + Seq::<char>::empty() =~= text);
        assert((text + one) + Seq::<char>::empty() =~= text + one);
        assert(r.read(one) == r.extended(seq![], Mode::Plain));
        assert(r.read(two) == r.extended(seq![], Mode::Escaped));
        assert(r.read(three) == r.extended(one, Mode::Plain));
    } else {
        lemma_read_push(r, seq![], c);
    }
}

/// Between quotes, a quoted text is read as the text.
proof fn lemma_read_quoted(r: Reading, s: Seq<char>)
    requires
        r.mode is Quoted,
        r.current is Some,
    ensures
        r.read(quoted(s)) == r.extended(s, Mode::Quoted),
    decreases s.len(),
{
    if s.len() == 0 {
        assert(r.text() + s =~= r.text());
    } else {
        let t = s.drop_last();
        lemma_read_quoted(r, t);
        lemma_read_concat(r, quoted(t), quoted_char(s.last()));
        lemma_read_quoted_char(r.extended(t, Mode::Quoted), s.last());
        assert(r.text() + t + seq![s.last()] =~= r.text() + s);
    }
}

/// Where a word may begin or go on, a quoted text is read as that text, whatever it holds,
/// and adds nothing else.
pub proof fn law_escaped_is_read_back(r: Reading, s: Seq<char>)
    requires
        r.mode is Plain,
    ensures
        r.read(escaped(s)) == r.extended(s, Mode::Plain),
{
    let q = seq!['\''];
    lemma_read_concat(r, q + quoted(s), q);
    lemma_read_concat(r, q, quoted(s));
    lemma_read_push(r, seq![], '\'');
    let open = r.read(q);
    assert(open =~= r.extended(seq![], Mode::Quoted));
    assert(r.text() + Seq::<char>::empty() =~= r.text());
    lemma_read_quoted(open, s);
    lemma_read_push(open.read(quoted(s)), seq![], '\'');
    assert(r.text() + s + Seq::<char>::empty() =~= r.text() + s);
}

/// The shell reads a quoted text as exactly one word, which is the text itself.
pub proof fn law_escaped_is_one_word(s: Seq<char>)
    ensures
        shell_words(escaped(s)) == seq![s],
        is_closed(escaped(s)),
{
    law_escaped_is_read_back(Reading::start(), s);
    assert(Seq::<char>::empty() + s =~= s);
    assert(Seq::<Seq<char>>::empty().push(s) =~= seq![s]);
}

/// Different texts are quoted differently.
pub proof fn law_escaped_is_injective(a: Seq<char>, b: Seq<char>)
    requires
        escaped(a) == escaped(b),
    ensures
        a == b,
{
    law_escaped_is_one_word(a);
    law_escaped_is_one_word(b);
    assert(seq![a][0] == seq![b][0]);
}

/// Where a word may begin or go on, a literal text is read as it stands.
proof fn lemma_read_literal(r: Reading, w: Seq<char>)
    requires
        r.mode is Plain,
        is_literal(w),
        w.len() > 0,
    ensures
        r.read(w) == r.extended(w, Mode::Plain),
    decreases w.len(),
{
    let t = w.drop_last();
    if t.len() > 0 {
        lemma_read_literal(r, t);
        assert(r.text() + t + seq![w.last()] =~= r.text() + w);
    } else {
        assert(r.read(t) == r);
        assert(seq![w.last()] =~= w);
    }
}

/// A nonempty text without special characters is one word, which is the text itself.
pub proof fn law_literal_is_one_word(w: Seq<char>)
    requires
        is_literal(w),
        w.len() > 0,
    ensures
        shell_words(w) == seq![w],
        is_closed(w),
{
    lemma_read_literal(Reading::start(), w);
    assert(Seq::<char>::empty() + w =~= w);
    assert(Seq::<Seq<char>>::empty().push(w) =~= seq![w]);
}

/// A blank behind closed text starts the words anew: the words of the whole are those of
/// the two sides.
pub proof fn law_words_side_by_side(a: Seq<char>, b: Seq<char>)
    requires
        is_closed(a),
    ensures
        shell_words(a + seq![' '] + b) == shell_words(a) + shell_words(b),
        is_closed(b) ==> is_closed(a + seq![' '] + b),
{
    let start = Reading::start();
    lemma_read_concat(start, a + seq![' '], b);
    lemma_read_concat(start, a, seq![' ']);
    lemma_read_push(start.read(a), seq![], ' ');
    let after = start.read(a).step(' ');
    lemma_read_from(after, b);
    assert(after.words + start.read(b).all_words() =~= after.read(b).all_words());
}

/// Texts that are one word each, joined by blanks, are those words.
pub proof fn law_words_of_joined(parts: Seq<Seq<char>>, ws: Seq<Seq<char>>)
    requires
        parts.len() == ws.len(),
        parts.len() > 0,
        forall|i: int|
            0 <= i < parts.len() ==> is_closed(#[trigger] parts[i]) && shell_words(parts[i])
                == seq![ws[i]],
    ensures
        shell_words(text::join(parts, seq![' '])) == ws,
        is_closed(text::join(parts, seq![' '])),
    decreases parts.len(),
{
    if parts.len() == 1 {
        assert(is_closed(parts[0]));
        assert(seq![ws[0]] =~= ws);
    } else {
        let front = parts.drop_last();
        assert forall|i: int| 0 <= i < front.len() implies is_closed(#[trigger] front[i])
            && shell_words(front[i]) == seq![ws.drop_last()[i]] by {
            assert(front[i] == parts[i]);
        }
        law_words_of_joined(front, ws.drop_last());
        law_words_side_by_side(text::join(front, seq![' ']), parts.last());
        assert(ws.drop_last() + seq![ws.last()] =~= ws);
        assert(is_closed(parts[parts.len() - 1]));
    }
}

/// Literal words joined by blanks are those words.
pub proof fn law_words_of_literals(ws: Seq<Seq<char>>)
    requires
        ws.len() > 0,
        forall|i: int| 0 <= i < ws.len() ==> is_literal(#[trigger] ws[i]) && ws[i].len() > 0,
    ensures
        shell_words(text::join(ws, seq![' '])) == ws,
        is_closed(text::join(ws, seq![' '])),
{
    assert forall|i: int| 0 <= i < ws.len() implies is_closed(#[trigger] ws[i]) && shell_words(
        ws[i],
    ) == seq![ws[i]] by {
        law_literal_is_one_word(ws[i]);
    }
    law_words_of_joined(ws, ws);
}

/// Every text is put between single quotes, in which each character stands for itself, but
/// for the single quote: that leaves the quotes, is written with a backslash, and enters
/// them again.
pub proof fn law_escaped_by_parts(a: Seq<char>, b: Seq<char>, c: char)
    ensures
        escaped(seq![]) == seq!['\'', '\''],
        c != '\'' ==> escaped(seq![c]) == seq!['\'', c, '\''],
        escaped(seq!['\'']) == seq!['\'', '\'', '\\', '\'', '\'', '\''],
        escaped(a + b) == escaped(a).drop_last() + escaped(b).drop_first(),
{
    let none: Seq<char> = seq![];
    assert(escaped(none) =~= seq!['\'', '\'']);
    assert(seq![c].drop_last() =~= none);
    assert(quoted(none) =~= none);
    assert(quoted(seq![c]) =~= quoted_char(c));
    if c != '\'' {
        assert(escaped(seq![c]) =~= seq!['\'', c, '\'']);
    }
    assert(seq!['\''].drop_last() =~= none);
    assert(quoted(seq!['\'']) =~= quoted_char('\''));
    assert(escaped(seq!['\'']) =~= seq!['\'', '\'', '\\', '\'', '\'', '\'']);
    lemma_quoted_concat(a, b);
    assert(escaped(a + b) =~= escaped(a).drop_last() + escaped(b).drop_first());
}

/// The shell reads what was quoted as one word, which is the text that was given.
pub proof fn law_shell_escape_is_one_word(s: &str, r: String)
    requires
        call_ensures(shell_escape, (s,), r),
    ensures
        shell_words(r@) == seq![s@],
        is_closed(r@),
{
    law_escaped_is_one_word(s@);
}

} // verus!
