//! Text helpers for the system dialogs and the screen: splitting into lines and words,
//! wrapping to a width, and encoding as UTF-16.
use vstd::prelude::*;
use vstd::string::*;
use vstd::utf8::encode_utf8;

verus! {

/// Appends the character `c` to the string (`String::push`).
#[verifier::external_body]
pub(crate) fn string_push(s: &mut String, c: char)
    ensures
        final(s)@ == old(s)@.push(c),
{
    s.push(c)
}

/// Index of the first `c` in `s`, or `s.len()` when there is none.
pub open spec fn first_index_of(s: Seq<char>, c: char) -> int
    decreases s.len(),
{
    if s.len() == 0 {
        0
    } else if s[0] == c {
        0
    } else {
        1 + first_index_of(s.drop_first(), c)
    }
}

/// The lines of `s`: the pieces between `\n` characters, so that a text without `\n` is
/// one line and a text ending in `\n` has an empty last line.
pub open spec fn lines_of(s: Seq<char>) -> Seq<Seq<char>>
    decreases s.len(),
{
    let i = first_index_of(s, '\n');
    if 0 <= i < s.len() {
        seq![s.take(i)] + lines_of(s.skip(i + 1))
    } else {
        seq![s]
    }
}

/// Where the first `c` of `s` is.
pub proof fn lemma_first_index_of(s: Seq<char>, c: char)
    ensures
        0 <= first_index_of(s, c) <= s.len(),
        first_index_of(s, c) < s.len() ==> s[first_index_of(s, c)] == c,
        forall|k: int| 0 <= k < first_index_of(s, c) ==> s[k] != c,
    decreases s.len(),
{
    if s.len() > 0 && s[0] != c {
        lemma_first_index_of(s.drop_first(), c);
        assert forall|k: int| 0 <= k < first_index_of(s, c) implies s[k] != c by {
            if k > 0 {
                assert(s[k] == s.drop_first()[k - 1]);
            }
        }
    }
}

/// The first `c` of `s` is at `i` when `s[i]` is `c` (or `i` is the end) and no `c` comes
/// before.
pub proof fn lemma_first_index_of_unique(s: Seq<char>, c: char, i: int)
    requires
        0 <= i <= s.len(),
        i < s.len() ==> s[i] == c,
        forall|k: int| 0 <= k < i ==> s[k] != c,
    ensures
        first_index_of(s, c) == i,
{
    lemma_first_index_of(s, c);
}

/// Lines put back together with a `\n` between each two.
pub open spec fn join_lines(ls: Seq<Seq<char>>) -> Seq<char>
    decreases ls.len(),
{
    if ls.len() <= 1 {
        if ls.len() == 1 {
            ls[0]
        } else {
            seq![]
        }
    } else {
        ls[0] + seq!['\n'] + join_lines(ls.drop_first())
    }
}

/// A text has at least one line, no line holds `\n`, and the lines put back together
/// with `\n` give the text.
pub proof fn law_lines_join_back(s: Seq<char>)
    ensures
        lines_of(s).len() >= 1,
        forall|i: int| 0 <= i < lines_of(s).len() ==> no_newline(#[trigger] lines_of(s)[i]),
        join_lines(lines_of(s)) == s,
    decreases s.len(),
{
    lemma_first_index_of(s, '\n');
    let i = first_index_of(s, '\n');
    if i < s.len() {
        let rest = s.skip(i + 1);
        law_lines_join_back(rest);
        let ls = lines_of(s);
        assert(ls == seq![s.take(i)] + lines_of(rest));
        assert(ls.drop_first() =~= lines_of(rest));
        assert(s =~= s.take(i) + seq!['\n'] + rest);
        assert forall|j: int| 0 <= j < ls.len() implies no_newline(#[trigger] ls[j]) by {
            if j > 0 {
                assert(ls[j] == lines_of(rest)[j - 1]);
            } else {
                assert forall|k: int| 0 <= k < ls[0].len() implies #[trigger] ls[0][k] != '\n' by {
                    assert(ls[0][k] == s[k]);
                }
            }
        }
    } else {
        assert(lines_of(s) == seq![s]);
    }
}

/// The number of bytes of the UTF-8 encoding of `s`.
pub open spec fn byte_len(s: Seq<char>) -> int {
    encode_utf8(s).len() as int
}

/// Whether `c` is white space as Unicode defines it (the `White_Space` property).
pub open spec fn is_white_space(c: char) -> bool {
    ('\u{9}' <= c && c <= '\u{d}') || c == ' ' || c == '\u{85}' || c == '\u{a0}' || c
        == '\u{1680}' || ('\u{2000}' <= c && c <= '\u{200a}') || c == '\u{2028}' || c
        == '\u{2029}' || c == '\u{202f}' || c == '\u{205f}' || c == '\u{3000}'
}

/// Whether `c` is white space, see [`is_white_space`].
pub fn is_whitespace(c: char) -> (r: bool)
    ensures
        r == is_white_space(c),
{
    ('\u{9}' <= c && c <= '\u{d}') || c == ' ' || c == '\u{85}' || c == '\u{a0}' || c
        == '\u{1680}' || ('\u{2000}' <= c && c <= '\u{200a}') || c == '\u{2028}' || c
        == '\u{2029}' || c == '\u{202f}' || c == '\u{205f}' || c == '\u{3000}'
}

/// Index of the first white space in `s`, or `s.len()`.
pub open spec fn first_white_space(s: Seq<char>) -> int
    decreases s.len(),
{
    if s.len() == 0 {
        0
    } else if is_white_space(s[0]) {
        0
    } else {
        1 + first_white_space(s.drop_first())
    }
}

/// The words of `s`: its maximal runs of characters that are not white space, in order.
pub open spec fn words_of(s: Seq<char>) -> Seq<Seq<char>>
    decreases s.len(),
{
    if s.len() == 0 {
        seq![]
    } else if is_white_space(s[0]) {
        words_of(s.drop_first())
    } else {
        let i = first_white_space(s);
        if 0 < i <= s.len() {
            seq![s.take(i)] + words_of(s.skip(i))
        } else {
            seq![s]
        }
    }
}

/// `s` without its trailing white space.
pub open spec fn trim_end_of(s: Seq<char>) -> Seq<char>
    decreases s.len(),
{
    if s.len() > 0 && is_white_space(s.last()) {
        trim_end_of(s.drop_last())
    } else {
        s
    }
}

/// One step of wrapping, from the text so far and the line being filled: a word that fits
/// on the line (with the space after it) is added to it; otherwise the line is closed
/// with `\n` and the word begins the next one.
pub open spec fn wrap_step(st: (Seq<char>, Seq<char>), word: Seq<char>, width: int) -> (
    Seq<char>,
    Seq<char>,
) {
    if byte_len(st.1) + byte_len(word) + 1 <= width {
        (st.0, st.1 + word + seq![' '])
    } else {
        (st.0 + trim_end_of(st.1) + seq!['\n'], word + seq![' '])
    }
}

/// The state of wrapping after the words `ws`.
pub open spec fn wrap_words(ws: Seq<Seq<char>>, width: int) -> (Seq<char>, Seq<char>)
    decreases ws.len(),
{
    if ws.len() == 0 {
        (seq![], seq![])
    } else {
        wrap_step(wrap_words(ws.drop_last(), width), ws.last(), width)
    }
}

/// `text` wrapped to lines of at most `width` bytes where words allow: the words of the text
/// are put on lines in order, separated by single spaces, and a word that does not fit
/// begins a new line.
pub open spec fn wrapped(text: Seq<char>, width: int) -> Seq<char> {
    let st = wrap_words(words_of(text), width);
    if st.1.len() > 0 {
        st.0 + trim_end_of(st.1)
    } else {
        st.0
    }
}

/// The words of `s` that follow the first `i` characters, when a word ends (or the text
/// begins) at `i`.
proof fn lemma_words_from(s: Seq<char>, i: int)
    requires
        0 <= i < s.len(),
        is_white_space(s[i]),
    ensures
        words_of(s.skip(i)) == words_of(s.skip(i + 1)),
{
    assert(s.skip(i).drop_first() =~= s.skip(i + 1));
}

/// The first word of a text that begins with one: its characters up to the next white
/// space.
proof fn lemma_word_at(s: Seq<char>, start: int, end: int)
    requires
        0 <= start < end <= s.len(),
        forall|k: int| start <= k < end ==> !is_white_space(#[trigger] s[k]),
        end < s.len() ==> is_white_space(s[end]),
    ensures
        words_of(s.skip(start)) == seq![s.subrange(start, end)] + words_of(s.skip(end)),
{
    let t = s.skip(start);
    lemma_first_white_space_unique(t, end - start);
    assert(t.take(end - start) =~= s.subrange(start, end));
    assert(t.skip(end - start) =~= s.skip(end));
    if end == s.len() {
        assert(s.skip(end) =~= Seq::<char>::empty());
    }
}

/// The first white space of `s` is at `i` when `s[i]` is one (or `i` is the end) and none
/// comes before.
proof fn lemma_first_white_space_unique(s: Seq<char>, i: int)
    requires
        0 <= i <= s.len(),
        i < s.len() ==> is_white_space(s[i]),
        forall|k: int| 0 <= k < i ==> !is_white_space(#[trigger] s[k]),
    ensures
        first_white_space(s) == i,
    decreases i,
{
    if i > 0 {
        assert forall|k: int| 0 <= k < i - 1 implies !is_white_space(
            #[trigger] s.drop_first()[k],
        ) by {
            assert(s.drop_first()[k] == s[k + 1]);
        }
        if i - 1 < s.drop_first().len() {
            assert(s.drop_first()[i - 1] == s[i]);
        }
        lemma_first_white_space_unique(s.drop_first(), i - 1);
    }
}

/// Whether every character of `s` is white space.
pub open spec fn all_white_space(s: Seq<char>) -> bool {
    forall|k: int| 0 <= k < s.len() ==> is_white_space(#[trigger] s[k])
}

/// Where the first white space is, and that there is none before it.
proof fn lemma_first_white_space(s: Seq<char>)
    ensures
        0 <= first_white_space(s) <= s.len(),
        first_white_space(s) < s.len() ==> is_white_space(s[first_white_space(s)]),
        forall|k: int| 0 <= k < first_white_space(s) ==> !is_white_space(#[trigger] s[k]),
    decreases s.len(),
{
    if s.len() > 0 && !is_white_space(s[0]) {
        lemma_first_white_space(s.drop_first());
        assert forall|k: int| 0 <= k < first_white_space(s) implies !is_white_space(
            #[trigger] s[k],
        ) by {
            if k > 0 {
                assert(s[k] == s.drop_first()[k - 1]);
            }
        }
    }
}

/// Each word is nonempty and holds no white space.
proof fn lemma_words_are_words(s: Seq<char>)
    ensures
        forall|i: int|
            0 <= i < words_of(s).len() ==> (#[trigger] words_of(s)[i]).len() > 0 && forall|k: int|
                0 <= k < words_of(s)[i].len() ==> !is_white_space(#[trigger] words_of(s)[i][k]),
    decreases s.len(),
{
    if s.len() > 0 {
        if is_white_space(s[0]) {
            lemma_words_are_words(s.drop_first());
            assert(words_of(s) == words_of(s.drop_first()));
        } else {
            lemma_first_white_space(s);
            let i = first_white_space(s);
            lemma_words_are_words(s.skip(i));
            let ws = words_of(s);
            assert(i > 0);
            assert(ws == seq![s.take(i)] + words_of(s.skip(i)));
            assert forall|j: int| 0 <= j < ws.len() implies (#[trigger] ws[j]).len() > 0 && forall|
                k: int,
            | 0 <= k < ws[j].len() ==> !is_white_space(#[trigger] ws[j][k]) by {
                if j > 0 {
                    assert(ws[j] == words_of(s.skip(i))[j - 1]);
                } else {
                    assert(ws[0] == s.take(i));
                    assert forall|k: int| 0 <= k < ws[0].len() implies !is_white_space(
                        #[trigger] ws[0][k],
                    ) by {
                        assert(ws[0][k] == s[k]);
                    }
                }
            }
        }
    }
}

/// A text of white space only has no word.
proof fn lemma_no_words(y: Seq<char>)
    requires
        all_white_space(y),
    ensures
        words_of(y) == Seq::<Seq<char>>::empty(),
    decreases y.len(),
{
    if y.len() > 0 {
        assert(is_white_space(y[0]));
        assert(all_white_space(y.drop_first())) by {
            assert forall|k: int| 0 <= k < y.drop_first().len() implies is_white_space(
                #[trigger] y.drop_first()[k],
            ) by {
                assert(y.drop_first()[k] == y[k + 1]);
            }
        }
        lemma_no_words(y.drop_first());
    }
}

/// White space after a text adds no word.
proof fn lemma_words_trailing_space(x: Seq<char>, y: Seq<char>)
    requires
        all_white_space(y),
    ensures
        words_of(x + y) == words_of(x),
    decreases x.len(),
{
    if x.len() == 0 {
        assert(x + y =~= y);
        lemma_no_words(y);
    } else if is_white_space(x[0]) {
        assert((x + y).drop_first() =~= x.drop_first() + y);
        lemma_words_trailing_space(x.drop_first(), y);
    } else {
        lemma_first_white_space(x);
        let i = first_white_space(x);
        assert(i > 0);
        if i < x.len() {
            assert forall|k: int| 0 <= k < i implies !is_white_space(#[trigger] (x + y)[k]) by {
                assert((x + y)[k] == x[k]);
            }
            assert((x + y)[i] == x[i]);
            lemma_first_white_space_unique(x + y, i);
            assert((x + y).take(i) =~= x.take(i));
            assert((x + y).skip(i) =~= x.skip(i) + y);
            lemma_words_trailing_space(x.skip(i), y);
            assert(words_of(x + y) == seq![x.take(i)] + words_of(x.skip(i) + y));
            assert(words_of(x) == seq![x.take(i)] + words_of(x.skip(i)));
        } else {
            assert forall|k: int| 0 <= k < x.len() implies !is_white_space(#[trigger] (x + y)[k]) by {
                assert((x + y)[k] == x[k]);
            }
            if y.len() > 0 {
                assert((x + y)[x.len() as int] == y[0]);
            }
            lemma_first_white_space_unique(x + y, x.len() as int);
            assert((x + y).take(i) =~= x);
            assert((x + y).skip(i) =~= y);
            lemma_no_words(y);
            assert(x.skip(i) =~= Seq::<char>::empty());
            assert(x.take(i) =~= x);
            assert(words_of(Seq::<char>::empty()) == Seq::<Seq<char>>::empty());
            assert(words_of(x + y) == seq![x] + words_of(y));
            assert(words_of(x) == seq![x] + words_of(Seq::<char>::empty()));
        }
    }
}

/// The words of a text that ends in white space, followed by another text, are the words
/// of the one followed by those of the other.
proof fn lemma_words_concat(a: Seq<char>, b: Seq<char>)
    requires
        a.len() == 0 || is_white_space(a.last()),
    ensures
        words_of(a + b) == words_of(a) + words_of(b),
    decreases a.len(),
{
    if a.len() == 0 {
        assert(a + b =~= b);
    } else if is_white_space(a[0]) {
        assert((a + b).drop_first() =~= a.drop_first() + b);
        if a.len() > 1 {
            assert(a.drop_first().last() == a.last());
        }
        lemma_words_concat(a.drop_first(), b);
    } else {
        lemma_first_white_space(a);
        let i = first_white_space(a);
        assert(i < a.len()) by {
            if i == a.len() {
                assert(!is_white_space(a[a.len() - 1]));
            }
        }
        lemma_first_white_space_unique(a + b, i);
        assert((a + b).take(i) =~= a.take(i));
        assert((a + b).skip(i) =~= a.skip(i) + b);
        assert(a.skip(i).last() == a.last());
        lemma_words_concat(a.skip(i), b);
    }
}

/// A word followed by a space is that one word.
proof fn lemma_word_and_space(w: Seq<char>)
    requires
        w.len() > 0,
        forall|k: int| 0 <= k < w.len() ==> !is_white_space(#[trigger] w[k]),
    ensures
        words_of(w + seq![' ']) == seq![w],
{
    let t = w + seq![' '];
    lemma_first_white_space_unique(t, w.len() as int);
    assert(t.take(w.len() as int) =~= w);
    assert(t.skip(w.len() as int) =~= seq![' ']);
    lemma_no_words(seq![' ']);
}

/// A text is its trimmed text followed by white space.
proof fn lemma_trim_end(x: Seq<char>)
    ensures
        trim_end_of(x).len() <= x.len(),
        x == trim_end_of(x) + x.skip(trim_end_of(x).len() as int),
        all_white_space(x.skip(trim_end_of(x).len() as int)),
    decreases x.len(),
{
    if x.len() > 0 && is_white_space(x.last()) {
        lemma_trim_end(x.drop_last());
        let t = trim_end_of(x);
        assert(t == trim_end_of(x.drop_last()));
        let r = x.drop_last().skip(t.len() as int);
        assert(x.skip(t.len() as int) =~= r.push(x.last()));
        assert forall|k: int| 0 <= k < r.push(x.last()).len() implies is_white_space(
            #[trigger] r.push(x.last())[k],
        ) by {
            if k < r.len() {
                assert(r.push(x.last())[k] == r[k]);
            }
        }
        assert(x =~= x.drop_last().push(x.last()));
        assert(x.drop_last() =~= t + r);
        assert(x =~= t + r.push(x.last()));
    } else {
        assert(x.skip(x.len() as int) =~= Seq::<char>::empty());
        assert(x =~= x + Seq::<char>::empty());
    }
}

/// Trimming the end of a text keeps its words.
proof fn lemma_words_trim(x: Seq<char>)
    ensures
        words_of(trim_end_of(x)) == words_of(x),
{
    lemma_trim_end(x);
    lemma_words_trailing_space(trim_end_of(x), x.skip(trim_end_of(x).len() as int));
}

/// Wrapping words keeps them: the text so far and the line being filled hold the words
/// wrapped so far, the line ends in a space unless it is empty, and the text ends in a
/// line break unless it is empty.
proof fn lemma_wrap_keeps_words(ws: Seq<Seq<char>>, width: int)
    requires
        forall|i: int|
            0 <= i < ws.len() ==> (#[trigger] ws[i]).len() > 0 && forall|k: int|
                0 <= k < ws[i].len() ==> !is_white_space(#[trigger] ws[i][k]),
    ensures
        ({
            let st = wrap_words(ws, width);
            &&& words_of(st.0 + st.1) == ws
            &&& st.1.len() == 0 || st.1.last() == ' '
            &&& st.0.len() == 0 || st.0.last() == '\n'
        }),
    decreases ws.len(),
{
    if ws.len() == 0 {
        assert(Seq::<char>::empty() + Seq::<char>::empty() =~= Seq::<char>::empty());
    } else {
        let prev = ws.drop_last();
        lemma_wrap_keeps_words(prev, width);
        let st = wrap_words(prev, width);
        let w = ws.last();
        assert(w.len() > 0 && forall|k: int| 0 <= k < w.len() ==> !is_white_space(#[trigger] w[k]));
        lemma_word_and_space(w);
        let a = st.0 + st.1;
        assert(a.len() == 0 || is_white_space(a.last())) by {
            if st.1.len() > 0 {
                assert(a.last() == st.1.last());
            } else if st.0.len() > 0 {
                assert(a.last() == st.0.last());
            }
        }
        if byte_len(st.1) + byte_len(w) + 1 <= width {
            assert(st.0 + (st.1 + w + seq![' ']) =~= a + (w + seq![' ']));
            lemma_words_concat(a, w + seq![' ']);
        } else {
            let t = trim_end_of(st.1);
            let c = st.0 + t + seq!['\n'];
            lemma_words_concat(c, w + seq![' ']);
            lemma_words_trailing_space(st.0 + t, seq!['\n']);
            lemma_trim_end(st.1);
            let tail = st.1.skip(t.len() as int);
            assert(a =~= (st.0 + t) + tail);
            lemma_words_trailing_space(st.0 + t, tail);
            assert(c + (w + seq![' ']) =~= (st.0 + t + seq!['\n']) + (w + seq![' ']));
        }
        assert(ws =~= prev.push(w));
    }
}

/// Wrapping a text keeps its words, in order: only the white space between them changes.
pub proof fn law_wrap_keeps_words(text: Seq<char>, width: int)
    ensures
        words_of(wrapped(text, width)) == words_of(text),
{
    let ws = words_of(text);
    lemma_words_are_words(text);
    lemma_wrap_keeps_words(ws, width);
    let st = wrap_words(ws, width);
    if st.1.len() > 0 {
        lemma_trim_end(st.1);
        let t = trim_end_of(st.1);
        assert(st.0 + st.1 =~= (st.0 + t) + st.1.skip(t.len() as int));
        lemma_words_trailing_space(st.0 + t, st.1.skip(t.len() as int));
    } else {
        assert(st.0 + st.1 =~= st.0);
    }
}

/// The byte length of the encoding of two texts together is the sum of theirs.
proof fn lemma_byte_len_concat(a: Seq<char>, b: Seq<char>)
    ensures
        byte_len(a + b) == byte_len(a) + byte_len(b),
    decreases a.len(),
{
    if a.len() > 0 {
        lemma_byte_len_concat(a.drop_first(), b);
        assert((a + b).drop_first() =~= a.drop_first() + b);
        assert((a + b)[0] == a[0]);
    } else {
        assert(a + b =~= b);
    }
}

/// A line of wrapped text that is shorter than the width, or holds at most one word.
pub open spec fn line_fits(l: Seq<char>, width: int) -> bool {
    byte_len(l) < width || words_of(l).len() <= 1
}

/// The line being filled, with the space after its last word, fits the width, or holds at
/// most one word.
pub open spec fn open_line_fits(l: Seq<char>, width: int) -> bool {
    byte_len(l) <= width || words_of(l).len() <= 1
}

/// Closing a line being filled drops at least its last space, so the closed line is shorter
/// than the width unless it holds at most one word.
proof fn lemma_close_line(x: Seq<char>, width: int)
    requires
        x.len() == 0 || x.last() == ' ',
        open_line_fits(x, width),
    ensures
        line_fits(trim_end_of(x), width),
{
    lemma_words_trim(x);
    if x.len() > 0 {
        let d = x.drop_last();
        assert(x =~= d + seq![' ']);
        lemma_byte_len_concat(d, seq![' ']);
        assert(byte_len(seq![' ']) == 1) by {
            assert(vstd::utf8::is_ascii_chars(seq![' ']));
            vstd::utf8::is_ascii_chars_encode_utf8(seq![' ']);
        }
        assert(is_white_space(' '));
        assert(trim_end_of(x) == trim_end_of(d));
        lemma_trim_end(d);
        lemma_byte_len_concat(trim_end_of(d), d.skip(trim_end_of(d).len() as int));
    } else {
        assert(words_of(x) == Seq::<Seq<char>>::empty());
    }
}

/// Whether a text holds no line break.
pub open spec fn no_newline(l: Seq<char>) -> bool {
    forall|k: int| 0 <= k < l.len() ==> #[trigger] l[k] != '\n'
}

/// Lines, each followed by a line break.
pub open spec fn joined(ls: Seq<Seq<char>>) -> Seq<char>
    decreases ls.len(),
{
    if ls.len() == 0 {
        seq![]
    } else {
        joined(ls.drop_last()) + ls.last() + seq!['\n']
    }
}

/// The lines that wrapping the words `ws` has closed.
pub open spec fn closed_lines(ws: Seq<Seq<char>>, width: int) -> Seq<Seq<char>>
    decreases ws.len(),
{
    if ws.len() == 0 {
        seq![]
    } else {
        let st = wrap_words(ws.drop_last(), width);
        if byte_len(st.1) + byte_len(ws.last()) + 1 <= width {
            closed_lines(ws.drop_last(), width)
        } else {
            closed_lines(ws.drop_last(), width).push(trim_end_of(st.1))
        }
    }
}

/// The lines of lines joined by line breaks and followed by more text are those lines,
/// then the lines of that text.
proof fn lemma_lines_joined(ls: Seq<Seq<char>>, tail: Seq<char>)
    requires
        forall|i: int| 0 <= i < ls.len() ==> no_newline(#[trigger] ls[i]),
    ensures
        lines_of(joined(ls) + tail) == ls + lines_of(tail),
    decreases ls.len(),
{
    if ls.len() == 0 {
        assert(joined(ls) + tail =~= tail);
        assert(ls + lines_of(tail) =~= lines_of(tail));
    } else {
        let last = ls.last();
        let rest = last + seq!['\n'] + tail;
        assert(no_newline(last));
        lemma_first_index_of_unique(rest, '\n', last.len() as int);
        assert(rest.take(last.len() as int) =~= last);
        assert(rest.skip(last.len() as int + 1) =~= tail);
        assert(lines_of(rest) == seq![last] + lines_of(tail));
        lemma_lines_joined(ls.drop_last(), rest);
        assert(joined(ls) + tail =~= joined(ls.drop_last()) + rest);
        assert(ls =~= ls.drop_last().push(last));
        assert(ls.drop_last() + (seq![last] + lines_of(tail)) =~= ls + lines_of(tail));
    }
}

/// While wrapping, the text so far is the closed lines, each followed by a line break,
/// each fitting; the open line ends in a space unless it is empty, and fits.
proof fn lemma_wrap_lines(ws: Seq<Seq<char>>, width: int)
    requires
        forall|i: int|
            0 <= i < ws.len() ==> (#[trigger] ws[i]).len() > 0 && forall|k: int|
                0 <= k < ws[i].len() ==> !is_white_space(#[trigger] ws[i][k]),
    ensures
        ({
            let st = wrap_words(ws, width);
            let ls = closed_lines(ws, width);
            &&& st.0 == joined(ls)
            &&& forall|i: int| 0 <= i < ls.len() ==> line_fits(#[trigger] ls[i], width) && no_newline(ls[i])
            &&& no_newline(st.1)
            &&& open_line_fits(st.1, width)
            &&& st.1.len() == 0 || st.1.last() == ' '
        }),
    decreases ws.len(),
{
    if ws.len() == 0 {
        assert(byte_len(Seq::<char>::empty()) == 0);
        assert(words_of(Seq::<char>::empty()) == Seq::<Seq<char>>::empty());
    } else {
        let prev = ws.drop_last();
        lemma_wrap_lines(prev, width);
        let st = wrap_words(prev, width);
        let ls = closed_lines(prev, width);
        let w = ws.last();
        assert(w.len() > 0 && forall|k: int| 0 <= k < w.len() ==> !is_white_space(#[trigger] w[k]));
        let ws1 = w + seq![' '];
        assert(no_newline(ws1)) by {
            assert forall|k: int| 0 <= k < ws1.len() implies #[trigger] ws1[k] != '\n' by {
                if k < w.len() {
                    assert(ws1[k] == w[k]);
                    assert(!is_white_space(w[k]));
                }
            }
        }
        if byte_len(st.1) + byte_len(w) + 1 <= width {
            let line = st.1 + w + seq![' '];
            lemma_byte_len_concat(st.1 + w, seq![' ']);
            lemma_byte_len_concat(st.1, w);
            assert(byte_len(seq![' ']) == 1) by {
                assert(vstd::utf8::is_ascii_chars(seq![' ']));
                vstd::utf8::is_ascii_chars_encode_utf8(seq![' ']);
            }
            assert(no_newline(line)) by {
                assert forall|k: int| 0 <= k < line.len() implies #[trigger] line[k] != '\n' by {
                    if k < st.1.len() {
                        assert(line[k] == st.1[k]);
                    } else {
                        assert(line[k] == ws1[k - st.1.len()]);
                    }
                }
            }
        } else {
            let t = trim_end_of(st.1);
            lemma_close_line(st.1, width);
            lemma_trim_end(st.1);
            lemma_words_trim(st.1);
            lemma_byte_len_concat(t, st.1.skip(t.len() as int));
            assert(no_newline(t)) by {
                assert forall|k: int| 0 <= k < t.len() implies #[trigger] t[k] != '\n' by {
                    assert(t[k] == st.1[k]);
                }
            }
            lemma_word_and_space(w);
            let nls = ls.push(t);
            assert(joined(nls) == joined(ls) + t + seq!['\n']) by {
                assert(nls.drop_last() =~= ls);
            }
            assert forall|i: int| 0 <= i < nls.len() implies line_fits(#[trigger] nls[i], width)
                && no_newline(nls[i]) by {
                if i < ls.len() {
                    assert(nls[i] == ls[i]);
                }
            }
        }
    }
}

/// Every line of wrapped text is shorter than the width, or holds at most one word (which
/// may be longer).
pub proof fn law_wrap_fits(text: Seq<char>, width: int)
    ensures
        forall|i: int|
            0 <= i < lines_of(wrapped(text, width)).len() ==> line_fits(
                #[trigger] lines_of(wrapped(text, width))[i],
                width,
            ),
{
    let ws = words_of(text);
    lemma_words_are_words(text);
    lemma_wrap_lines(ws, width);
    let st = wrap_words(ws, width);
    let ls = closed_lines(ws, width);
    let last = if st.1.len() > 0 {
        trim_end_of(st.1)
    } else {
        Seq::<char>::empty()
    };
    if st.1.len() > 0 {
        lemma_close_line(st.1, width);
        lemma_trim_end(st.1);
        lemma_words_trim(st.1);
        lemma_byte_len_concat(last, st.1.skip(last.len() as int));
        assert forall|k: int| 0 <= k < last.len() implies #[trigger] last[k] != '\n' by {
            assert(last[k] == st.1[k]);
        }
    } else {
        assert(st.0 + st.1 =~= st.0);
        assert(byte_len(last) == 0);
        assert(words_of(last) == Seq::<Seq<char>>::empty());
    }
    assert(wrapped(text, width) == joined(ls) + last);
    lemma_lines_joined(ls, last);
    lemma_first_index_of_unique(last, '\n', last.len() as int);
    assert(lines_of(last) == seq![last]);
    let all = lines_of(wrapped(text, width));
    assert(all == ls + seq![last]);
    assert forall|i: int| 0 <= i < all.len() implies line_fits(#[trigger] all[i], width) by {
        if i < ls.len() {
            assert(all[i] == ls[i]);
        } else {
            assert(all[i] == last);
        }
    }
}

/// The word that begins the line being filled after wrapping the words `ws`.
pub open spec fn line_start(ws: Seq<Seq<char>>, width: int) -> Seq<char>
    decreases ws.len(),
{
    if ws.len() == 0 {
        seq![]
    } else {
        let st = wrap_words(ws.drop_last(), width);
        if byte_len(st.1) + byte_len(ws.last()) + 1 <= width && st.1.len() > 0 {
            line_start(ws.drop_last(), width)
        } else {
            ws.last()
        }
    }
}

/// The first word of a line, empty when it has none.
pub open spec fn first_word(l: Seq<char>) -> Seq<char> {
    if words_of(l).len() > 0 {
        words_of(l)[0]
    } else {
        seq![]
    }
}

/// The bytes that a line takes before a further word on it: its own and a space after
/// them, none when it is empty.
pub open spec fn line_gap(l: Seq<char>) -> int {
    if l.len() == 0 {
        0
    } else {
        byte_len(l) + 1
    }
}

/// A word `w` without white space, then a space or nothing, begins `x`: the first word of
/// `x` is `w`.
proof fn lemma_first_word_of(x: Seq<char>, w: Seq<char>)
    requires
        w.len() > 0,
        forall|k: int| 0 <= k < w.len() ==> !is_white_space(#[trigger] w[k]),
        w.len() <= x.len(),
        forall|k: int| 0 <= k < w.len() ==> x[k] == w[k],
        w.len() < x.len() ==> x[w.len() as int] == ' ',
    ensures
        first_word(x) == w,
{
    assert(is_white_space(' '));
    assert forall|k: int| 0 <= k < w.len() implies !is_white_space(#[trigger] x[k]) by {
        assert(x[k] == w[k]);
    }
    lemma_first_white_space_unique(x, w.len() as int);
    assert(!is_white_space(x[0]));
    assert(x.take(w.len() as int) =~= w);
    assert(words_of(x) == seq![x.take(w.len() as int)] + words_of(x.skip(w.len() as int)));
}

/// A line being filled is a text that ends in a character that is not white space, then
/// a space: closing it drops that space alone.
proof fn lemma_open_line_close(x: Seq<char>)
    requires
        x.len() >= 2,
        x.last() == ' ',
        !is_white_space(x[x.len() - 2]),
    ensures
        trim_end_of(x) == x.drop_last(),
        byte_len(x) == byte_len(x.drop_last()) + 1,
        x.drop_last().len() > 0,
{
    let d = x.drop_last();
    assert(is_white_space(' '));
    assert(d.last() == x[x.len() - 2]);
    assert(trim_end_of(d) == d);
    assert(x =~= d + seq![' ']);
    lemma_byte_len_concat(d, seq![' ']);
    assert(byte_len(seq![' ']) == 1) by {
        assert(vstd::utf8::is_ascii_chars(seq![' ']));
        vstd::utf8::is_ascii_chars_encode_utf8(seq![' ']);
    }
}

/// While wrapping, a line is closed only when the word that begins the next line would not
/// fit after it; the line being filled begins with its first word and a space, and ends in
/// a word and a space.
proof fn lemma_wrap_breaks(ws: Seq<Seq<char>>, width: int)
    requires
        forall|i: int|
            0 <= i < ws.len() ==> (#[trigger] ws[i]).len() > 0 && forall|k: int|
                0 <= k < ws[i].len() ==> !is_white_space(#[trigger] ws[i][k]),
    ensures
        ({
            let st = wrap_words(ws, width);
            let cl = closed_lines(ws, width);
            let s0 = line_start(ws, width);
            &&& ws.len() == 0 ==> st.1.len() == 0 && cl.len() == 0
            &&& ws.len() > 0 ==> {
                &&& st.1.len() >= 2
                &&& st.1.last() == ' '
                &&& !is_white_space(st.1[st.1.len() - 2])
                &&& s0.len() > 0
                &&& (forall|k: int| 0 <= k < s0.len() ==> !is_white_space(#[trigger] s0[k]))
                &&& s0.len() < st.1.len()
                &&& (forall|k: int| 0 <= k < s0.len() ==> st.1[k] == s0[k])
                &&& st.1[s0.len() as int] == ' '
                &&& cl.len() > 0 ==> line_gap(cl.last()) + byte_len(s0) + 1 > width
            }
            &&& forall|j: int|
                0 <= j < cl.len() - 1 ==> line_gap(#[trigger] cl[j]) + byte_len(first_word(cl[j + 1]))
                    + 1 > width && first_word(cl[j + 1]).len() > 0
        }),
    decreases ws.len(),
{
    if ws.len() > 0 {
        let prev = ws.drop_last();
        assert forall|i: int|
            0 <= i < prev.len() implies (#[trigger] prev[i]).len() > 0 && forall|k: int|
                0 <= k < prev[i].len() ==> !is_white_space(#[trigger] prev[i][k]) by {
            assert(prev[i] == ws[i]);
        }
        lemma_wrap_breaks(prev, width);
        let w = ws.last();
        assert(w == ws[ws.len() - 1]);
        let stp = wrap_words(prev, width);
        let clp = closed_lines(prev, width);
        let s0p = line_start(prev, width);
        let st = wrap_words(ws, width);
        let cl = closed_lines(ws, width);
        let s0 = line_start(ws, width);
        let fits = byte_len(stp.1) + byte_len(w) + 1 <= width;
        assert(is_white_space(' '));
        if fits && stp.1.len() > 0 {
            assert(st.1 == stp.1 + w + seq![' ']);
            assert(cl == clp);
            assert(s0 == s0p);
            assert(st.1[st.1.len() - 2] == w[w.len() - 1]);
            assert forall|k: int| 0 <= k < s0.len() implies st.1[k] == s0[k] by {
                assert(st.1[k] == stp.1[k]);
            }
            assert(st.1[s0.len() as int] == stp.1[s0.len() as int]);
        } else {
            assert(st.1 == w + seq![' ']);
            assert(s0 == w);
            assert(st.1[st.1.len() - 2] == w[w.len() - 1]);
            assert forall|k: int| 0 <= k < s0.len() implies st.1[k] == s0[k] by {}
            if fits {
                // the first word, which fits, begins the first line
                assert(prev.len() == 0);
                assert(cl == clp);
            } else {
                let t = trim_end_of(stp.1);
                assert(cl == clp.push(t));
                if stp.1.len() > 0 {
                    lemma_open_line_close(stp.1);
                    assert forall|k: int| 0 <= k < s0p.len() implies t[k] == s0p[k] by {
                        assert(t[k] == stp.1[k]);
                    }
                    if s0p.len() < t.len() {
                        assert(t[s0p.len() as int] == stp.1[s0p.len() as int]);
                    }
                    lemma_first_word_of(t, s0p);
                    assert(line_gap(t) == byte_len(stp.1));
                } else {
                    assert(prev.len() == 0);
                    assert(t == stp.1);
                    assert(byte_len(stp.1) == 0) by {
                        assert(stp.1 =~= Seq::<char>::empty());
                    }
                }
                assert forall|j: int| 0 <= j < cl.len() - 1 implies line_gap(#[trigger] cl[j])
                    + byte_len(first_word(cl[j + 1])) + 1 > width && first_word(cl[j + 1]).len()
                    > 0 by {
                    assert(cl[j] == clp[j]);
                    if j + 1 < clp.len() {
                        assert(cl[j + 1] == clp[j + 1]);
                    } else {
                        assert(cl[j + 1] == t);
                        assert(clp.last() == clp[j]);
                    }
                }
            }
        }
    }
}

/// The last line of wrapped text: the line being filled when the words ran out, closed.
pub open spec fn last_wrapped_line(text: Seq<char>, width: int) -> Seq<char> {
    let st = wrap_words(words_of(text), width);
    if st.1.len() > 0 {
        trim_end_of(st.1)
    } else {
        Seq::<char>::empty()
    }
}

/// The lines of wrapped text are the lines closed while wrapping, then the last one.
proof fn lemma_wrapped_lines(text: Seq<char>, width: int)
    ensures
        lines_of(wrapped(text, width)) == closed_lines(words_of(text), width).push(
            last_wrapped_line(text, width),
        ),
{
    let ws = words_of(text);
    lemma_words_are_words(text);
    lemma_wrap_lines(ws, width);
    let st = wrap_words(ws, width);
    let ls = closed_lines(ws, width);
    let last = last_wrapped_line(text, width);
    if st.1.len() > 0 {
        lemma_trim_end(st.1);
        assert forall|k: int| 0 <= k < last.len() implies #[trigger] last[k] != '\n' by {
            assert(last[k] == st.1[k]);
        }
    } else {
        assert(st.0 + st.1 =~= st.0);
    }
    assert(wrapped(text, width) == joined(ls) + last);
    lemma_lines_joined(ls, last);
    lemma_first_index_of_unique(last, '\n', last.len() as int);
    assert(lines_of(last) == seq![last]);
    assert(ls + seq![last] =~= ls.push(last));
}

/// The last line of wrapped text begins with the word that began the line being filled.
proof fn lemma_last_line_start(text: Seq<char>, width: int)
    requires
        words_of(text).len() > 0,
    ensures
        first_word(last_wrapped_line(text, width)) == line_start(words_of(text), width),
{
    let ws = words_of(text);
    lemma_words_are_words(text);
    lemma_wrap_breaks(ws, width);
    let st = wrap_words(ws, width);
    let s0 = line_start(ws, width);
    let last = last_wrapped_line(text, width);
    lemma_open_line_close(st.1);
    assert forall|k: int| 0 <= k < s0.len() implies last[k] == s0[k] by {
        assert(last[k] == st.1[k]);
    }
    if s0.len() < last.len() {
        assert(last[s0.len() as int] == st.1[s0.len() as int]);
    }
    lemma_first_word_of(last, s0);
}

/// The line of wrapped text after its `j`-th closed line.
spec fn line_after(text: Seq<char>, width: int, j: int) -> Seq<char> {
    let ls = closed_lines(words_of(text), width);
    if j + 1 < ls.len() {
        ls[j + 1]
    } else {
        last_wrapped_line(text, width)
    }
}

/// Each closed line of wrapped text is followed by a line that begins with a word which
/// would not fit after it.
proof fn lemma_break_pairs(text: Seq<char>, width: int)
    ensures
        forall|j: int|
            0 <= j < closed_lines(words_of(text), width).len() ==> first_word(
                #[trigger] line_after(text, width, j),
            ).len() > 0 && line_gap(closed_lines(words_of(text), width)[j]) + byte_len(
                first_word(line_after(text, width, j)),
            ) + 1 > width,
{
    let ws = words_of(text);
    lemma_words_are_words(text);
    lemma_wrap_breaks(ws, width);
    if ws.len() > 0 {
        lemma_last_line_start(text, width);
    }
    let ls = closed_lines(ws, width);
    assert forall|j: int| 0 <= j < ls.len() implies first_word(
        #[trigger] line_after(text, width, j),
    ).len() > 0 && line_gap(ls[j]) + byte_len(first_word(line_after(text, width, j))) + 1
        > width by {
        if j + 1 < ls.len() {
            assert(line_after(text, width, j) == ls[j + 1]);
            assert(line_gap(ls[j]) + byte_len(first_word(ls[j + 1])) + 1 > width);
        } else {
            assert(ws.len() > 0);
            assert(ls.last() == ls[j]);
            assert(line_after(text, width, j) == last_wrapped_line(text, width));
            assert(first_word(last_wrapped_line(text, width)) == line_start(ws, width));
            assert(line_start(ws, width).len() > 0);
        }
    }
}

/// Each line of `ls` but the last is followed by a line that begins with a word, and that
/// word, after the line and a space, would take more than `width` bytes with a space after
/// it.
pub open spec fn breaks_needed(ls: Seq<Seq<char>>, width: int) -> bool {
    forall|j: int|
        0 <= j < ls.len() - 1 ==> first_word(#[trigger] ls[j + 1]).len() > 0 && line_gap(ls[j])
            + byte_len(first_word(ls[j + 1])) + 1 > width
}

/// Wrapping breaks a line only where it must: after every line but the last comes a line
/// that begins with a word, and that word, after the line and a space, would take more than
/// the width with a space after it: no line is broken while the next word still fits.
pub proof fn law_wrap_breaks_when_needed(text: Seq<char>, width: int)
    ensures
        breaks_needed(lines_of(wrapped(text, width)), width),
{
    lemma_wrapped_lines(text, width);
    lemma_break_pairs(text, width);
    let ls = closed_lines(words_of(text), width);
    let all = lines_of(wrapped(text, width));
    assert forall|j: int| 0 <= j < all.len() - 1 implies first_word(#[trigger] all[j + 1]).len()
        > 0 && line_gap(all[j]) + byte_len(first_word(all[j + 1])) + 1 > width by {
        assert(all[j] == ls[j]);
        assert(all[j + 1] == line_after(text, width, j));
    }
}

/// A line whose white space is single spaces between words: every white-space character
/// is a space, with a character that is not white space on each side.
pub open spec fn single_spaced(l: Seq<char>) -> bool {
    forall|k: int|
        0 <= k < l.len() && is_white_space(#[trigger] l[k]) ==> l[k] == ' ' && 0 < k < l.len() - 1
            && !is_white_space(l[k - 1]) && !is_white_space(l[k + 1])
}

/// While wrapping, the closed lines and the line being filled (but for its last space) are
/// single-spaced.
proof fn lemma_wrap_spacing(ws: Seq<Seq<char>>, width: int)
    requires
        forall|i: int|
            0 <= i < ws.len() ==> (#[trigger] ws[i]).len() > 0 && forall|k: int|
                0 <= k < ws[i].len() ==> !is_white_space(#[trigger] ws[i][k]),
    ensures
        forall|j: int|
            0 <= j < closed_lines(ws, width).len() ==> single_spaced(
                #[trigger] closed_lines(ws, width)[j],
            ),
        wrap_words(ws, width).1.len() > 0 ==> single_spaced(wrap_words(ws, width).1.drop_last()),
    decreases ws.len(),
{
    lemma_wrap_breaks(ws, width);
    if ws.len() > 0 {
        let prev = ws.drop_last();
        assert forall|i: int|
            0 <= i < prev.len() implies (#[trigger] prev[i]).len() > 0 && forall|k: int|
                0 <= k < prev[i].len() ==> !is_white_space(#[trigger] prev[i][k]) by {
            assert(prev[i] == ws[i]);
        }
        lemma_wrap_spacing(prev, width);
        lemma_wrap_breaks(prev, width);
        let w = ws.last();
        assert(w == ws[ws.len() - 1]);
        let stp = wrap_words(prev, width);
        let clp = closed_lines(prev, width);
        let st = wrap_words(ws, width);
        let cl = closed_lines(ws, width);
        let fits = byte_len(stp.1) + byte_len(w) + 1 <= width;
        assert(is_white_space(' '));
        if fits && stp.1.len() > 0 {
            let b = stp.1.drop_last();
            let nb = st.1.drop_last();
            assert(nb =~= b + seq![' '] + w);
            assert(b.len() > 0 && !is_white_space(b[b.len() - 1]));
            assert forall|k: int|
                0 <= k < nb.len() && is_white_space(#[trigger] nb[k]) implies nb[k] == ' ' && 0 < k
                < nb.len() - 1 && !is_white_space(nb[k - 1]) && !is_white_space(nb[k + 1]) by {
                if k < b.len() {
                    assert(nb[k] == b[k]);
                    assert(b[k] == ' ' && 0 < k < b.len() - 1);
                    assert(nb[k - 1] == b[k - 1] && nb[k + 1] == b[k + 1]);
                } else if k == b.len() {
                    assert(nb[k - 1] == b[b.len() - 1]);
                    assert(nb[k + 1] == w[0]);
                } else {
                    assert(nb[k] == w[k - b.len() - 1]);
                }
            }
            assert(cl == clp);
        } else {
            let nb = st.1.drop_last();
            assert(nb =~= w);
            assert forall|k: int|
                0 <= k < nb.len() && is_white_space(#[trigger] nb[k]) implies nb[k] == ' ' && 0 < k
                < nb.len() - 1 && !is_white_space(nb[k - 1]) && !is_white_space(nb[k + 1]) by {
                assert(nb[k] == w[k]);
            }
            if !fits {
                let t = trim_end_of(stp.1);
                assert(cl == clp.push(t));
                if stp.1.len() > 0 {
                    lemma_open_line_close(stp.1);
                } else {
                    assert(t.len() == 0);
                }
                assert forall|j: int| 0 <= j < cl.len() implies single_spaced(#[trigger] cl[j]) by {
                    if j < clp.len() {
                        assert(cl[j] == clp[j]);
                    } else {
                        assert(cl[j] == t);
                    }
                }
            } else {
                assert(cl == clp);
            }
        }
    }
}

/// The lines of wrapped text are single-spaced: their words are separated by single spaces,
/// with no white space before the first word or after the last.
pub proof fn law_wrap_single_spaces(text: Seq<char>, width: int)
    ensures
        forall|j: int|
            0 <= j < lines_of(wrapped(text, width)).len() ==> single_spaced(
                #[trigger] lines_of(wrapped(text, width))[j],
            ),
{
    let ws = words_of(text);
    lemma_words_are_words(text);
    lemma_wrap_breaks(ws, width);
    lemma_wrap_spacing(ws, width);
    lemma_wrapped_lines(text, width);
    let st = wrap_words(ws, width);
    let ls = closed_lines(ws, width);
    let last = last_wrapped_line(text, width);
    if st.1.len() > 0 {
        lemma_open_line_close(st.1);
    } else {
        assert(last.len() == 0);
    }
    assert(single_spaced(last));
    let all = lines_of(wrapped(text, width));
    assert forall|j: int| 0 <= j < all.len() implies single_spaced(#[trigger] all[j]) by {
        if j < ls.len() {
            assert(all[j] == ls[j]);
        } else {
            assert(all[j] == last);
        }
    }
}

/// The index just after the last character of `s` that is not white space.
fn trim_end_len(s: &str) -> (r: usize)
    ensures
        r <= s@.len(),
        s@.take(r as int) == trim_end_of(s@),
{
    let mut i = s.unicode_len();
    proof {
        assert(s@.take(i as int) =~= s@);
    }
    while i > 0 && is_whitespace(s.get_char(i - 1))
        invariant
            i <= s@.len(),
            trim_end_of(s@.take(i as int)) == trim_end_of(s@),
        decreases i,
    {
        proof {
            assert(s@.take(i as int).drop_last() =~= s@.take(i - 1));
        }
        i = i - 1;
    }
    i
}

/// The text wrapped to lines of at most `width` bytes where its words allow: words are
/// separated by single spaces, and a word that does not fit on the current line (with a
/// space after it) begins a new one. A first word that does not fit leaves the first line
/// empty.
pub fn text_wrap(text: &str, width: usize) -> (r: String)
    ensures
        r@ == wrapped(text@, width as int),
{
    let nl = "\n";
    let sp = " ";
    proof {
        reveal_strlit("\n");
        reveal_strlit(" ");
    }
    let n = text.unicode_len();
    let mut result = String::new();
    let mut line = String::new();
    let mut i: usize = 0;
    let ghost mut done: Seq<Seq<char>> = seq![];
    proof {
        assert(text@.skip(0) =~= text@);
        assert(done + words_of(text@) =~= words_of(text@));
    }
    while i < n
        invariant
            n == text@.len(),
            i <= n,
            sp@ == seq![' '],
            nl@ == seq!['\n'],
            i == 0 || i == n || is_white_space(text@[i - 1]) || is_white_space(text@[i as int]),
            words_of(text@) == done + words_of(text@.skip(i as int)),
            (result@, line@) == wrap_words(done, width as int),
        decreases n - i,
    {
        let c = text.get_char(i);
        if is_whitespace(c) {
            proof {
                lemma_words_from(text@, i as int);
            }
            i = i + 1;
        } else {
            let start = i;
            while i < n && !is_whitespace(text.get_char(i))
                invariant
                    n == text@.len(),
                    start < n,
                    start <= i <= n,
                    forall|k: int| start <= k < i ==> !is_white_space(#[trigger] text@[k]),
                decreases n - i,
            {
                i = i + 1;
            }
            let word = text.substring_char(start, i);
            proof {
                if start > 0 {
                    assert(is_white_space(text@[start - 1]));
                }
                lemma_word_at(text@, start as int, i as int);
                assert(done + words_of(text@.skip(start as int)) =~= done.push(word@)
                    + words_of(text@.skip(i as int)));
                assert(done.push(word@).drop_last() =~= done);
            }
            let ghost st = wrap_words(done, width as int);
            let ghost next_st = wrap_step(st, word@, width as int);
            proof {
                assert(wrap_words(done.push(word@), width as int) == next_st);
            }
            let line_len = line.as_str().as_bytes().len();
            let word_len = word.as_bytes().len();
            if line_len < width && word_len <= width - line_len - 1 {
                line.append(word);
                line.append(sp);
                proof {
                    assert(line@ =~= next_st.1);
                }
            } else {
                let keep = trim_end_len(line.as_str());
                let trimmed = line.as_str().substring_char(0, keep);
                result.append(trimmed);
                result.append(nl);
                let mut next = String::new();
                next.append(word);
                next.append(sp);
                line = next;
                proof {
                    assert(line@ =~= next_st.1);
                    assert(result@ =~= next_st.0);
                }
            }
            proof {
                done = done.push(word@);
            }
        }
    }
    proof {
        assert(text@.skip(n as int) =~= Seq::<char>::empty());
        assert(done =~= words_of(text@));
    }
    if !line.as_str().is_empty() {
        let keep = trim_end_len(line.as_str());
        let trimmed = line.as_str().substring_char(0, keep);
        result.append(trimmed);
    }
    result
}

/// The UTF-16 code units of a character: one unit below U+10000, otherwise a surrogate
/// pair.
pub open spec fn utf16_units(c: char) -> Seq<u16> {
    let v = c as u32;
    if v < 0x10000 {
        seq![v as u16]
    } else {
        let w = (v - 0x10000) as u32;
        seq![(0xD800 + w / 0x400) as u16, (0xDC00 + w % 0x400) as u16]
    }
}

/// The UTF-16 encoding of a text.
pub open spec fn encode_utf16(s: Seq<char>) -> Seq<u16>
    decreases s.len(),
{
    if s.len() == 0 {
        seq![]
    } else {
        encode_utf16(s.drop_last()) + utf16_units(s.last())
    }
}

/// The UTF-16 encoding of a text, ended by a 0 unit.
pub fn into_utf16(s: &str) -> (r: Vec<u16>)
    ensures
        r@ == encode_utf16(s@).push(0),
{
    let n = s.unicode_len();
    let mut v: Vec<u16> = Vec::new();
    let mut i: usize = 0;
    while i < n
        invariant
            n == s@.len(),
            i <= n,
            v@ == encode_utf16(s@.take(i as int)),
        decreases n - i,
    {
        let c = s.get_char(i);
        let x = c as u32;
        proof {
            vstd::utf8::char_is_scalar(c);
            assert(s@.take(i + 1).drop_last() =~= s@.take(i as int));
        }
        if x < 0x10000 {
            v.push(x as u16);
        } else {
            let w = x - 0x10000;
            v.push((0xD800 + w / 0x400) as u16);
            v.push((0xDC00 + w % 0x400) as u16);
        }
        proof {
            assert(v@ =~= encode_utf16(s@.take(i + 1)));
        }
        i = i + 1;
    }
    proof {
        assert(s@.take(n as int) =~= s@);
    }
    v.push(0);
    v
}

/// Encoding a text begins with the units of its first character.
proof fn lemma_encode_front(s: Seq<char>)
    requires
        s.len() > 0,
    ensures
        encode_utf16(s) == utf16_units(s[0]) + encode_utf16(s.drop_first()),
    decreases s.len(),
{
    if s.len() > 1 {
        lemma_encode_front(s.drop_last());
        assert(s.drop_last().drop_first() =~= s.drop_first().drop_last());
        assert(s.drop_first().last() == s.last());
        assert(s.drop_last()[0] == s[0]);
    } else {
        assert(s.drop_last() =~= Seq::<char>::empty());
        assert(s.drop_first() =~= Seq::<char>::empty());
    }
}

/// The units of a character read back as that character, whatever follows them.
proof fn lemma_decode_units(c: char, rest: Seq<u16>)
    ensures
        decode_utf16(utf16_units(c) + rest) == seq![c] + decode_utf16(rest),
        forall|i: int| 0 <= i < utf16_units(c).len() ==> (c != '\0' ==> #[trigger] utf16_units(c)[i] != 0),
{
    let v = c as u32;
    vstd::utf8::char_is_scalar(c);
    vstd::utf8::char_u32_cast(c, v);
    let u = utf16_units(c) + rest;
    if v < 0x10000 {
        assert(u[0] == v as u16);
        assert(u.skip(1) =~= rest);
    } else {
        let w = (v - 0x10000) as u32;
        let hi = (0xD800 + w / 0x400) as u16;
        let lo = (0xDC00 + w % 0x400) as u16;
        assert(w <= 0xFFFFF);
        assert(w / 0x400 <= 0x3FF);
        assert(w % 0x400 < 0x400);
        assert(u[0] == hi && u[1] == lo);
        assert((hi - 0xD800) * 0x400 + (lo - 0xDC00) == w) by (nonlinear_arith)
            requires
                hi == 0xD800 + w / 0x400,
                lo == 0xDC00 + w % 0x400,
        ;
        assert(u.skip(2) =~= rest);
    }
}

/// Every unit of the encoding of a text without a NUL character is nonzero, and decoding
/// the encoding gives the text back.
proof fn lemma_decode_encode(s: Seq<char>)
    ensures
        decode_utf16(encode_utf16(s)) == s,
        (forall|k: int| 0 <= k < s.len() ==> s[k] != '\0') ==> (forall|i: int|
            0 <= i < encode_utf16(s).len() ==> #[trigger] encode_utf16(s)[i] != 0),
    decreases s.len(),
{
    if s.len() > 0 {
        lemma_encode_front(s);
        lemma_decode_encode(s.drop_first());
        lemma_decode_units(s[0], encode_utf16(s.drop_first()));
        assert(s =~= seq![s[0]] + s.drop_first());
        if forall|k: int| 0 <= k < s.len() ==> s[k] != '\0' {
            assert forall|k: int| 0 <= k < s.drop_first().len() implies s.drop_first()[k] != '\0' by {
                assert(s.drop_first()[k] == s[k + 1]);
            }
            let a = utf16_units(s[0]);
            let b = encode_utf16(s.drop_first());
            assert forall|i: int| 0 <= i < (a + b).len() implies #[trigger] (a + b)[i] != 0 by {
                if i < a.len() {
                    assert(a[i] != 0);
                } else {
                    assert(b[i - a.len()] != 0);
                }
            }
        }
    } else {
        assert(encode_utf16(s) =~= Seq::<u16>::empty());
    }
}

/// The first 0 of units that hold none before their end is at the end.
proof fn lemma_first_zero_at(u: Seq<u16>, n: int)
    requires
        0 <= n < u.len(),
        u[n] == 0,
        forall|i: int| 0 <= i < n ==> u[i] != 0,
    ensures
        first_zero(u) == n,
    decreases n,
{
    if n > 0 {
        assert forall|i: int| 0 <= i < n - 1 implies u.drop_first()[i] != 0 by {
            assert(u.drop_first()[i] == u[i + 1]);
        }
        lemma_first_zero_at(u.drop_first(), n - 1);
    }
}

/// Decoding the units that [`into_utf16`] gives back with [`from_utf16`] gives the text,
/// when it has no NUL character and at most 256 units.
pub proof fn law_utf16_round_trip(s: Seq<char>)
    requires
        forall|k: int| 0 <= k < s.len() ==> s[k] != '\0',
        encode_utf16(s).len() <= 256,
    ensures
        decode_utf16(terminated_units(encode_utf16(s).push(0))) == s,
{
    lemma_decode_encode(s);
    let e = encode_utf16(s);
    let u = e.push(0);
    lemma_first_zero_at(u, e.len() as int);
    assert(u.take(e.len() as int) =~= e);
}

/// The character with the code `v`, if `v` is one (`char::from_u32`): below U+D800, or
/// from U+E000 to U+10FFFF.
#[verifier::external_body]
fn char_from_u32(v: u32) -> (r: Option<char>)
    ensures
        (v < 0xD800 || (0xE000 <= v && v <= 0x10FFFF)) ==> r == Some(v as char),
        !(v < 0xD800 || (0xE000 <= v && v <= 0x10FFFF)) ==> r is None,
{
    char::from_u32(v)
}

/// Whether a UTF-16 unit is the first of a surrogate pair.
pub open spec fn is_high_surrogate(u: u16) -> bool {
    0xD800 <= u && u <= 0xDBFF
}

/// Whether a UTF-16 unit is the second of a surrogate pair.
pub open spec fn is_low_surrogate(u: u16) -> bool {
    0xDC00 <= u && u <= 0xDFFF
}

/// The text that UTF-16 units stand for, read from the front: a unit outside the
/// surrogates is its own character, a high surrogate followed by a low one is the character
/// of the pair, and any other surrogate is the replacement character U+FFFD.
pub open spec fn decode_utf16(u: Seq<u16>) -> Seq<char>
    decreases u.len(),
{
    if u.len() == 0 {
        seq![]
    } else if u[0] < 0xD800 || u[0] > 0xDFFF {
        seq![u[0] as char] + decode_utf16(u.skip(1))
    } else if is_high_surrogate(u[0]) && u.len() >= 2 && is_low_surrogate(u[1]) {
        seq![(0x10000 + (u[0] - 0xD800) * 0x400 + (u[1] - 0xDC00)) as char] + decode_utf16(
            u.skip(2),
        )
    } else {
        seq!['\u{FFFD}'] + decode_utf16(u.skip(1))
    }
}

/// The units that [`from_utf16`] reads: up to the first 0 unit, and at most 256.
pub open spec fn terminated_units(u: Seq<u16>) -> Seq<u16> {
    let n = first_zero(u);
    u.take(if n < 256 { n } else { 256 })
}

/// Index of the first 0 in `u`, or `u.len()`.
pub open spec fn first_zero(u: Seq<u16>) -> int
    decreases u.len(),
{
    if u.len() == 0 {
        0
    } else if u[0] == 0 {
        0
    } else {
        1 + first_zero(u.drop_first())
    }
}

/// The text of the UTF-16 units before the first 0 unit, at most 256 of them; unpaired
/// surrogates become U+FFFD.
pub fn from_utf16(units: &[u16]) -> (r: String)
    ensures
        r@ == decode_utf16(terminated_units(units@)),
{
    let mut n: usize = 0;
    let ghost mut k: int = 0;
    proof {
        assert(units@.skip(0) =~= units@);
    }
    while n < units.len() && units[n] != 0
        invariant
            n <= units@.len(),
            k == n,
            first_zero(units@) == k + first_zero(units@.skip(k)),
        decreases units@.len() - n,
    {
        proof {
            assert(units@.skip(k).drop_first() =~= units@.skip(k + 1));
            k = k + 1;
        }
        n = n + 1;
    }
    proof {
        assert(first_zero(units@.skip(k)) == 0);
    }
    let len = if n < 256 {
        n
    } else {
        256
    };
    let mut out = String::new();
    let mut i: usize = 0;
    let ghost all = units@.take(len as int);
    proof {
        assert(all == terminated_units(units@));
        assert(all.skip(0) =~= all);
    }
    while i < len
        invariant
            len <= units@.len(),
            all == units@.take(len as int),
            i <= len,
            decode_utf16(all) == out@ + decode_utf16(all.skip(i as int)),
        decreases len - i,
    {
        let ghost rest = all.skip(i as int);
        let u = units[i];
        assert(rest[0] == u);
        let v = u as u32;
        if u < 0xD800 || u > 0xDFFF {
            let c = char_from_u32(v);
            match c {
                Some(ch) => string_push(&mut out, ch),
                None => {},
            }
            proof {
                assert(rest.skip(1) =~= all.skip(i + 1));
            }
            i = i + 1;
        } else if u <= 0xDBFF && i + 1 < len && 0xDC00 <= units[i + 1] && units[i + 1] <= 0xDFFF {
            let w = units[i + 1] as u32;
            assert(rest[1] == units[i + 1]);
            let code = 0x10000 + (v - 0xD800) * 0x400 + (w - 0xDC00);
            let c = char_from_u32(code);
            match c {
                Some(ch) => string_push(&mut out, ch),
                None => {},
            }
            proof {
                assert(rest.skip(2) =~= all.skip(i + 2));
            }
            i = i + 2;
        } else {
            string_push(&mut out, '\u{FFFD}');
            proof {
                assert(rest.skip(1) =~= all.skip(i + 1));
            }
            i = i + 1;
        }
    }
    proof {
        assert(all.skip(len as int) =~= Seq::<u16>::empty());
    }
    out
}

} // verus!
