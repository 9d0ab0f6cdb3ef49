//! The mathematical model of a path: the components that a path string
//! denotes, each with the stretch of characters that it was read from.
use vstd::prelude::*;

verus! {

/// What a component of a path is, independently of where it was read from.
pub enum ComponentView {
    RootDir,
    CurDir,
    ParentDir,
    Normal(Seq<char>),
}

/// The text of a component.
pub open spec fn component_text(c: ComponentView) -> Seq<char> {
    match c {
        ComponentView::RootDir => seq!['/'],
        ComponentView::CurDir => seq!['.'],
        ComponentView::ParentDir => seq!['.', '.'],
        ComponentView::Normal(s) => s,
    }
}

/// Every span of `spans` lies inside `s`, holds the text of its component, and the
/// spans follow each other from left to right.
pub open spec fn spans_fit(s: Seq<char>, spans: Seq<Span>) -> bool {
    &&& forall|j: int|
        0 <= j < spans.len() ==> 0 <= #[trigger] spans[j].start <= spans[j].end <= s.len()
            && s.subrange(spans[j].start, spans[j].end) == component_text(spans[j].comp)
    &&& forall|j: int| 0 < j < spans.len() ==> spans[j - 1].end <= #[trigger] spans[j].start
}

/// A component together with the characters `[start, end)` of the path that it stands for.
pub ghost struct Span {
    pub comp: ComponentView,
    pub start: int,
    pub end: int,
}

/// Index of the first separator in `s`, or `s.len()` when there is none.
pub open spec fn first_sep(s: Seq<char>) -> int
    decreases s.len(),
{
    if s.len() == 0 {
        0
    } else if s[0] == '/' {
        0
    } else {
        1 + first_sep(s.drop_first())
    }
}

/// Index of the last separator in `s`, or `-1` when there is none.
pub open spec fn last_sep(s: Seq<char>) -> int
    decreases s.len(),
{
    if s.len() == 0 {
        -1
    } else if s.last() == '/' {
        s.len() - 1
    } else {
        last_sep(s.drop_last())
    }
}

/// Whether `s` holds a separator.
pub open spec fn has_sep(s: Seq<char>) -> bool {
    exists|k: int| 0 <= k < s.len() && s[k] == '/'
}

/// A piece between separators that the component parser skips: an empty piece or `.`.
pub open spec fn is_skipped_piece(piece: Seq<char>) -> bool {
    piece.len() == 0 || piece == seq!['.']
}

/// The component that a piece between two separators denotes, if any.
pub open spec fn piece_comp(piece: Seq<char>) -> Option<ComponentView> {
    if is_skipped_piece(piece) {
        None
    } else if piece == seq!['.', '.'] {
        Some(ComponentView::ParentDir)
    } else {
        Some(ComponentView::Normal(piece))
    }
}

/// The component that a piece between two separators denotes, placed at offset `at`.
pub open spec fn piece_spans(piece: Seq<char>, at: int) -> Seq<Span> {
    match piece_comp(piece) {
        None => seq![],
        Some(c) => seq![Span { comp: c, start: at, end: at + piece.len() }],
    }
}

/// The components of the body of a path (the part after any root or leading `.`):
/// the pieces between separators, without empty pieces and `.`, each placed at its
/// offset (`at` is the offset of `s` itself).
pub open spec fn body_spans(s: Seq<char>, at: int) -> Seq<Span>
    decreases s.len(),
{
    if s.len() == 0 {
        seq![]
    } else {
        let i = first_sep(s);
        if 0 <= i < s.len() {
            piece_spans(s.take(i), at) + body_spans(s.skip(i + 1), at + i + 1)
        } else {
            piece_spans(s, at)
        }
    }
}

/// The path begins with the root `/`.
pub open spec fn starts_with_root(s: Seq<char>) -> bool {
    s.len() > 0 && s[0] == '/'
}

/// The path is relative and begins with a `.` piece, which is kept as a `CurDir` component.
pub open spec fn starts_with_cur_dir(s: Seq<char>) -> bool {
    !starts_with_root(s) && s.len() > 0 && s[0] == '.' && (s.len() == 1 || s[1] == '/')
}

/// Number of characters taken by the leading root or `.` component.
pub open spec fn prefix_len(s: Seq<char>) -> int {
    if starts_with_root(s) || starts_with_cur_dir(s) {
        1
    } else {
        0
    }
}

/// The leading root or `.` component of a path, if any.
pub open spec fn prefix_spans(s: Seq<char>) -> Seq<Span> {
    if starts_with_root(s) {
        seq![Span { comp: ComponentView::RootDir, start: 0, end: 1 }]
    } else if starts_with_cur_dir(s) {
        seq![Span { comp: ComponentView::CurDir, start: 0, end: 1 }]
    } else {
        seq![]
    }
}

/// All components of the path `s`, each with the characters it was read from.
pub open spec fn component_spans(s: Seq<char>) -> Seq<Span> {
    prefix_spans(s) + body_spans(s.skip(prefix_len(s)), prefix_len(s))
}

/// The components of a span sequence.
pub open spec fn comps_of(spans: Seq<Span>) -> Seq<ComponentView> {
    spans.map_values(|sp: Span| sp.comp)
}

/// The components of the path `s`: a root `/` or a leading `.`, then the pieces between
/// separators, where empty pieces and `.` are left out and `..` is `ParentDir`.
pub open spec fn components(s: Seq<char>) -> Seq<ComponentView> {
    comps_of(component_spans(s))
}

/// `a` is a leading part of `b`.
pub open spec fn is_prefix_of(a: Seq<ComponentView>, b: Seq<ComponentView>) -> bool {
    a.len() <= b.len() && b.take(a.len() as int) == a
}

/// `a` is a trailing part of `b`.
pub open spec fn is_suffix_of(a: Seq<ComponentView>, b: Seq<ComponentView>) -> bool {
    a.len() <= b.len() && b.skip(b.len() - a.len()) == a
}

/// The characters of `s` from the start of the first span to the end of the last,
/// or nothing when there is no span.
pub open spec fn span_text(s: Seq<char>, spans: Seq<Span>) -> Seq<char> {
    if spans.len() == 0 {
        seq![]
    } else {
        s.subrange(spans[0].start, spans.last().end)
    }
}

/// The path without its final component, if that component is not the root:
/// the text of all components but the last.
pub open spec fn parent_text(s: Seq<char>) -> Option<Seq<char>> {
    let cs = component_spans(s);
    if cs.len() == 0 || cs.last().comp == ComponentView::RootDir {
        None
    } else {
        Some(span_text(s, cs.drop_last()))
    }
}

/// The final component of the path, if it is a normal component.
pub open spec fn file_name_of(s: Seq<char>) -> Option<Seq<char>> {
    let cs = components(s);
    if cs.len() == 0 {
        None
    } else {
        match cs.last() {
            ComponentView::Normal(n) => Some(n),
            _ => None,
        }
    }
}

/// What is left of `s` once the components of `base` are taken from its front,
/// if they are a leading part of the components of `s`.
pub open spec fn strip_prefix_text(s: Seq<char>, base: Seq<char>) -> Option<Seq<char>> {
    if is_prefix_of(components(base), components(s)) {
        Some(span_text(s, component_spans(s).skip(components(base).len() as int)))
    } else {
        None
    }
}

/// Index of the last `.` in `s`, or `-1`.
pub open spec fn last_dot(s: Seq<char>) -> int
    decreases s.len(),
{
    if s.len() == 0 {
        -1
    } else if s.last() == '.' {
        s.len() - 1
    } else {
        last_dot(s.drop_last())
    }
}

/// The stem of a file name: the whole name if it is `..`, holds no `.` or only a
/// leading one; otherwise the part before the last `.`.
pub open spec fn stem_of(name: Seq<char>) -> Seq<char> {
    if name == seq!['.', '.'] || last_dot(name) <= 0 {
        name
    } else {
        name.take(last_dot(name))
    }
}

/// The extension of a file name: the part after the last `.`, unless the name is `..`,
/// holds no `.` or only a leading one.
pub open spec fn extension_of(name: Seq<char>) -> Option<Seq<char>> {
    if name == seq!['.', '.'] || last_dot(name) <= 0 {
        None
    } else {
        Some(name.skip(last_dot(name) + 1))
    }
}

/// `a` with `b` adjoined: `b` replaces `a` when `b` is absolute, otherwise a separator is
/// put between them when `a` is not empty and does not already end in one.
pub open spec fn push_text(a: Seq<char>, b: Seq<char>) -> Seq<char> {
    if starts_with_root(b) {
        b
    } else if a.len() > 0 && a.last() != '/' {
        a + seq!['/'] + b
    } else {
        a + b
    }
}

/// One step of making a path absolute: the root and normal components are adjoined,
/// `.` is dropped and `..` goes to the parent, if there is one.
pub open spec fn absolute_step(acc: Seq<char>, c: ComponentView) -> Seq<char> {
    match c {
        ComponentView::RootDir => push_text(acc, seq!['/']),
        ComponentView::CurDir => acc,
        ComponentView::ParentDir => match parent_text(acc) {
            Some(p) => p,
            None => acc,
        },
        ComponentView::Normal(n) => push_text(acc, n),
    }
}

/// The path built from the empty path by [`absolute_step`] for each of `cs` in turn.
pub open spec fn absolute_fold(cs: Seq<ComponentView>) -> Seq<char>
    decreases cs.len(),
{
    if cs.len() == 0 {
        seq![]
    } else {
        absolute_step(absolute_fold(cs.drop_last()), cs.last())
    }
}

/// `path` made absolute against the working directory `cwd`: an error (`None`) for an
/// empty path; an absolute path as it is; otherwise `cwd` joined with `path`, with `.`
/// and `..` resolved.
pub open spec fn absolute_text(path: Seq<char>, cwd: Seq<char>) -> Option<Seq<char>> {
    if path.len() == 0 {
        None
    } else if starts_with_root(path) {
        Some(path)
    } else {
        Some(absolute_fold(components(push_text(cwd, path))))
    }
}

// ---------------------------------------------------------------------------------------------
// Lemmas
// ---------------------------------------------------------------------------------------------

pub proof fn lemma_comps_of_skip(sp: Seq<Span>, k: int)
    requires
        0 <= k <= sp.len(),
    ensures
        comps_of(sp.skip(k)) == comps_of(sp).skip(k),
        comps_of(sp.take(k)) == comps_of(sp).take(k),
{
    assert(comps_of(sp.skip(k)) =~= comps_of(sp).skip(k));
    assert(comps_of(sp.take(k)) =~= comps_of(sp).take(k));
}

pub proof fn lemma_first_sep(s: Seq<char>)
    ensures
        0 <= first_sep(s) <= s.len(),
        first_sep(s) < s.len() ==> s[first_sep(s)] == '/',
        forall|k: int| 0 <= k < first_sep(s) ==> s[k] != '/',
        first_sep(s) == s.len() <==> !has_sep(s),
    decreases s.len(),
{
    if s.len() > 0 && s[0] != '/' {
        lemma_first_sep(s.drop_first());
        assert forall|k: int| 0 <= k < first_sep(s) implies s[k] != '/' by {
            if k > 0 {
                assert(s[k] == s.drop_first()[k - 1]);
            }
        }
        if has_sep(s) {
            let k = choose|k: int| 0 <= k < s.len() && s[k] == '/';
            assert(s.drop_first()[k - 1] == '/');
        }
        if has_sep(s.drop_first()) {
            let k = choose|k: int| 0 <= k < s.drop_first().len() && s.drop_first()[k] == '/';
            assert(s[k + 1] == '/');
        }
    } else if s.len() > 0 {
        assert(has_sep(s));
    }
}

pub proof fn lemma_first_sep_unique(s: Seq<char>, i: int)
    requires
        0 <= i <= s.len(),
        i < s.len() ==> s[i] == '/',
        forall|k: int| 0 <= k < i ==> s[k] != '/',
    ensures
        first_sep(s) == i,
{
    lemma_first_sep(s);
}

pub proof fn lemma_last_sep_unique(s: Seq<char>, j: int)
    requires
        -1 <= j < s.len(),
        j >= 0 ==> s[j] == '/',
        forall|k: int| j < k < s.len() ==> s[k] != '/',
    ensures
        last_sep(s) == j,
{
    lemma_last_sep(s);
}

pub proof fn lemma_last_dot(s: Seq<char>)
    ensures
        -1 <= last_dot(s) < s.len(),
        last_dot(s) >= 0 ==> s[last_dot(s)] == '.',
        forall|k: int| last_dot(s) < k < s.len() ==> s[k] != '.',
    decreases s.len(),
{
    if s.len() > 0 && s.last() != '.' {
        lemma_last_dot(s.drop_last());
        assert forall|k: int| last_dot(s) < k < s.len() implies s[k] != '.' by {
            if k < s.len() - 1 {
                assert(s[k] == s.drop_last()[k]);
            }
        }
    }
}

pub proof fn lemma_last_dot_unique(s: Seq<char>, j: int)
    requires
        -1 <= j < s.len(),
        j >= 0 ==> s[j] == '.',
        forall|k: int| j < k < s.len() ==> s[k] != '.',
    ensures
        last_dot(s) == j,
{
    lemma_last_dot(s);
}

pub proof fn lemma_last_sep(s: Seq<char>)
    ensures
        -1 <= last_sep(s) < s.len(),
        last_sep(s) >= 0 ==> s[last_sep(s)] == '/',
        forall|k: int| last_sep(s) < k < s.len() ==> s[k] != '/',
        last_sep(s) == -1 <==> !has_sep(s),
    decreases s.len(),
{
    if s.len() > 0 && s.last() != '/' {
        lemma_last_sep(s.drop_last());
        assert forall|k: int| last_sep(s) < k < s.len() implies s[k] != '/' by {
            if k < s.len() - 1 {
                assert(s[k] == s.drop_last()[k]);
            }
        }
        if has_sep(s) {
            let k = choose|k: int| 0 <= k < s.len() && s[k] == '/';
            assert(s.drop_last()[k] == '/');
        }
        if has_sep(s.drop_last()) {
            let k = choose|k: int| 0 <= k < s.drop_last().len() && s.drop_last()[k] == '/';
            assert(s[k] == '/');
        }
    } else if s.len() > 0 {
        assert(s[s.len() - 1] == '/');
    }
}

/// A string without separators is a single piece.
pub proof fn lemma_body_no_sep(s: Seq<char>, at: int)
    requires
        !has_sep(s),
    ensures
        body_spans(s, at) == piece_spans(s, at),
{
    lemma_first_sep(s);
    if s.len() == 0 {
        assert(is_skipped_piece(s));
    }
}

/// The body of `a/b` is the body of `a` followed by the body of `b`.
pub proof fn lemma_body_concat(a: Seq<char>, b: Seq<char>, at: int)
    ensures
        body_spans(a + seq!['/'] + b, at) == body_spans(a, at) + body_spans(b, at + a.len() + 1),
    decreases a.len(),
{
    let s = a + seq!['/'] + b;
    lemma_first_sep(s);
    lemma_first_sep(a);
    let i = first_sep(a);
    if i == a.len() {
        // the first separator of `s` is the one between `a` and `b`
        assert(s[a.len() as int] == '/');
        assert forall|k: int| 0 <= k < a.len() implies s[k] != '/' by {
            assert(s[k] == a[k]);
        }
        assert(first_sep(s) == a.len());
        assert(s.take(i) == a);
        assert(s.skip(i + 1) == b);
        lemma_body_no_sep(a, at);
        if a.len() == 0 {
            assert(is_skipped_piece(a));
        }
    } else {
        assert(s[i] == a[i]);
        assert forall|k: int| 0 <= k < i implies s[k] != '/' by {
            assert(s[k] == a[k]);
        }
        assert(first_sep(s) == i);
        assert(s.take(i) == a.take(i));
        let a2 = a.skip(i + 1);
        assert(s.skip(i + 1) == a2 + seq!['/'] + b);
        lemma_body_concat(a2, b, at + i + 1);
    }
}

/// The body spans of a piece of `s` that begins at `at` fit in `s`, are body components,
/// and are apart from each other by at least a separator.
pub proof fn lemma_body_spans_fit(s: Seq<char>, t: Seq<char>, at: int)
    requires
        0 <= at,
        at + t.len() <= s.len(),
        t == s.subrange(at, at + t.len()),
    ensures
        spans_fit(s, body_spans(t, at)),
        forall|j: int|
            0 <= j < body_spans(t, at).len() ==> at <= #[trigger] body_spans(t, at)[j].start
                && body_spans(t, at)[j].end <= at + t.len() && body_spans(t, at)[j].start
                < body_spans(t, at)[j].end && body_spans(t, at)[j].comp != ComponentView::RootDir
                && body_spans(t, at)[j].comp != ComponentView::CurDir,
        forall|j: int|
            0 < j < body_spans(t, at).len() ==> body_spans(t, at)[j - 1].end < #[trigger] body_spans(
                t,
                at,
            )[j].start,
    decreases t.len(),
{
    if t.len() > 0 {
        lemma_first_sep(t);
        let i = first_sep(t);
        let piece = if i < t.len() { t.take(i) } else { t };
        let ps = piece_spans(piece, at);
        assert(piece == s.subrange(at, at + piece.len()));
        if ps.len() > 0 {
            assert(piece.len() > 0);
            if piece == seq!['.', '.'] {
                assert(component_text(ps[0].comp) == piece);
            }
        }
        if i < t.len() {
            let rest = t.skip(i + 1);
            assert(rest == s.subrange(at + i + 1, at + i + 1 + rest.len()));
            lemma_body_spans_fit(s, rest, at + i + 1);
            let bs = body_spans(rest, at + i + 1);
            assert(body_spans(t, at) == ps + bs);
        } else {
            assert(body_spans(t, at) == ps);
        }
    }
}

/// The spans of all components of `s` fit in `s`.
pub proof fn lemma_component_spans_fit(s: Seq<char>)
    ensures
        spans_fit(s, component_spans(s)),
        component_spans(s).len() > 0 ==> component_spans(s)[0].start == 0,
        forall|j: int|
            0 < j < component_spans(s).len() ==> #[trigger] component_spans(s)[j].comp
                != ComponentView::RootDir && component_spans(s)[j].comp != ComponentView::CurDir,
        forall|j: int|
            0 <= j < component_spans(s).len() ==> #[trigger] component_spans(s)[j].start < component_spans(
                s,
            )[j].end,
{
    let pl = prefix_len(s);
    let t = s.skip(pl);
    assert(t == s.subrange(pl, pl + t.len()));
    lemma_body_spans_fit(s, t, pl);
    let pre = prefix_spans(s);
    let bs = body_spans(t, pl);
    assert(component_spans(s) == pre + bs);
    if pre.len() > 0 {
        assert(s.subrange(0, 1) == seq![s[0]]);
    }
    assert forall|j: int| 0 < j < component_spans(s).len() implies #[trigger] component_spans(
        s,
    )[j].comp != ComponentView::RootDir && component_spans(s)[j].comp != ComponentView::CurDir by {
        if pre.len() > 0 {
            assert(bs[j - 1].start >= pl);
            assert(component_spans(s)[j] == bs[j - 1]);
        } else {
            assert(bs[j].start >= pl);
            assert(component_spans(s)[j] == bs[j]);
        }
    }
    if pl == 0 && s.len() > 0 {
        lemma_first_sep(s);
        assert(s[0] != '/');
        assert(t == s);
        let i = first_sep(s);
        assert(s.take(i).len() > 0);
        if s.take(i) == seq!['.'] {
            assert(s[0] == '.');
            assert(i == 1);
        }
        assert(bs[0].start == 0);
    }
}

/// Splitting at the last separator: the last piece is read last.
pub proof fn lemma_body_split_last(s: Seq<char>, at: int)
    requires
        has_sep(s),
    ensures
        body_spans(s, at) == body_spans(s.take(last_sep(s)), at) + piece_spans(
            s.skip(last_sep(s) + 1),
            at + last_sep(s) + 1,
        ),
{
    lemma_last_sep(s);
    let j = last_sep(s);
    let a = s.take(j);
    let b = s.skip(j + 1);
    assert(s == a + seq!['/'] + b);
    lemma_body_concat(a, b, at);
    assert forall|k: int| 0 <= k < b.len() implies b[k] != '/' by {
        assert(b[k] == s[j + 1 + k]);
    }
    lemma_body_no_sep(b, at + j + 1);
}

} // verus!
