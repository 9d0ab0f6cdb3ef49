//! Parsing a path into its components, from the front and from the back.
use vstd::prelude::*;
use vstd::string::*;

use super::model::{
    body_spans, component_text, comps_of, component_spans, first_sep, last_sep,
    lemma_body_no_sep, lemma_body_split_last, lemma_first_sep, lemma_first_sep_unique,
    lemma_last_sep, lemma_last_sep_unique, piece_comp, piece_spans, starts_with_cur_dir,
    starts_with_root, ComponentView, Span,
};
use super::Path;

verus! {

/// The components left after one call on `cs`: the first taken off by a call from the
/// front ([`Components::next`]), the last by a call from the back
/// ([`Components::next_back`]), none when none is left.
pub open spec fn after_call(cs: Seq<ComponentView>, from_back: bool) -> Seq<ComponentView> {
    if cs.len() == 0 {
        cs
    } else if from_back {
        cs.drop_last()
    } else {
        cs.drop_first()
    }
}

/// What one call on `cs` returns.
pub open spec fn call_result(cs: Seq<ComponentView>, from_back: bool) -> Option<ComponentView> {
    if cs.len() == 0 {
        None
    } else if from_back {
        Some(cs.last())
    } else {
        Some(cs[0])
    }
}


/// A single component of a path: a substring between separators (`/`).
#[derive(Debug, Clone, Copy, PartialEq, Eq)]
pub enum Component<'a> {
    /// The root directory `/`, only ever the first component.
    RootDir,
    /// The current directory `.`, only ever the first component of a relative path.
    CurDir,
    /// The parent directory `..`.
    ParentDir,
    /// A normal component, such as `a` and `b` in `a/b`.
    Normal(&'a str),
}

impl<'a> View for Component<'a> {
    type V = ComponentView;

    open spec fn view(&self) -> ComponentView {
        match self {
            Component::RootDir => ComponentView::RootDir,
            Component::CurDir => ComponentView::CurDir,
            Component::ParentDir => ComponentView::ParentDir,
            Component::Normal(s) => ComponentView::Normal(s@),
        }
    }
}

impl<'a> Component<'a> {
    /// The underlying string of the component.
    pub fn as_str(self) -> (r: &'a str)
        ensures
            r@ == component_text(self@),
    {
        match self {
            Component::RootDir => {
                let r = "/";
                proof {
                    reveal_strlit("/");
                }
                r
            },
            Component::CurDir => {
                let r = ".";
                proof {
                    reveal_strlit(".");
                }
                r
            },
            Component::ParentDir => {
                let r = "..";
                proof {
                    reveal_strlit("..");
                }
                r
            },
            Component::Normal(s) => s,
        }
    }
}

/// Whether two strings hold the same characters.
pub fn str_eq(a: &str, b: &str) -> (r: bool)
    ensures
        r == (a@ == b@),
{
    let n = a.unicode_len();
    if n != b.unicode_len() {
        return false;
    }
    let mut i: usize = 0;
    while i < n
        invariant
            n == a@.len(),
            n == b@.len(),
            0 <= i <= n,
            forall|k: int| 0 <= k < i ==> a@[k] == b@[k],
        decreases n - i,
    {
        if a.get_char(i) != b.get_char(i) {
            return false;
        }
        i = i + 1;
    }
    assert(a@ == b@);
    true
}

/// Whether two components are the same component.
pub fn same_component(a: Component<'_>, b: Component<'_>) -> (r: bool)
    ensures
        r == (a@ == b@),
{
    match (a, b) {
        (Component::RootDir, Component::RootDir) => true,
        (Component::CurDir, Component::CurDir) => true,
        (Component::ParentDir, Component::ParentDir) => true,
        (Component::Normal(x), Component::Normal(y)) => str_eq(x, y),
        _ => false,
    }
}

/// Index of the first separator of `s`, or its length.
fn find_first_sep(s: &str) -> (r: usize)
    ensures
        r == first_sep(s@),
{
    let n = s.unicode_len();
    let mut i: usize = 0;
    while i < n && s.get_char(i) != '/'
        invariant
            n == s@.len(),
            0 <= i <= n,
            forall|k: int| 0 <= k < i ==> s@[k] != '/',
        decreases n - i,
    {
        i = i + 1;
    }
    proof {
        lemma_first_sep_unique(s@, i as int);
    }
    i
}

/// Index of the last separator of `s`, or `None`.
fn find_last_sep(s: &str) -> (r: Option<usize>)
    ensures
        r is None ==> last_sep(s@) == -1,
        r matches Some(j) ==> last_sep(s@) == j,
{
    let n = s.unicode_len();
    let mut i: usize = n;
    while i > 0 && s.get_char(i - 1) != '/'
        invariant
            n == s@.len(),
            0 <= i <= n,
            forall|k: int| i <= k < n ==> s@[k] != '/',
        decreases i,
    {
        i = i - 1;
    }
    if i == 0 {
        proof {
            lemma_last_sep_unique(s@, -1);
        }
        None
    } else {
        proof {
            lemma_last_sep_unique(s@, i - 1);
        }
        Some(i - 1)
    }
}

/// Whether `path` begins with a separator.
pub fn has_physical_root(path: &str) -> (r: bool)
    ensures
        r == starts_with_root(path@),
{
    path.unicode_len() > 0 && path.get_char(0) == '/'
}

/// Parses a piece between separators: `.` and the empty piece are skipped,
/// `..` is the parent directory, anything else a normal component.
fn parse_single_component<'b>(comp: &'b str) -> (r: Option<Component<'b>>)
    ensures
        r is None <==> piece_comp(comp@) is None,
        r matches Some(c) ==> piece_comp(comp@) == Some(c@),
{
    let n = comp.unicode_len();
    if n == 0 {
        None
    } else if n == 1 && comp.get_char(0) == '.' {
        assert(comp@ == seq!['.']);
        None
    } else if n == 2 && comp.get_char(0) == '.' && comp.get_char(1) == '.' {
        assert(comp@ == seq!['.', '.']);
        Some(Component::ParentDir)
    } else {
        assert(comp@ != seq!['.']);
        assert(comp@ != seq!['.', '.']);
        Some(Component::Normal(comp))
    }
}

/// Where the two ends of the component iterator stand.
#[derive(Debug, Clone, Copy, PartialEq, Eq, Structural)]
pub enum State {
    /// Nothing consumed yet.
    Prefix,
    /// The leading root or `.` is next.
    StartDir,
    /// Normal components are next.
    Body,
    /// Nothing left.
    Done,
}

/// The order of the states: `Prefix < StartDir < Body < Done`.
pub open spec fn rank(s: State) -> int {
    match s {
        State::Prefix => 0,
        State::StartDir => 1,
        State::Body => 2,
        State::Done => 3,
    }
}

fn rank_exec(s: State) -> (r: u8)
    ensures
        r == rank(s),
{
    match s {
        State::Prefix => 0,
        State::StartDir => 1,
        State::Body => 2,
        State::Done => 3,
    }
}

/// The leading root or `.` component of `p`, placed at offset `st`.
pub open spec fn prefix_at(p: Seq<char>, st: int) -> Seq<Span> {
    if starts_with_root(p) {
        seq![Span { comp: ComponentView::RootDir, start: st, end: st + 1 }]
    } else if starts_with_cur_dir(p) {
        seq![Span { comp: ComponentView::CurDir, start: st, end: st + 1 }]
    } else {
        seq![]
    }
}

/// An iterator over the components of a path, from the front and from the back.
#[derive(Clone, Copy)]
pub struct Components<'a> {
    /// The part of the path left to parse.
    path: &'a str,
    /// Whether the whole path begins with `/`.
    has_physical_root: bool,
    front: State,
    back: State,
    /// The whole path being parsed.
    whole: Ghost<Seq<char>>,
    /// Where `path` begins inside the whole path.
    start: Ghost<int>,
}

impl<'a> Components<'a> {
    /// The whole path that this iterator parses.
    pub closed spec fn whole(&self) -> Seq<char> {
        self.whole@
    }

    closed spec fn finished_spec(&self) -> bool {
        self.front == State::Done || self.back == State::Done || rank(self.front) > rank(
            self.back,
        )
    }

    /// Length of the leading root or `.` still to be read from the front.
    closed spec fn lbb_spec(&self) -> int {
        if rank(self.front) <= 1 && (self.has_physical_root || starts_with_cur_dir(self.path@)) {
            1
        } else {
            0
        }
    }

    /// The components left, each with its place in the whole path.
    pub closed spec fn spans(&self) -> Seq<Span> {
        if self.finished_spec() {
            seq![]
        } else {
            let p = self.path@;
            let st = self.start@;
            let lbb = self.lbb_spec();
            let pre = if rank(self.front) <= 1 && rank(self.back) >= 1 {
                if self.has_physical_root {
                    seq![Span { comp: ComponentView::RootDir, start: st, end: st + 1 }]
                } else if starts_with_cur_dir(p) {
                    seq![Span { comp: ComponentView::CurDir, start: st, end: st + 1 }]
                } else {
                    seq![]
                }
            } else {
                seq![]
            };
            let body = if self.back == State::Body {
                body_spans(p.skip(lbb), st + lbb)
            } else {
                seq![]
            };
            pre + body
        }
    }

    /// The components left.
    pub open spec fn comps(&self) -> Seq<ComponentView> {
        comps_of(self.spans())
    }

    /// The invariant of the iterator.
    pub closed spec fn wf(&self) -> bool {
        let p = self.path@;
        let w = self.whole@;
        let st = self.start@;
        &&& self.has_physical_root == starts_with_root(w)
        &&& 0 <= st && st + p.len() <= w.len()
        &&& p == w.subrange(st, st + p.len())
        &&& rank(self.front) <= 1 ==> st == 0
        &&& (rank(self.front) <= 1 && 1 <= rank(self.back) <= 2) ==> (self.has_physical_root
            <==> starts_with_root(p))
        &&& (rank(self.front) <= 1 && self.back == State::StartDir) ==> p.len() == self.lbb_spec()
        &&& (rank(self.front) <= 1 && self.back == State::Prefix) ==> p.len() == 0
        &&& self.finished_spec() ==> p.len() == 0
    }

    /// The string that the remaining components were read from: from the start of the
    /// first of them to the end of the last, or empty when none is left.
    pub open spec fn rest_text(&self) -> Seq<char> {
        if self.spans().len() == 0 {
            seq![]
        } else {
            self.whole().subrange(self.spans()[0].start, self.spans().last().end)
        }
    }

    /// A fresh iterator over all components of `p`.
    pub fn new(p: &'a str) -> (r: Components<'a>)
        ensures
            r.wf(),
            r.whole() == p@,
            r.spans() == component_spans(p@),
    {
        let r = Components {
            path: p,
            has_physical_root: has_physical_root(p),
            front: State::Prefix,
            back: State::Body,
            whole: Ghost(p@),
            start: Ghost(0),
        };
        assert(p@ == p@.subrange(0, p@.len() as int));
        r
    }

    /// Is the iteration complete?
    fn finished(&self) -> (r: bool)
        ensures
            r == self.finished_spec(),
    {
        self.front == State::Done || self.back == State::Done || rank_exec(self.front) > rank_exec(
            self.back,
        )
    }

    /// Should the path read a leading `.` as a `CurDir` component?
    fn include_cur_dir(&self) -> (r: bool)
        ensures
            r == (!self.has_physical_root && starts_with_cur_dir(self.path@)),
    {
        if self.has_physical_root {
            return false;
        }
        let n = self.path.unicode_len();
        n >= 1 && self.path.get_char(0) == '.' && (n == 1 || self.path.get_char(1) == '/')
    }

    /// Given the iteration so far, how much of the leading root or `.` is left?
    fn len_before_body(&self) -> (r: usize)
        ensures
            r == self.lbb_spec(),
    {
        if rank_exec(self.front) <= 1 && (self.has_physical_root || self.include_cur_dir()) {
            1
        } else {
            0
        }
    }

    /// Parses a component from the left; says how many characters it takes.
    fn parse_next_component(&self) -> (r: (usize, Option<Component<'a>>))
        ensures
            ({
                let p = self.path@;
                let i = first_sep(p);
                &&& i < p.len() ==> r.0 == i + 1
                &&& i >= p.len() ==> r.0 == p.len()
                &&& r.1 is None <==> piece_comp(p.take(i)) is None
                &&& r.1 matches Some(c) ==> piece_comp(p.take(i)) == Some(c@)
            }),
    {
        proof {
            lemma_first_sep(self.path@);
        }
        let n = self.path.unicode_len();
        let i = find_first_sep(self.path);
        let comp = parse_single_component(self.path.substring_char(0, i));
        if i < n {
            (i + 1, comp)
        } else {
            (n, comp)
        }
    }

    /// Parses a component from the right; says how many characters it takes.
    fn parse_next_component_back(&self) -> (r: (usize, Option<Component<'a>>))
        requires
            self.path@.len() >= self.lbb_spec(),
        ensures
            ({
                let b = self.path@.skip(self.lbb_spec());
                let j = last_sep(b);
                &&& j >= 0 ==> r.0 == b.len() - j
                &&& j < 0 ==> r.0 == b.len()
                &&& r.1 is None <==> piece_comp(b.skip(j + 1)) is None
                &&& r.1 matches Some(c) ==> piece_comp(b.skip(j + 1)) == Some(c@)
            }),
    {
        let start = self.len_before_body();
        let n = self.path.unicode_len();
        let body = self.path.substring_char(start, n);
        proof {
            lemma_last_sep(body@);
        }
        let m = n - start;
        match find_last_sep(body) {
            None => {
                assert(body@.skip(0) == body@);
                (m, parse_single_component(body))
            },
            Some(j) => (m - j, parse_single_component(body.substring_char(j + 1, m))),
        }
    }

    /// Reading the leading root or `.` from the front removes the first component.
    proof fn lemma_after_start_dir(&self, prev: Self)
        requires
            prev.wf(),
            !prev.finished_spec(),
            prev.front == State::StartDir,
            prev.has_physical_root || starts_with_cur_dir(prev.path@),
            self.front == State::Body,
            self.back == prev.back,
            self.has_physical_root == prev.has_physical_root,
            self.whole@ == prev.whole@,
            self.path@ == prev.path@.skip(1),
            self.start@ == prev.start@ + 1,
        ensures
            self.wf(),
            prev.spans().len() > 0,
            self.spans() == prev.spans().drop_first(),
    {
        let p = prev.path@;
        assert(p.len() >= 1);
        assert(self.path@ =~= self.whole@.subrange(self.start@, self.start@ + self.path@.len()));
        assert(self.path@.skip(0) == self.path@);
        if prev.back == State::Body {
            let x = prev.spans()[0];
            assert(prev.spans() == seq![x] + body_spans(p.skip(1), 1));
            assert((seq![x] + body_spans(p.skip(1), 1)).drop_first() =~= body_spans(p.skip(1), 1));
        } else {
            assert(prev.back == State::StartDir);
            assert(p.len() == 1);
            assert(prev.spans().len() == 1);
        }
    }

    /// Reads the next component from the front.
    pub fn next(&mut self) -> (r: Option<Component<'a>>)
        requires
            old(self).wf(),
        ensures
            final(self).wf(),
            final(self).whole() == old(self).whole(),
            old(self).spans().len() == 0 ==> r is None && final(self).spans().len() == 0,
            old(self).spans().len() > 0 ==> (r matches Some(c) && c@ == old(self).spans()[0].comp
                && final(self).spans() == old(self).spans().drop_first()),
            final(self).comps() == after_call(old(self).comps(), false),
            match r {
                Some(c) => call_result(old(self).comps(), false) == Some(c@),
                None => call_result(old(self).comps(), false) is None,
            },
    {
        while !self.finished()
            invariant
                self.wf(),
                self.whole() == old(self).whole(),
                self.spans() == old(self).spans(),
            decreases 3 - rank(self.front), self.path@.len(),
        {
            let ghost prev = *self;
            match self.front {
                State::Prefix => {
                    self.front = State::StartDir;
                },
                State::StartDir => {
                    self.front = State::Body;
                    let n = self.path.unicode_len();
                    if self.has_physical_root {
                        self.path = self.path.substring_char(1, n);
                        self.start = Ghost(self.start@ + 1);
                        proof {
                            self.lemma_after_start_dir(prev);
                            assert(prev.spans()[0].comp == ComponentView::RootDir);
                        }
                        return Some(Component::RootDir);
                    } else if self.include_cur_dir() {
                        self.path = self.path.substring_char(1, n);
                        self.start = Ghost(self.start@ + 1);
                        proof {
                            self.lemma_after_start_dir(prev);
                            assert(prev.spans()[0].comp == ComponentView::CurDir);
                        }
                        return Some(Component::CurDir);
                    }
                    proof {
                        assert(prev.path@.skip(0) == prev.path@);
                    }
                },
                State::Body => {
                    let n = self.path.unicode_len();
                    if n > 0 {
                        let (size, comp) = self.parse_next_component();
                        proof {
                            lemma_first_sep(prev.path@);
                        }
                        self.path = self.path.substring_char(size, n);
                        self.start = Ghost(self.start@ + size);
                        proof {
                            let p = prev.path@;
                            let i = first_sep(p);
                            assert(p.skip(0) == p);
                            assert(self.path@.skip(0) == self.path@);
                            assert(self.path@ =~= self.whole@.subrange(
                                self.start@,
                                self.start@ + self.path@.len(),
                            ));
                            if i < p.len() {
                                assert(self.path@ == p.skip(i + 1));
                            } else {
                                assert(self.path@.len() == 0);
                                assert(p.take(i) == p);
                            }
                        }
                        if comp.is_some() {
                            return comp;
                        }
                    } else {
                        self.front = State::Done;
                    }
                },
                State::Done => {
                    proof {
                        assert(false);
                    }
                },
            }
        }
        None
    }

    /// Dropping a last piece (and the separator before it) from the back keeps the
    /// iterator well formed and leaves the leading root or `.` as it was.
    proof fn lemma_back_step(&self, prev: Self, k: int)
        requires
            prev.wf(),
            !prev.finished_spec(),
            prev.back == State::Body,
            prev.lbb_spec() <= k <= prev.path@.len(),
            k == prev.lbb_spec() || prev.path@[k] == '/',
            self.front == prev.front,
            self.back == prev.back,
            self.has_physical_root == prev.has_physical_root,
            self.whole@ == prev.whole@,
            self.start@ == prev.start@,
            self.path@ == prev.path@.take(k),
        ensures
            self.wf(),
            self.lbb_spec() == prev.lbb_spec(),
            !self.finished_spec(),
    {
        let p = prev.path@;
        let q = self.path@;
        assert(q =~= self.whole@.subrange(self.start@, self.start@ + q.len()));
        if rank(prev.front) <= 1 {
            if prev.has_physical_root {
                assert(q[0] == p[0]);
            } else if starts_with_cur_dir(p) {
                assert(q[0] == p[0]);
                if q.len() > 1 {
                    assert(q[1] == p[1]);
                }
            } else {
                if q.len() > 0 {
                    assert(q[0] == p[0]);
                }
                if q.len() > 1 {
                    assert(q[1] == p[1]);
                }
                if k == 1 {
                    assert(p[1] == '/');
                }
            }
        }
    }

    /// Reads the last piece of the body from the back.
    fn back_body_piece(&mut self) -> (r: Option<Component<'a>>)
        requires
            old(self).wf(),
            !old(self).finished_spec(),
            old(self).back == State::Body,
            old(self).path@.len() > old(self).lbb_spec(),
        ensures
            final(self).wf(),
            final(self).whole() == old(self).whole(),
            final(self).back == State::Body,
            final(self).front == old(self).front,
            final(self).start@ == old(self).start@,
            final(self).has_physical_root == old(self).has_physical_root,
            r is None ==> final(self).spans() == old(self).spans() && final(self).path@.len() < old(
                self,
            ).path@.len(),
            r matches Some(c) ==> old(self).spans().len() > 0 && c@ == old(self).spans().last().comp
                && final(self).spans() == old(self).spans().drop_last() && old(self).spans().last().end
                == old(self).start@ + old(self).path@.len(),
    {
        let ghost prev = *self;
        let n = self.path.unicode_len();
        let lbb = self.len_before_body();
        let (size, comp) = self.parse_next_component_back();
        let ghost b = prev.path@.skip(lbb as int);
        let ghost j = last_sep(b);
        proof {
            lemma_last_sep(b);
            if j >= 0 {
                assert(prev.path@[lbb + j] == b[j]);
            }
        }
        self.path = self.path.substring_char(0, n - size);
        proof {
            let k = n - size;
            self.lemma_back_step(prev, k);
            let st = prev.start@;
            let pre = if rank(prev.front) <= 1 {
                prefix_at(prev.path@, st)
            } else {
                seq![]
            };
            assert(rank(prev.front) <= 1 ==> prefix_at(prev.path@, st) == prefix_at(self.path@, st))
                by {
                if rank(prev.front) <= 1 && self.path@.len() > 0 {
                    assert(self.path@[0] == prev.path@[0]);
                    if self.path@.len() > 1 {
                        assert(self.path@[1] == prev.path@[1]);
                    }
                }
            }
            assert(prev.spans() == pre + body_spans(b, st + lbb));
            assert(self.spans() == pre + body_spans(self.path@.skip(lbb as int), st + lbb));
            let piece = piece_spans(b.skip(j + 1), st + lbb + j + 1);
            if j >= 0 {
                lemma_body_split_last(b, st + lbb);
                assert(self.path@.skip(lbb as int) == b.take(j));
                assert(prev.spans() =~= pre + body_spans(b.take(j), st + lbb) + piece);
            } else {
                lemma_body_no_sep(b, st + lbb);
                assert(b.skip(0) == b);
                assert(self.path@.skip(lbb as int).len() == 0);
                assert(prev.spans() =~= pre + body_spans(self.path@.skip(lbb as int), st + lbb)
                    + piece);
            }
            assert(prev.spans() =~= self.spans() + piece);
            if comp.is_some() {
                assert((self.spans() + piece).drop_last() =~= self.spans());
            }
        }
        comp
    }

    /// Reads the leading root or `.` from the back, once the body is used up.
    fn back_start_dir(&mut self) -> (r: Option<Component<'a>>)
        requires
            old(self).wf(),
            !old(self).finished_spec(),
            old(self).back == State::StartDir,
        ensures
            final(self).wf(),
            final(self).whole() == old(self).whole(),
            final(self).back == State::Prefix,
            r is None ==> final(self).spans() == old(self).spans(),
            r matches Some(c) ==> old(self).spans().len() > 0 && c@ == old(self).spans().last().comp
                && final(self).spans() == old(self).spans().drop_last(),
    {
        let ghost prev = *self;
        self.back = State::Prefix;
        let n = self.path.unicode_len();
        if self.has_physical_root {
            self.path = self.path.substring_char(0, n - 1);
            assert(self.path@ =~= self.whole@.subrange(self.start@, self.start@));
            assert(prev.spans().len() == 1);
            assert(self.spans() =~= prev.spans().drop_last());
            Some(Component::RootDir)
        } else if self.include_cur_dir() {
            self.path = self.path.substring_char(0, n - 1);
            assert(self.path@ =~= self.whole@.subrange(self.start@, self.start@));
            assert(prev.spans().len() == 1);
            assert(self.spans() =~= prev.spans().drop_last());
            Some(Component::CurDir)
        } else {
            assert(self.spans() =~= prev.spans());
            None
        }
    }

    /// Skips empty pieces and `.` on the left.
    fn trim_left(&mut self)
        requires
            old(self).wf(),
            old(self).front == State::Body,
        ensures
            final(self).wf(),
            final(self).whole() == old(self).whole(),
            final(self).spans() == old(self).spans(),
            final(self).front == old(self).front,
            final(self).back == old(self).back,
            final(self).spans().len() > 0 ==> final(self).start@ == final(self).spans()[0].start,
            final(self).spans().len() == 0 ==> final(self).path@.len() == 0,
    {
        while self.path.unicode_len() > 0
            invariant
                self.wf(),
                self.whole() == old(self).whole(),
                self.spans() == old(self).spans(),
                self.front == State::Body,
                self.front == old(self).front,
                self.back == old(self).back,
            decreases self.path@.len(),
        {
            let ghost prev = *self;
            let n = self.path.unicode_len();
            let (size, comp) = self.parse_next_component();
            proof {
                lemma_first_sep(prev.path@);
                assert(prev.back == State::Body);
                assert(prev.path@.skip(0) == prev.path@);
            }
            if comp.is_some() {
                return;
            }
            self.path = self.path.substring_char(size, n);
            self.start = Ghost(self.start@ + size);
            proof {
                let p = prev.path@;
                let i = first_sep(p);
                assert(self.path@.skip(0) == self.path@);
                assert(self.path@ =~= self.whole@.subrange(
                    self.start@,
                    self.start@ + self.path@.len(),
                ));
                if i < p.len() {
                    assert(self.path@ == p.skip(i + 1));
                } else {
                    assert(self.path@.len() == 0);
                    assert(p.take(i) == p);
                }
            }
        }
        proof {
            assert(self.path@.skip(0) == self.path@);
        }
    }

    /// Skips empty pieces and `.` on the right.
    fn trim_right(&mut self)
        requires
            old(self).wf(),
            old(self).back == State::Body,
        ensures
            final(self).wf(),
            final(self).whole() == old(self).whole(),
            final(self).spans() == old(self).spans(),
            final(self).front == old(self).front,
            final(self).back == old(self).back,
            final(self).start@ == old(self).start@,
            final(self).path@.len() <= old(self).path@.len(),
            final(self).spans().len() > 0 ==> final(self).start@ + final(self).path@.len()
                == final(self).spans().last().end,
    {
        while self.path.unicode_len() > self.len_before_body()
            invariant
                self.wf(),
                self.whole() == old(self).whole(),
                self.spans() == old(self).spans(),
                self.front == old(self).front,
                self.back == State::Body,
                self.back == old(self).back,
                self.start@ == old(self).start@,
                self.path@.len() <= old(self).path@.len(),
            decreases self.path@.len(),
        {
            if self.finished() {
                return;
            }
            let saved = *self;
            let comp = self.back_body_piece();
            if comp.is_some() {
                *self = saved;
                return;
            }
        }
        proof {
            assert(self.path@.skip(self.lbb_spec()).len() == 0);
        }
    }

    /// The part of the path that is left for iteration.
    pub fn as_path(&self) -> (r: Path<'a>)
        requires
            self.wf(),
        ensures
            r@ == self.rest_text(),
    {
        let mut comps = *self;
        if comps.front == State::Body {
            comps.trim_left();
        }
        if comps.back == State::Body {
            comps.trim_right();
        }
        proof {
            comps.lemma_rest_text();
        }
        Path::new(comps.path)
    }

    /// After trimming, what is left of the path is exactly the text of the remaining components.
    proof fn lemma_rest_text(&self)
        requires
            self.wf(),
            self.front == State::Body ==> (self.spans().len() > 0 ==> self.start@
                == self.spans()[0].start) && (self.spans().len() == 0 ==> self.path@.len() == 0),
            self.back == State::Body ==> (self.spans().len() > 0 ==> self.start@ + self.path@.len()
                == self.spans().last().end),
        ensures
            self.path@ == self.rest_text(),
    {
        let p = self.path@;
        let w = self.whole@;
        if self.finished_spec() {
            assert(p =~= seq![]);
        } else if rank(self.front) <= 1 {
            if !self.has_physical_root && !starts_with_cur_dir(p) && p.len() > 0 {
                lemma_first_sep(p);
                assert(p[0] != '/');
                assert(p.skip(0) == p);
                let i = first_sep(p);
                assert(p.take(i).len() > 0);
                if p.take(i) == seq!['.'] {
                    assert(p[0] == '.');
                    assert(i == 1);
                }
                assert(self.spans()[0].start == 0);
            }
            if self.back == State::StartDir {
                assert(p.skip(self.lbb_spec()).len() == 0);
            }
            if self.spans().len() == 0 {
                if p.len() > 0 {
                    assert(self.back == State::Body);
                    lemma_first_sep(p);
                    assert(p.skip(0) == p);
                    let i = first_sep(p);
                    if p.take(i) == seq!['.'] {
                        assert(p[0] == '.');
                    }
                }
                assert(p =~= seq![]);
            } else {
                assert(p =~= w.subrange(self.spans()[0].start, self.spans().last().end));
            }
        } else {
            assert(self.back == State::Body);
            if self.spans().len() > 0 {
                assert(p =~= w.subrange(self.spans()[0].start, self.spans().last().end));
            } else {
                assert(p =~= seq![]);
            }
        }
    }

    /// Reads the next component from the back.
    pub fn next_back(&mut self) -> (r: Option<Component<'a>>)
        requires
            old(self).wf(),
        ensures
            final(self).wf(),
            final(self).whole() == old(self).whole(),
            old(self).spans().len() == 0 ==> r is None && final(self).spans().len() == 0,
            old(self).spans().len() > 0 ==> (r matches Some(c) && c@ == old(self).spans().last().comp
                && final(self).spans() == old(self).spans().drop_last()),
            final(self).comps() == after_call(old(self).comps(), true),
            match r {
                Some(c) => call_result(old(self).comps(), true) == Some(c@),
                None => call_result(old(self).comps(), true) is None,
            },
    {
        while !self.finished()
            invariant
                self.wf(),
                self.whole() == old(self).whole(),
                self.spans() == old(self).spans(),
            decreases rank(self.back), self.path@.len(),
        {
            match self.back {
                State::Body => {
                    let n = self.path.unicode_len();
                    let lbb = self.len_before_body();
                    if n > lbb {
                        let comp = self.back_body_piece();
                        if comp.is_some() {
                            return comp;
                        }
                    } else {
                        let ghost prev = *self;
                        self.back = State::StartDir;
                        proof {
                            assert(prev.path@.skip(prev.lbb_spec()).len() == 0);
                            assert(self.spans() =~= prev.spans());
                        }
                    }
                },
                State::StartDir => {
                    let comp = self.back_start_dir();
                    if comp.is_some() {
                        return comp;
                    }
                },
                State::Prefix => {
                    assert(rank(self.front) == 0);
                    assert(self.path@.len() == 0);
                    self.back = State::Done;
                    return None;
                },
                State::Done => {
                    proof {
                        assert(false);
                    }
                },
            }
        }
        None
    }

    /// Whether the whole path begins with `/`.
    pub fn has_root(&self) -> (r: bool)
        requires
            self.wf(),
        ensures
            r == starts_with_root(self.whole()),
    {
        self.has_physical_root
    }
}

} // verus!
