//! What holds of paths across operations: the components of a parent, of a stripped
//! path, of a joined path and of a path made absolute, and what setting a file name or an
//! extension gives.
use vstd::prelude::*;

use super::buf::{set_extension_text, set_file_name_text};
use super::components::{after_call, call_result};
use super::model::{
    absolute_fold, absolute_step, absolute_text, body_spans, component_spans, components,
    comps_of, extension_of, file_name_of, first_sep, has_sep, is_prefix_of, last_dot,
    lemma_body_concat, lemma_component_spans_fit, lemma_first_sep, lemma_last_dot, parent_text,
    piece_spans, prefix_len, prefix_spans, push_text, span_text, starts_with_cur_dir,
    starts_with_root, stem_of, strip_prefix_text, ComponentView, Span,
};

verus! {

/// A body span of `t` placed at `at` lies inside `t`, holds no separator and is not `.`,
/// begins at the start of `t` or after a separator, ends at the end of `t` or before a
/// separator, and is a normal component other than `..` or a parent component.
pub open spec fn body_span_ok(t: Seq<char>, at: int, sp: Span) -> bool {
    &&& at <= sp.start < sp.end <= at + t.len()
    &&& forall|k: int| sp.start - at <= k < sp.end - at ==> #[trigger] t[k] != '/'
    &&& !(sp.end == sp.start + 1 && t[sp.start - at] == '.')
    &&& sp.start == at || t[sp.start - at - 1] == '/'
    &&& sp.end == at + t.len() || t[sp.end - at] == '/'
    &&& sp.comp != ComponentView::RootDir
    &&& sp.comp != ComponentView::CurDir
    &&& sp.comp matches ComponentView::Normal(n) ==> n != seq!['.', '.']
}

/// Where the body spans of `t` (placed at `at`) lie, see [`body_span_ok`]; and they come
/// in order, apart from each other.
proof fn lemma_body_bounds(t: Seq<char>, at: int)
    ensures
        forall|j: int|
            0 <= j < body_spans(t, at).len() ==> body_span_ok(t, at, #[trigger] body_spans(t, at)[j]),
        forall|i: int, j: int|
            0 <= i < j < body_spans(t, at).len() ==> #[trigger] body_spans(t, at)[i].end
                < #[trigger] body_spans(t, at)[j].start,
    decreases t.len(),
{
    if t.len() > 0 {
        lemma_first_sep(t);
        let i = first_sep(t);
        let bs = body_spans(t, at);
        if i < t.len() {
            let piece = t.take(i);
            let ps = piece_spans(piece, at);
            let rest = t.skip(i + 1);
            lemma_body_bounds(rest, at + i + 1);
            let rs = body_spans(rest, at + i + 1);
            assert(bs == ps + rs);
            assert forall|j: int| 0 <= j < rs.len() implies body_span_ok(t, at, #[trigger] rs[j]) by {
                let sp = rs[j];
                assert(body_span_ok(rest, at + i + 1, sp));
                if sp.start != at + i + 1 {
                    assert(t[sp.start - at - 1] == rest[sp.start - (at + i + 1) - 1]);
                }
                if sp.end != at + i + 1 + rest.len() {
                    assert(t[sp.end - at] == rest[sp.end - (at + i + 1)]);
                }
                assert forall|k: int| sp.start - at <= k < sp.end - at implies #[trigger] t[k] != '/' by {
                    assert(t[k] == rest[k - (i + 1)]);
                }
                assert(t[sp.start - at] == rest[sp.start - (at + i + 1)]);
            }
            if ps.len() > 0 {
                assert(piece.len() > 0);
                assert(bs[0] == ps[0]);
                assert(body_span_ok(t, at, ps[0])) by {
                    if piece.len() == 1 && t[0] == '.' {
                        assert(piece =~= seq!['.']);
                    }
                }
                assert forall|j: int| 0 <= j < bs.len() implies body_span_ok(t, at, #[trigger] bs[j]) by {
                    if j > 0 {
                        assert(bs[j] == rs[j - 1]);
                    }
                }
                assert forall|a: int, b: int| 0 <= a < b < bs.len() implies #[trigger] bs[a].end
                    < #[trigger] bs[b].start by {
                    assert(bs[b] == rs[b - 1]);
                    assert(body_span_ok(t, at, rs[b - 1]));
                    if a > 0 {
                        assert(bs[a] == rs[a - 1]);
                    }
                }
            } else {
                assert(bs == rs);
            }
        } else {
            assert(bs == piece_spans(t, at));
            if bs.len() > 0 {
                assert(body_span_ok(t, at, bs[0])) by {
                    if t.len() == 1 && t[0] == '.' {
                        assert(t =~= seq!['.']);
                    }
                }
            }
        }
    }
}

/// The components of a body do not depend on where it is placed.
proof fn lemma_body_comps_shift(t: Seq<char>, a: int, b: int)
    ensures
        comps_of(body_spans(t, a)) == comps_of(body_spans(t, b)),
    decreases t.len(),
{
    if t.len() > 0 {
        lemma_first_sep(t);
        let i = first_sep(t);
        if i < t.len() {
            lemma_body_comps_shift(t.skip(i + 1), a + i + 1, b + i + 1);
            let pa = piece_spans(t.take(i), a);
            let pb = piece_spans(t.take(i), b);
            let ra = body_spans(t.skip(i + 1), a + i + 1);
            let rb = body_spans(t.skip(i + 1), b + i + 1);
            assert(comps_of(pa) =~= comps_of(pb));
            assert(comps_of(pa + ra) =~= comps_of(pa) + comps_of(ra));
            assert(comps_of(pb + rb) =~= comps_of(pb) + comps_of(rb));
        } else {
            assert(comps_of(piece_spans(t, a)) =~= comps_of(piece_spans(t, b)));
        }
    }
}

/// A path begins with the same root or `.` component as any longer path it begins.
proof fn lemma_prefix_of_take(s: Seq<char>, e: int)
    requires
        1 <= e <= s.len(),
        !starts_with_root(s) && !starts_with_cur_dir(s) && s[0] == '.' ==> e >= 2,
    ensures
        prefix_len(s.take(e)) == prefix_len(s),
        prefix_spans(s.take(e)) == prefix_spans(s),
{
    let t = s.take(e);
    assert(t[0] == s[0]);
    if e >= 2 {
        assert(t[1] == s[1]);
    }
}

/// Cutting a body after its `j`-th span, where a separator follows, keeps the spans up to
/// and including that one.
proof fn lemma_body_cut_after(bb: Seq<char>, pl: int, j: int)
    requires
        0 <= j < body_spans(bb, pl).len(),
        body_spans(bb, pl)[j].end < pl + bb.len(),
    ensures
        body_spans(bb.take(body_spans(bb, pl)[j].end - pl), pl) == body_spans(bb, pl).take(j + 1),
{
    let bs = body_spans(bb, pl);
    lemma_body_bounds(bb, pl);
    let e = bs[j].end;
    let bt = bb.take(e - pl);
    assert(bb[e - pl] == '/');
    let r = bb.skip(e - pl + 1);
    assert(bb =~= bt + seq!['/'] + r);
    lemma_body_concat(bt, r, pl);
    lemma_body_bounds(bt, pl);
    lemma_body_bounds(r, e + 1);
    let xs = body_spans(bt, pl);
    let ys = body_spans(r, e + 1);
    assert(bs == xs + ys);
    let q = xs.len() as int;
    if j >= q {
        assert(bs[j] == ys[j - q]);
        assert(false);
    }
    if j + 1 < q {
        assert(bs[j + 1] == xs[j + 1]);
        assert(bs[j].end < bs[j + 1].start);
        assert(false);
    }
    assert(xs =~= bs.take(j + 1));
}

/// A relative path that begins with `.` and a character other than `/` has a first
/// component of at least two characters.
proof fn lemma_first_end(s: Seq<char>, m: int)
    requires
        !starts_with_root(s) && !starts_with_cur_dir(s),
        s.len() > 0 && s[0] == '.',
        1 <= m <= component_spans(s).len(),
    ensures
        component_spans(s)[m - 1].end >= 2,
{
    let cs = component_spans(s);
    let bs = body_spans(s, 0);
    assert(s.skip(0) =~= s);
    assert(cs =~= bs);
    lemma_body_bounds(s, 0);
    assert(bs[0].end >= 2) by {
        if bs[0].end == 1 {
            assert(s[1] == '/');
        }
    }
    if m > 1 {
        assert(bs[0].end < bs[m - 1].start);
    }
}

/// The components of the text of `s` up to the end of its `m`-th component are its first
/// `m` components.
proof fn lemma_components_take(s: Seq<char>, m: int)
    requires
        1 <= m <= component_spans(s).len(),
    ensures
        component_spans(s.take(component_spans(s)[m - 1].end)) == component_spans(s).take(m),
{
    let cs = component_spans(s);
    let pl = prefix_len(s);
    let bb = s.skip(pl);
    let pre = prefix_spans(s);
    let bs = body_spans(bb, pl);
    assert(cs == pre + bs);
    lemma_body_bounds(bb, pl);
    let e = cs[m - 1].end;
    let t = s.take(e);
    if !starts_with_root(s) && !starts_with_cur_dir(s) && s[0] == '.' {
        lemma_first_end(s, m);
    }
    lemma_prefix_of_take(s, e);
    let bt = t.skip(pl);
    assert(bt == bb.take(e - pl));
    if m - 1 < pre.len() {
        // the last component taken is the root or `.`
        assert(bt.len() == 0);
        assert(body_spans(bt, pl) == Seq::<Span>::empty());
        assert(component_spans(t) =~= cs.take(m));
    } else {
        let j = m - 1 - pre.len();
        assert(bs[j] == cs[m - 1]);
        if e == pl + bb.len() {
            assert(t =~= s);
            if j + 1 < bs.len() {
                assert(bs[j].end < bs[j + 1].start);
                assert(false);
            }
            assert(cs.take(m) =~= cs);
        } else {
            lemma_body_cut_after(bb, pl, j);
            assert(component_spans(t) =~= cs.take(m));
        }
    }
}

/// Cutting a body before its `j`-th span, where a separator precedes, keeps the spans from
/// that one on.
proof fn lemma_body_cut_before(bb: Seq<char>, pl: int, j: int)
    requires
        0 <= j < body_spans(bb, pl).len(),
        body_spans(bb, pl)[j].start > pl,
    ensures
        body_spans(bb.skip(body_spans(bb, pl)[j].start - pl), body_spans(bb, pl)[j].start)
            == body_spans(bb, pl).skip(j),
        body_spans(bb.take(body_spans(bb, pl)[j].start - pl - 1), pl) == body_spans(bb, pl).take(j),
        bb[body_spans(bb, pl)[j].start - pl - 1] == '/',
{
    let bs = body_spans(bb, pl);
    lemma_body_bounds(bb, pl);
    let p = bs[j].start;
    assert(body_span_ok(bb, pl, bs[j]));
    assert(bb[p - pl - 1] == '/');
    let x = bb.take(p - pl - 1);
    let y = bb.skip(p - pl);
    assert(bb =~= x + seq!['/'] + y);
    lemma_body_concat(x, y, pl);
    lemma_body_bounds(x, pl);
    lemma_body_bounds(y, p);
    let xs = body_spans(x, pl);
    let ys = body_spans(y, p);
    assert(bs == xs + ys);
    let q = xs.len() as int;
    if j < q {
        assert(bs[j] == xs[j]);
        assert(body_span_ok(x, pl, xs[j]));
        assert(false);
    }
    if j > q {
        assert(bs[q] == ys[0]);
        assert(body_span_ok(y, p, ys[0]));
        assert(bs[q].end < bs[j].start);
        assert(false);
    }
    assert(ys =~= bs.skip(j));
    assert(xs =~= bs.take(j));
}

/// The first component of a path begins at its start.
proof fn lemma_first_start(s: Seq<char>)
    requires
        component_spans(s).len() > 0,
    ensures
        component_spans(s)[0].start == 0,
{
    lemma_component_spans_fit(s);
}

/// The text of the components of `s` from the `k`-th on has exactly those components.
proof fn lemma_components_skip(s: Seq<char>, k: int)
    requires
        0 <= k <= component_spans(s).len(),
    ensures
        components(span_text(s, component_spans(s).skip(k))) == comps_of(
            component_spans(s).skip(k),
        ),
{
    let cs = component_spans(s);
    let n = cs.len() as int;
    if k == n {
        assert(cs.skip(k).len() == 0);
        let e = Seq::<char>::empty();
        assert(span_text(s, cs.skip(k)) == e);
        assert(component_spans(e) =~= Seq::<Span>::empty()) by {
            assert(e.skip(0) =~= e);
        }
        assert(comps_of(cs.skip(k)) =~= Seq::<ComponentView>::empty());
    } else if k == 0 {
        lemma_first_start(s);
        assert(cs.skip(0) =~= cs);
        assert(span_text(s, cs) =~= s.take(cs[n - 1].end));
        lemma_components_take(s, n);
        assert(cs.take(n) =~= cs);
    } else {
        lemma_components_skip_body(s, k);
    }
}

/// The body of `s` from the start of its `k`-th component on, placed there, has the
/// components of `s` from the `k`-th on; that component is a body component.
proof fn lemma_suffix_body(s: Seq<char>, k: int)
    requires
        0 < k < component_spans(s).len(),
    ensures
        body_spans(s.skip(component_spans(s)[k].start), component_spans(s)[k].start)
            == component_spans(s).skip(k),
        body_span_ok(
            s.skip(prefix_len(s)),
            prefix_len(s),
            component_spans(s)[k],
        ),
        body_span_ok(
            s.skip(prefix_len(s)),
            prefix_len(s),
            component_spans(s).last(),
        ),
        prefix_len(s) <= component_spans(s)[k].start,
{
    let cs = component_spans(s);
    let pl = prefix_len(s);
    let bb = s.skip(pl);
    let pre = prefix_spans(s);
    let bs = body_spans(bb, pl);
    assert(cs == pre + bs);
    lemma_body_bounds(bb, pl);
    let j = k - pre.len();
    assert(cs.skip(k) =~= bs.skip(j));
    assert(cs[k] == bs[j]);
    assert(cs.last() == bs[bs.len() - 1]);
    let p = bs[j].start;
    assert(body_span_ok(bb, pl, bs[j]));
    assert(body_span_ok(bb, pl, bs[bs.len() - 1]));
    let y = s.skip(p);
    if p == pl {
        if j > 0 {
            assert(body_span_ok(bb, pl, bs[0]));
            assert(bs[0].end < bs[j].start);
            assert(false);
        }
        assert(y =~= bb);
        assert(bs.skip(0) =~= bs);
    } else {
        lemma_body_cut_before(bb, pl, j);
        assert(bb.skip(p - pl) =~= y);
    }
}

/// [`lemma_components_skip`] where at least one component is skipped and one is left.
proof fn lemma_components_skip_body(s: Seq<char>, k: int)
    requires
        0 < k < component_spans(s).len(),
    ensures
        components(span_text(s, component_spans(s).skip(k))) == comps_of(
            component_spans(s).skip(k),
        ),
{
    let cs = component_spans(s);
    let pl = prefix_len(s);
    let bb = s.skip(pl);
    lemma_suffix_body(s, k);
    let p = cs[k].start;
    let y = s.skip(p);
    let ys = cs.skip(k);
    let last = ys.len() - 1;
    let e = ys[last].end;
    assert(ys[last] == cs.last());
    assert(ys[0] == cs[k]);
    assert(bb.len() == s.len() - pl);
    assert(p < cs[k].end <= e <= s.len()) by {
        if last > 0 {
            lemma_body_bounds(y, p);
            assert(body_span_ok(y, p, ys[0]));
            assert(body_span_ok(y, p, ys[last]));
            assert(ys[0].end < ys[last].start);
        }
    }
    let t = span_text(s, ys);
    assert(t =~= y.take(e - p));
    assert(body_spans(t, p) == ys) by {
        if e < p + y.len() {
            lemma_body_cut_after(y, p, last);
            assert(ys.take(last + 1) =~= ys);
        } else {
            assert(t =~= y);
        }
    }
    // the text begins with a normal or parent component, so it has no root or `.` prefix
    assert(t[0] == bb[p - pl]);
    assert(!starts_with_root(t));
    assert(!starts_with_cur_dir(t)) by {
        if t[0] == '.' {
            assert(cs[k].end > p + 1);
            assert(t[1] == bb[p + 1 - pl]);
        }
    }
    assert(t.skip(0) =~= t);
    lemma_body_comps_shift(t, 0, p);
}

/// The parent of a path has all of its components but the last.
pub proof fn law_parent_components(s: Seq<char>)
    requires
        parent_text(s) is Some,
    ensures
        components(parent_text(s).unwrap()) == components(s).drop_last(),
{
    let cs = component_spans(s);
    let n = cs.len() as int;
    let p = parent_text(s).unwrap();
    if n == 1 {
        assert(p == Seq::<char>::empty());
        assert(component_spans(p) =~= Seq::<Span>::empty()) by {
            assert(p.skip(0) =~= p);
        }
        assert(components(s).drop_last() =~= Seq::<ComponentView>::empty());
    } else {
        lemma_first_start(s);
        assert(p =~= s.take(cs[n - 2].end));
        lemma_components_take(s, n - 1);
        assert(cs.drop_last() =~= cs.take(n - 1));
        assert(comps_of(cs.drop_last()) =~= comps_of(cs).drop_last());
    }
}

/// Stripping a prefix succeeds exactly when the path starts with it, and leaves the
/// components that follow those of the prefix.
pub proof fn law_strip_prefix_components(s: Seq<char>, base: Seq<char>)
    ensures
        strip_prefix_text(s, base) is Some <==> is_prefix_of(components(base), components(s)),
        strip_prefix_text(s, base) matches Some(r) ==> components(r) == components(s).skip(
            components(base).len() as int,
        ),
{
    if is_prefix_of(components(base), components(s)) {
        let k = components(base).len() as int;
        lemma_components_skip(s, k);
        assert(comps_of(component_spans(s).skip(k)) =~= comps_of(component_spans(s)).skip(k));
    }
}

/// The components that a relative path adds when it is joined onto another: all of them
/// but a leading `.`.
pub open spec fn relative_components(v: Seq<char>) -> Seq<ComponentView> {
    if starts_with_cur_dir(v) {
        components(v).drop_first()
    } else {
        components(v)
    }
}

/// The components of `u/v` are the root or `.` of `u`, the body of `u` and the body of `v`.
proof fn lemma_join_spans(u: Seq<char>, v: Seq<char>)
    requires
        u.len() > 0,
    ensures
        component_spans(u + seq!['/'] + v) == prefix_spans(u) + body_spans(
            u.skip(prefix_len(u)),
            prefix_len(u),
        ) + body_spans(v, u.len() as int + 1),
{
    let w = u + seq!['/'] + v;
    assert(w[0] == u[0]);
    if u.len() >= 2 {
        assert(w[1] == u[1]);
    } else {
        assert(w[1] == '/');
    }
    let pl = prefix_len(u);
    assert(prefix_len(w) == pl);
    assert(prefix_spans(w) == prefix_spans(u));
    assert(w.skip(pl) =~= u.skip(pl) + seq!['/'] + v);
    lemma_body_concat(u.skip(pl), v, pl);
}

/// The body of a relative path has its components but a leading `.`.
proof fn lemma_relative_body(v: Seq<char>, at: int)
    requires
        !starts_with_root(v),
    ensures
        comps_of(body_spans(v, at)) == relative_components(v),
{
    if starts_with_cur_dir(v) {
        let r = v.skip(2);
        if v.len() == 1 {
            assert(v =~= seq!['.']);
            assert(v.skip(1) =~= Seq::<char>::empty());
            assert(body_spans(v, at) == piece_spans(v, at)) by {
                lemma_first_sep(v);
            }
        } else {
            assert(v =~= seq!['.'] + seq!['/'] + r);
            lemma_body_concat(seq!['.'], r, at);
            assert(body_spans(seq!['.'], at) == piece_spans(seq!['.'], at)) by {
                lemma_first_sep(seq!['.']);
            }
            assert(v.skip(1) =~= Seq::<char>::empty() + seq!['/'] + r);
            lemma_body_concat(Seq::<char>::empty(), r, 1);
            assert(piece_spans(Seq::<char>::empty(), at) =~= Seq::<Span>::empty());
            lemma_body_comps_shift(r, at + 2, 2);
            assert(body_spans(v, at) =~= body_spans(r, at + 2));
            assert(body_spans(v.skip(1), 1) =~= body_spans(r, 2));
        }
        let cs = component_spans(v);
        assert(cs == prefix_spans(v) + body_spans(v.skip(1), 1));
        assert(comps_of(cs).drop_first() =~= comps_of(body_spans(v.skip(1), 1)));
        if v.len() == 1 {
            assert(body_spans(v.skip(1), 1) =~= Seq::<Span>::empty());
        }
    } else {
        assert(v.skip(0) =~= v);
        lemma_body_comps_shift(v, at, 0);
    }
}

/// Joining a path onto a nonempty one: an absolute path replaces it, a relative one adds
/// its components (but a leading `.`) after those of the first.
pub proof fn law_push_components(a: Seq<char>, b: Seq<char>)
    requires
        a.len() > 0,
    ensures
        starts_with_root(b) ==> components(push_text(a, b)) == components(b),
        !starts_with_root(b) ==> components(push_text(a, b)) == components(a)
            + relative_components(b),
{
    if !starts_with_root(b) {
        let e = Seq::<char>::empty();
        if a.last() != '/' {
            lemma_join_spans(a, b);
            lemma_relative_body(b, a.len() as int + 1);
            let pl = prefix_len(a);
            let base = prefix_spans(a) + body_spans(a.skip(pl), pl);
            assert(component_spans(a) == base);
            let bsp = body_spans(b, a.len() as int + 1);
            assert(comps_of(base + bsp) =~= comps_of(base) + comps_of(bsp));
        } else {
            let u = a.drop_last();
            assert(a =~= u + seq!['/'] + e);
            if u.len() == 0 {
                assert(push_text(a, b) =~= seq!['/'] + b);
                let w = seq!['/'] + b;
                assert(w.skip(1) =~= b);
                assert(a.skip(1) =~= e);
                assert(body_spans(e, 1) =~= Seq::<Span>::empty());
                lemma_relative_body(b, 1);
                let bsp = body_spans(b, 1);
                assert(comps_of(prefix_spans(w) + bsp) =~= comps_of(prefix_spans(w)) + comps_of(
                    bsp,
                ));
                assert(comps_of(prefix_spans(a) + body_spans(e, 1)) =~= comps_of(
                    prefix_spans(a),
                ));
            } else {
                assert(push_text(a, b) =~= u + seq!['/'] + b);
                lemma_join_spans(u, b);
                lemma_join_spans(u, e);
                assert(body_spans(e, u.len() as int + 1) =~= Seq::<Span>::empty());
                lemma_relative_body(b, u.len() as int + 1);
                let pl = prefix_len(u);
                let base = prefix_spans(u) + body_spans(u.skip(pl), pl);
                assert(component_spans(a) =~= base);
                let bsp = body_spans(b, u.len() as int + 1);
                assert(comps_of(base + bsp) =~= comps_of(base) + comps_of(bsp));
            }
        }
    }
}

/// Joining the rest of a path after a nonempty prefix back onto that prefix gives the
/// components of the path.
pub proof fn law_strip_prefix_join(s: Seq<char>, base: Seq<char>)
    requires
        base.len() > 0,
        strip_prefix_text(s, base) is Some,
    ensures
        components(push_text(base, strip_prefix_text(s, base).unwrap())) == components(s),
{
    let r = strip_prefix_text(s, base).unwrap();
    let k = components(base).len() as int;
    lemma_nonempty_has_component(base);
    law_strip_prefix_components(s, base);
    lemma_rest_is_relative(s, k);
    law_push_components(base, r);
    assert(relative_components(r) == components(r));
    assert(components(s) =~= components(s).take(k) + components(s).skip(k));
}

/// A nonempty path has a component.
proof fn lemma_nonempty_has_component(s: Seq<char>)
    requires
        s.len() > 0,
    ensures
        component_spans(s).len() > 0,
{
    if !starts_with_root(s) && !starts_with_cur_dir(s) {
        assert(s.skip(0) =~= s);
        lemma_first_sep(s);
        let i = first_sep(s);
        let piece = if i < s.len() { s.take(i) } else { s };
        assert(piece.len() > 0);
        if piece == seq!['.'] {
            assert(s[0] == '.');
            assert(false);
        }
        assert(piece_spans(piece, 0).len() > 0);
        if i < s.len() {
            assert(body_spans(s, 0) == piece_spans(piece, 0) + body_spans(s.skip(i + 1), i + 1));
        }
    }
}

/// The text of the components of `s` from the `k`-th on is relative and does not begin
/// with `.`, unless it is all of `s`.
proof fn lemma_rest_is_relative(s: Seq<char>, k: int)
    requires
        0 <= k <= component_spans(s).len(),
    ensures
        k > 0 ==> !starts_with_root(span_text(s, component_spans(s).skip(k))) && !starts_with_cur_dir(
            span_text(s, component_spans(s).skip(k)),
        ),
{
    let cs = component_spans(s);
    if k > 0 && k < cs.len() {
        lemma_suffix_body(s, k);
        let pl = prefix_len(s);
        let bb = s.skip(pl);
        let p = cs[k].start;
        let ys = cs.skip(k);
        let t = span_text(s, ys);
        assert(ys[0] == cs[k]);
        assert(ys.last() == cs.last());
        assert(bb.len() == s.len() - pl);
        assert(p < cs[k].end <= ys.last().end <= s.len()) by {
            let y = s.skip(p);
            lemma_body_bounds(y, p);
            if ys.len() > 1 {
                assert(body_span_ok(y, p, ys[0]));
                assert(body_span_ok(y, p, ys[ys.len() - 1]));
                assert(ys[0].end < ys[ys.len() - 1].start);
            }
        }
        assert(t[0] == bb[p - pl]);
        if t[0] == '.' {
            assert(cs[k].end > p + 1);
            assert(t[1] == bb[p + 1 - pl]);
        }
    }
}

/// A file name with an extension is its stem, a `.` and the extension.
pub proof fn law_stem_and_extension(name: Seq<char>)
    requires
        extension_of(name) is Some,
    ensures
        stem_of(name) + seq!['.'] + extension_of(name).unwrap() == name,
{
    lemma_last_dot(name);
    let d = last_dot(name);
    assert(name.take(d) + seq!['.'] + name.skip(d + 1) =~= name);
}

/// A name that stands for itself as a single normal component: not empty, without a
/// separator, and neither `.` nor `..`.
pub open spec fn is_plain_name(n: Seq<char>) -> bool {
    n.len() > 0 && !has_sep(n) && n != seq!['.'] && n != seq!['.', '.']
}

/// A plain name is one normal component.
proof fn lemma_plain_name(n: Seq<char>, at: int)
    requires
        is_plain_name(n),
    ensures
        components(n) == seq![ComponentView::Normal(n)],
        comps_of(body_spans(n, at)) == seq![ComponentView::Normal(n)],
        !starts_with_root(n),
        !starts_with_cur_dir(n),
{
    lemma_first_sep(n);
    assert(n[0] != '/');
    if n[0] == '.' && n.len() == 1 {
        assert(n =~= seq!['.']);
    }
    if n.len() > 1 {
        assert(n[1] != '/');
    }
    assert(n.skip(0) =~= n);
    assert(comps_of(body_spans(n, at)) =~= seq![ComponentView::Normal(n)]);
    assert(comps_of(body_spans(n, 0)) =~= seq![ComponentView::Normal(n)]);
}

/// Setting the file name gives a path whose file name is the new name and whose other
/// components are those of the parent (of the path itself when it has no file name).
pub proof fn law_set_file_name(s: Seq<char>, n: Seq<char>)
    requires
        is_plain_name(n),
    ensures
        file_name_of(set_file_name_text(s, n)) == Some(n),
        file_name_of(s) is Some ==> components(set_file_name_text(s, n)) == components(
            s,
        ).drop_last().push(ComponentView::Normal(n)),
        file_name_of(s) is None ==> components(set_file_name_text(s, n)) == components(s).push(
            ComponentView::Normal(n),
        ),
{
    lemma_plain_name(n, 0);
    let base = match file_name_of(s) {
        Some(_) => parent_text(s).unwrap(),
        None => s,
    };
    let before = match file_name_of(s) {
        Some(_) => components(s).drop_last(),
        None => components(s),
    };
    if file_name_of(s) is Some {
        law_parent_components(s);
    }
    assert(components(base) == before);
    let r = set_file_name_text(s, n);
    assert(r == push_text(base, n));
    if base.len() == 0 {
        assert(r =~= n);
        assert(component_spans(base) =~= Seq::<Span>::empty()) by {
            assert(base.skip(0) =~= base);
        }
        assert(before =~= Seq::<ComponentView>::empty());
        assert(components(r) =~= before.push(ComponentView::Normal(n)));
    } else {
        law_push_components(base, n);
        assert(relative_components(n) == seq![ComponentView::Normal(n)]);
        assert(components(r) =~= before.push(ComponentView::Normal(n)));
    }
}

/// Replacing the text of the last component, a normal one, by a plain name replaces that
/// component.
proof fn lemma_replace_last(s: Seq<char>, w: Seq<char>)
    requires
        file_name_of(s) is Some,
        is_plain_name(w),
    ensures
        components(s.take(component_spans(s).last().start) + w) == components(s).drop_last().push(
            ComponentView::Normal(w),
        ),
{
    let cs = component_spans(s);
    let n = cs.len() as int;
    let pl = prefix_len(s);
    let bb = s.skip(pl);
    let pre = prefix_spans(s);
    let bs = body_spans(bb, pl);
    assert(cs == pre + bs);
    lemma_body_bounds(bb, pl);
    assert(cs.last() == cs[n - 1]);
    assert(components(s).last() == cs[n - 1].comp);
    // the last component is a normal one, so it is a body component
    assert(n - 1 >= pre.len());
    let j = n - 1 - pre.len();
    assert(bs[j] == cs[n - 1]);
    assert(body_span_ok(bb, pl, bs[j]));
    let st = bs[j].start;
    let r = s.take(st) + w;
    lemma_plain_name(w, st + 1);
    let before = components(s).drop_last();
    assert(before =~= comps_of(pre) + comps_of(bs.take(j))) by {
        assert(cs.drop_last() =~= pre + bs.take(j));
    }
    if st == pl {
        if j > 0 {
            assert(body_span_ok(bb, pl, bs[0]));
            assert(bs[0].end < bs[j].start);
            assert(false);
        }
        assert(bs.take(0) =~= Seq::<Span>::empty());
        if pl == 0 {
            assert(r =~= w);
            assert(pre =~= Seq::<Span>::empty());
            assert(before =~= Seq::<ComponentView>::empty());
            assert(components(r) =~= before.push(ComponentView::Normal(w)));
        } else if starts_with_root(s) {
            lemma_plain_name(w, 1);
            assert(r =~= seq!['/'] + w);
            assert(r.skip(1) =~= w);
            assert(r[0] == '/');
            assert(comps_of(pre) =~= seq![ComponentView::RootDir]);
            assert(component_spans(r) == prefix_spans(r) + body_spans(w, 1));
            assert(comps_of(prefix_spans(r) + body_spans(w, 1)) =~= comps_of(prefix_spans(r))
                + comps_of(body_spans(w, 1)));
            assert(comps_of(prefix_spans(r)) =~= seq![ComponentView::RootDir]);
            assert(components(r) =~= before.push(ComponentView::Normal(w)));
        } else {
            // after a leading `.` a separator follows, so no component starts at 1
            assert(starts_with_cur_dir(s));
            assert(bb[0] == s[1]);
            assert(false);
        }
    } else {
        lemma_body_cut_before(bb, pl, j);
        let x = bb.take(st - pl - 1);
        assert(body_spans(x, pl) == bs.take(j));
        if st == 1 {
            assert(s[0] == '/');
            assert(false);
        }
        if !starts_with_root(s) && !starts_with_cur_dir(s) && s[0] == '.' {
            lemma_first_end(s, 1);
            lemma_first_start(s);
            assert(cs[0] == bs[0]);
            assert(j > 0) by {
                if j == 0 {
                    assert(bs[0].start == 0);
                }
            }
            assert(body_span_ok(bb, pl, bs[0]));
            assert(bs[0].end < bs[j].start);
        }
        let u = s.take(st - 1);
        lemma_prefix_of_take(s, st - 1);
        assert(u.skip(pl) =~= x);
        assert(r =~= u + seq!['/'] + w);
        lemma_join_spans(u, w);
        let bw = body_spans(w, u.len() as int + 1);
        lemma_plain_name(w, u.len() as int + 1);
        assert(component_spans(r) == pre + bs.take(j) + bw);
        assert(comps_of(pre + bs.take(j) + bw) =~= comps_of(pre) + comps_of(bs.take(j)) + comps_of(
            bw,
        ));
        assert(components(r) =~= before.push(ComponentView::Normal(w)));
    }
}

/// The stem of the file name of `s` stands where the file name begins, is not empty and
/// holds no separator; what setting an extension gives is the path up to the end of the
/// stem, then the extension if it is not empty.
proof fn lemma_stem_in_place(s: Seq<char>, ext: Seq<char>)
    requires
        file_name_of(s) is Some,
    ensures
        ({
            let last = component_spans(s).last();
            let stem = stem_of(file_name_of(s).unwrap());
            &&& stem.len() > 0
            &&& !has_sep(stem)
            &&& set_extension_text(s, ext) == Some(
                s.take(last.start) + stem + if ext.len() > 0 {
                    seq!['.'] + ext
                } else {
                    seq![]
                },
            )
        }),
{
    let cs = component_spans(s);
    let name = file_name_of(s).unwrap();
    let last = cs.last();
    assert(s.subrange(last.start, last.end) == name && 0 <= last.start < last.end <= s.len()) by {
        lemma_component_spans_fit(s);
        assert(cs[cs.len() - 1] == last);
        assert(components(s).last() == last.comp);
    }
    lemma_last_dot(name);
    let stem = stem_of(name);
    assert(name.len() == last.end - last.start);
    assert(name.len() > 0);
    if name == seq!['.', '.'] || last_dot(name) <= 0 {
        assert(stem == name);
        assert(name.take(name.len() as int) =~= name);
    } else {
        assert(stem == name.take(last_dot(name)));
    }
    assert(stem.len() > 0 && stem.len() <= name.len() && stem == name.take(stem.len() as int));
    assert(!has_sep(name)) by {
        let pl = prefix_len(s);
        let bb = s.skip(pl);
        let bs = body_spans(bb, pl);
        assert(cs == prefix_spans(s) + bs);
        lemma_body_bounds(bb, pl);
        assert(components(s).last() == last.comp);
        assert(last == bs[bs.len() - 1]);
        assert(body_span_ok(bb, pl, last));
        if has_sep(name) {
            let k = choose|k: int| 0 <= k < name.len() && name[k] == '/';
            assert(name[k] == bb[last.start - pl + k]);
        }
    }
    assert(!has_sep(stem)) by {
        if has_sep(stem) {
            let k = choose|k: int| 0 <= k < stem.len() && stem[k] == '/';
            assert(name[k] == '/');
        }
    }
    assert(s.take(last.start + stem.len()) =~= s.take(last.start) + stem) by {
        assert forall|k: int| 0 <= k < stem.len() implies s[last.start + k] == stem[k] by {
            assert(stem[k] == name[k]);
            assert(name[k] == s.subrange(last.start, last.end)[k]);
        }
    }
}

/// Setting a nonempty extension without `.` or separator gives a path whose file name is
/// the old stem, a `.` and the new extension, beside the same other components.
pub proof fn law_set_extension(s: Seq<char>, ext: Seq<char>)
    requires
        ext.len() > 0,
        forall|k: int| 0 <= k < ext.len() ==> ext[k] != '.' && ext[k] != '/',
        file_name_of(s) is Some,
    ensures
        ({
            let name = file_name_of(s).unwrap();
            let t = set_extension_text(s, ext).unwrap();
            &&& file_name_of(t) == Some(stem_of(name) + seq!['.'] + ext)
            &&& extension_of(stem_of(name) + seq!['.'] + ext) == Some(ext)
            &&& stem_of(stem_of(name) + seq!['.'] + ext) == stem_of(name)
            &&& components(t).drop_last() == components(s).drop_last()
        }),
{
    let cs = component_spans(s);
    let last = cs.last();
    let stem = stem_of(file_name_of(s).unwrap());
    lemma_stem_in_place(s, ext);
    let w = stem + seq!['.'] + ext;
    assert(!has_sep(w)) by {
        if has_sep(w) {
            let k = choose|k: int| 0 <= k < w.len() && w[k] == '/';
            if k < stem.len() {
                assert(stem[k] == '/');
            } else if k > stem.len() {
                assert(ext[k - stem.len() - 1] == '/');
            }
        }
    }
    assert(is_plain_name(w)) by {
        assert(w.len() >= 3);
    }
    let t = set_extension_text(s, ext).unwrap();
    assert(t =~= s.take(last.start) + w);
    lemma_replace_last(s, w);
    let cw = components(s).drop_last().push(ComponentView::Normal(w));
    assert(cw.drop_last() =~= components(s).drop_last());
    assert(w.skip(stem.len() as int + 1) =~= ext);
    assert(w.take(stem.len() as int) =~= stem);
    lemma_last_dot_unique_here(w, stem.len() as int, ext);
}

/// Setting an empty extension drops the extension: the file name becomes the old stem,
/// beside the same other components, when that stem is a plain name (not `.` or `..`).
/// The new name keeps any extension the stem itself has: `a.tar.gz` becomes `a.tar`.
pub proof fn law_set_empty_extension(s: Seq<char>)
    requires
        file_name_of(s) is Some,
        stem_of(file_name_of(s).unwrap()) != seq!['.'],
        stem_of(file_name_of(s).unwrap()) != seq!['.', '.'],
    ensures
        ({
            let stem = stem_of(file_name_of(s).unwrap());
            let t = set_extension_text(s, seq![]).unwrap();
            &&& file_name_of(t) == Some(stem)
            &&& components(t) == components(s).drop_last().push(ComponentView::Normal(stem))
        }),
{
    let last = component_spans(s).last();
    let stem = stem_of(file_name_of(s).unwrap());
    lemma_stem_in_place(s, seq![]);
    assert(is_plain_name(stem));
    let t = set_extension_text(s, seq![]).unwrap();
    assert(t =~= s.take(last.start) + stem);
    lemma_replace_last(s, stem);
    let cw = components(s).drop_last().push(ComponentView::Normal(stem));
    assert(cw.last() == ComponentView::Normal(stem));
}

/// The last `.` of `stem.ext`, for an extension without `.`, is the one before it.
proof fn lemma_last_dot_unique_here(w: Seq<char>, d: int, ext: Seq<char>)
    requires
        0 < d < w.len(),
        w[d] == '.',
        ext.len() > 0,
        w.skip(d + 1) == ext,
        forall|k: int| 0 <= k < ext.len() ==> ext[k] != '.',
    ensures
        last_dot(w) == d,
        extension_of(w) == Some(ext),
        stem_of(w) == w.take(d),
{
    assert forall|k: int| d < k < w.len() implies w[k] != '.' by {
        assert(w[k] == ext[k - d - 1]);
    }
    super::model::lemma_last_dot_unique(w, d);
    assert(w.len() >= 3);
}

/// Popping after pushing a plain name onto a nonempty path gives a path with the
/// components of the first.
pub proof fn law_pop_undoes_push(a: Seq<char>, n: Seq<char>)
    requires
        a.len() > 0,
        is_plain_name(n),
    ensures
        parent_text(push_text(a, n)) is Some,
        components(parent_text(push_text(a, n)).unwrap()) == components(a),
{
    let r = push_text(a, n);
    lemma_plain_name(n, 0);
    law_push_components(a, n);
    assert(relative_components(n) == seq![ComponentView::Normal(n)]);
    assert(components(r) == components(a) + seq![ComponentView::Normal(n)]);
    assert(components(r).last() == component_spans(r).last().comp);
    assert(parent_text(r) is Some);
    law_parent_components(r);
    assert(components(r).drop_last() =~= components(a));
}

/// Components that are a root followed by normal components only.
pub open spec fn is_resolved(cs: Seq<ComponentView>) -> bool {
    &&& cs.len() >= 1
    &&& cs[0] == ComponentView::RootDir
    &&& forall|i: int| 1 <= i < cs.len() ==> #[trigger] cs[i] is Normal
}

/// A normal component of a path is a plain name.
proof fn lemma_normal_is_plain(s: Seq<char>, j: int)
    requires
        0 <= j < components(s).len(),
        components(s)[j] is Normal,
    ensures
        is_plain_name(components(s)[j]->Normal_0),
{
    let cs = component_spans(s);
    let pl = prefix_len(s);
    let bb = s.skip(pl);
    let pre = prefix_spans(s);
    let bs = body_spans(bb, pl);
    assert(cs == pre + bs);
    lemma_body_bounds(bb, pl);
    assert(components(s)[j] == cs[j].comp);
    assert(j >= pre.len());
    let sp = cs[j];
    assert(sp == bs[j - pre.len()]);
    assert(body_span_ok(bb, pl, sp));
    let n = components(s)[j]->Normal_0;
    assert(s.subrange(sp.start, sp.end) == n) by {
        lemma_component_spans_fit(s);
        assert(cs[j] == sp);
    }
    assert(!has_sep(n)) by {
        if has_sep(n) {
            let k = choose|k: int| 0 <= k < n.len() && n[k] == '/';
            assert(n[k] == bb[sp.start - pl + k]);
        }
    }
    assert(n != seq!['.']) by {
        if n == seq!['.'] {
            assert(bb[sp.start - pl] == n[0]);
        }
    }
}

/// A path whose first component is the root begins with `/`, and no later component is a
/// root or `.`.
proof fn lemma_root_first(s: Seq<char>)
    ensures
        components(s).len() > 0 && components(s)[0] == ComponentView::RootDir
            <==> starts_with_root(s),
        forall|i: int|
            1 <= i < components(s).len() ==> #[trigger] components(s)[i] != ComponentView::RootDir
                && components(s)[i] != ComponentView::CurDir,
{
    lemma_component_spans_fit(s);
    let cs = component_spans(s);
    assert forall|i: int| 1 <= i < components(s).len() implies #[trigger] components(s)[i]
        != ComponentView::RootDir && components(s)[i] != ComponentView::CurDir by {
        assert(components(s)[i] == cs[i].comp);
    }
    let pl = prefix_len(s);
    let bb = s.skip(pl);
    let bs = body_spans(bb, pl);
    assert(cs == prefix_spans(s) + bs);
    lemma_body_bounds(bb, pl);
    if !starts_with_root(s) && cs.len() > 0 {
        if prefix_spans(s).len() == 0 {
            assert(cs[0] == bs[0]);
            assert(body_span_ok(bb, pl, bs[0]));
        }
    }
}

/// One step of [`absolute_fold`] keeps a resolved path resolved.
proof fn lemma_resolved_step(acc: Seq<char>, c: ComponentView)
    requires
        starts_with_root(acc),
        is_resolved(components(acc)),
        c != ComponentView::RootDir,
        c != ComponentView::CurDir,
        c matches ComponentView::Normal(n) ==> is_plain_name(n),
    ensures
        starts_with_root(absolute_step(acc, c)),
        is_resolved(components(absolute_step(acc, c))),
{
    let cs = components(acc);
    match c {
        ComponentView::ParentDir => {
            if parent_text(acc) is Some {
                let p = parent_text(acc).unwrap();
                law_parent_components(acc);
                assert(components(p) == cs.drop_last());
                lemma_component_spans_fit(acc);
                assert(component_spans(acc).last().comp != ComponentView::RootDir);
                assert(cs.last() == component_spans(acc).last().comp);
                assert(cs.len() >= 2);
                assert(components(p)[0] == ComponentView::RootDir);
                lemma_root_first(p);
                assert forall|i: int| 1 <= i < components(p).len() implies #[trigger] components(
                    p,
                )[i] is Normal by {
                    assert(components(p)[i] == cs[i]);
                }
            }
        },
        ComponentView::Normal(n) => {
            law_push_components(acc, n);
            lemma_plain_name(n, 0);
            let r = push_text(acc, n);
            assert(relative_components(n) == seq![ComponentView::Normal(n)]);
            assert(components(r) == cs + seq![ComponentView::Normal(n)]);
            assert(r[0] == acc[0]);
            assert forall|i: int| 1 <= i < components(r).len() implies #[trigger] components(r)[i] is Normal by {
                if i < cs.len() {
                    assert(components(r)[i] == cs[i]);
                }
            }
        },
        _ => {},
    }
}

/// Making a nonempty relative path absolute against an absolute working directory gives
/// an absolute path with every `.` and `..` resolved: the root followed by normal
/// components only.
pub proof fn law_absolute_is_resolved(path: Seq<char>, cwd: Seq<char>)
    requires
        path.len() > 0,
        !starts_with_root(path),
        starts_with_root(cwd),
    ensures
        absolute_text(path, cwd) is Some,
        starts_with_root(absolute_text(path, cwd).unwrap()),
        is_resolved(components(absolute_text(path, cwd).unwrap())),
{
    let joined = push_text(cwd, path);
    assert(joined[0] == '/');
    let all = components(joined);
    lemma_root_first(joined);
    lemma_fold_resolved(joined, all.len() as int);
    assert(all.take(all.len() as int) =~= all);
}

/// The first `k` steps of making `joined` absolute give a resolved path, when `joined`
/// begins with the root.
proof fn lemma_fold_resolved(joined: Seq<char>, k: int)
    requires
        starts_with_root(joined),
        1 <= k <= components(joined).len(),
    ensures
        starts_with_root(absolute_fold(components(joined).take(k))),
        is_resolved(components(absolute_fold(components(joined).take(k)))),
    decreases k,
{
    let all = components(joined);
    lemma_root_first(joined);
    if k == 1 {
        let root = seq!['/'];
        assert(absolute_fold(all.take(1)) == root) by {
            assert(all.take(1).drop_last() =~= Seq::<ComponentView>::empty());
            assert(absolute_fold(Seq::<ComponentView>::empty()) == Seq::<char>::empty());
            assert(push_text(Seq::<char>::empty(), root) == root);
        }
        assert(components(root) =~= seq![ComponentView::RootDir]) by {
            assert(root.skip(1) =~= Seq::<char>::empty());
            assert(body_spans(Seq::<char>::empty(), 1) =~= Seq::<Span>::empty());
        }
    } else {
        lemma_fold_resolved(joined, k - 1);
        let acc = absolute_fold(all.take(k - 1));
        assert(all.take(k).drop_last() =~= all.take(k - 1));
        assert(all.take(k).last() == all[k - 1]);
        if all[k - 1] is Normal {
            lemma_normal_is_plain(joined, k - 1);
        }
        lemma_resolved_step(acc, all[k - 1]);
    }
}


/// What a run of calls on an iterator whose remaining components are `cs` returns, call
/// by call; `moves[i]` tells whether the `i`-th call is from the back.
pub open spec fn component_calls(cs: Seq<ComponentView>, moves: Seq<bool>) -> Seq<
    Option<ComponentView>,
>
    decreases moves.len(),
{
    if moves.len() == 0 {
        seq![]
    } else {
        seq![call_result(cs, moves[0])] + component_calls(
            after_call(cs, moves[0]),
            moves.drop_first(),
        )
    }
}

/// The components that the calls from the front of such a run read, in the order read.
pub open spec fn front_reads(cs: Seq<ComponentView>, moves: Seq<bool>) -> Seq<ComponentView>
    decreases moves.len(),
{
    if moves.len() == 0 {
        seq![]
    } else if cs.len() > 0 && !moves[0] {
        seq![cs[0]] + front_reads(cs.drop_first(), moves.drop_first())
    } else {
        front_reads(after_call(cs, moves[0]), moves.drop_first())
    }
}

/// The components that the calls from the back of such a run read, in the order read.
pub open spec fn back_reads(cs: Seq<ComponentView>, moves: Seq<bool>) -> Seq<ComponentView>
    decreases moves.len(),
{
    if moves.len() == 0 {
        seq![]
    } else if cs.len() > 0 && moves[0] {
        seq![cs.last()] + back_reads(cs.drop_last(), moves.drop_first())
    } else {
        back_reads(after_call(cs, moves[0]), moves.drop_first())
    }
}

/// The components left after such a run.
pub open spec fn left_after(cs: Seq<ComponentView>, moves: Seq<bool>) -> Seq<ComponentView>
    decreases moves.len(),
{
    if moves.len() == 0 {
        cs
    } else {
        left_after(after_call(cs, moves[0]), moves.drop_first())
    }
}

/// Reading a path's components from both ends, in any interleaving of calls from the
/// front and from the back, reads each component exactly once: what the front calls read,
/// then what is left, then what the back calls read in reverse, are the components in
/// order. The first `cs.len()` calls each return a component and every later call returns
/// none; so reading from the front alone gives the components, and from the back alone
/// gives them reversed.
pub proof fn law_components_both_ends(cs: Seq<ComponentView>, moves: Seq<bool>)
    ensures
        front_reads(cs, moves) + left_after(cs, moves) + back_reads(cs, moves).reverse() == cs,
        component_calls(cs, moves).len() == moves.len(),
        forall|i: int|
            0 <= i < moves.len() ==> (#[trigger] component_calls(cs, moves)[i] is Some <==> i
                < cs.len()),
        moves.len() >= cs.len() ==> front_reads(cs, moves) + back_reads(cs, moves).reverse()
            == cs,
        (forall|i: int| 0 <= i < moves.len() ==> !#[trigger] moves[i]) ==> front_reads(cs, moves)
            == cs.take(if moves.len() < cs.len() { moves.len() as int } else { cs.len() as int }),
        (forall|i: int| 0 <= i < moves.len() ==> #[trigger] moves[i]) && moves.len() >= cs.len()
            ==> back_reads(cs, moves) == cs.reverse(),
    decreases moves.len(),
{
    if moves.len() == 0 {
        assert(front_reads(cs, moves) + left_after(cs, moves) + back_reads(cs, moves).reverse()
            =~= cs);
        assert(cs.take(0) =~= Seq::<ComponentView>::empty());
    } else {
        let m = moves.drop_first();
        let rest = after_call(cs, moves[0]);
        law_components_both_ends(rest, m);
        let out = component_calls(cs, moves);
        let out2 = component_calls(rest, m);
        assert forall|i: int| 0 <= i < moves.len() implies (#[trigger] out[i] is Some <==> i
            < cs.len()) by {
            if i > 0 {
                assert(out[i] == out2[i - 1]);
            }
        }
        assert forall|i: int| 0 <= i < m.len() implies (m[i] == moves[i + 1]) by {}
        if cs.len() == 0 {
            assert(rest == cs);
            assert(front_reads(cs, moves) == front_reads(rest, m));
            assert(back_reads(cs, moves) == back_reads(rest, m));
            assert(cs.take(0) =~= Seq::<ComponentView>::empty());
            assert(front_reads(rest, m) + left_after(rest, m) + back_reads(rest, m).reverse()
                == rest);
            if (forall|i: int| 0 <= i < moves.len() ==> !#[trigger] moves[i]) {
                assert(front_reads(rest, m).len() == 0);
            }
        } else if moves[0] {
            let f = front_reads(rest, m);
            let l = left_after(rest, m);
            let b = back_reads(rest, m);
            assert(back_reads(cs, moves) == seq![cs.last()] + b);
            assert((seq![cs.last()] + b).reverse() =~= b.reverse().push(cs.last()));
            assert(f + l + b.reverse().push(cs.last()) =~= (f + l + b.reverse()).push(cs.last()));
            assert(cs =~= cs.drop_last().push(cs.last()));
            if (forall|i: int| 0 <= i < moves.len() ==> #[trigger] moves[i]) && moves.len()
                >= cs.len() {
                assert(forall|i: int| 0 <= i < m.len() ==> #[trigger] m[i]);
                assert(b == rest.reverse());
                assert(back_reads(cs, moves) =~= cs.reverse());
            }
            if moves.len() >= cs.len() {
                assert(f + b.reverse() == rest);
                assert(f + (seq![cs.last()] + b).reverse() =~= (f + b.reverse()).push(cs.last()));
            }
        } else {
            let f = front_reads(rest, m);
            let l = left_after(rest, m);
            let b = back_reads(rest, m);
            assert(front_reads(cs, moves) == seq![cs[0]] + f);
            assert(seq![cs[0]] + f + l + b.reverse() =~= seq![cs[0]] + (f + l + b.reverse()));
            assert(cs =~= seq![cs[0]] + cs.drop_first());
            if moves.len() >= cs.len() {
                assert(seq![cs[0]] + f + b.reverse() =~= seq![cs[0]] + (f + b.reverse()));
            }
            if (forall|i: int| 0 <= i < moves.len() ==> !#[trigger] moves[i]) {
                assert(forall|i: int| 0 <= i < m.len() ==> !#[trigger] m[i]);
                let k = if m.len() < rest.len() { m.len() as int } else { rest.len() as int };
                assert(f == rest.take(k));
                let k2 = if moves.len() < cs.len() { moves.len() as int } else { cs.len() as int };
                assert(k2 == k + 1);
                assert(seq![cs[0]] + rest.take(k) =~= cs.take(k2));
            }
        }
    }
}

/// What a run of `n` calls of [`Ancestors::next`](super::Ancestors) returns, call by call,
/// when the path it yields next is `next`.
pub open spec fn ancestor_calls(next: Option<Seq<char>>, n: nat) -> Seq<Option<Seq<char>>>
    decreases n,
{
    if n == 0 {
        seq![]
    } else {
        match next {
            Some(v) => seq![Some(v)] + ancestor_calls(parent_text(v), (n - 1) as nat),
            None => seq![None] + ancestor_calls(None, (n - 1) as nat),
        }
    }
}

proof fn lemma_ancestor_calls_none(n: nat)
    ensures
        ancestor_calls(None, n).len() == n,
        forall|i: int| 0 <= i < n ==> #[trigger] ancestor_calls(None, n)[i] is None,
    decreases n,
{
    if n > 0 {
        lemma_ancestor_calls_none((n - 1) as nat);
        let out = ancestor_calls(None, n);
        assert forall|i: int| 0 <= i < n implies #[trigger] out[i] is None by {
            if i > 0 {
                assert(out[i] == ancestor_calls(None, (n - 1) as nat)[i - 1]);
            }
        }
    }
}

/// The ancestors of a path: the path itself first, then each item's parent in turn; the
/// `i`-th has the first `len - i` components of the path (`len` its number of
/// components), so the iteration ends for good after at most `len + 1` items, at the first
/// item that has no parent.
pub proof fn law_ancestors(s: Seq<char>, n: nat)
    ensures
        ancestor_calls(Some(s), n).len() == n,
        n > 0 ==> ancestor_calls(Some(s), n)[0] == Some(s),
        forall|i: int|
            0 <= i < n - 1 ==> #[trigger] ancestor_calls(Some(s), n)[i + 1] == match ancestor_calls(
                Some(s),
                n,
            )[i] {
                Some(v) => parent_text(v),
                None => None,
            },
        forall|i: int|
            0 <= i < n ==> (#[trigger] ancestor_calls(Some(s), n)[i] matches Some(v) ==> components(
                v,
            ) == components(s).take(components(s).len() - i)),
        forall|i: int|
            0 <= i < n && i > components(s).len() ==> #[trigger] ancestor_calls(Some(s), n)[i] is None,
        forall|i: int, j: int|
            #![trigger ancestor_calls(Some(s), n)[i], ancestor_calls(Some(s), n)[j]]
            0 <= i < j < n && ancestor_calls(Some(s), n)[i] is None ==> ancestor_calls(Some(s), n)[j]
                is None,
    decreases n,
{
    let out = ancestor_calls(Some(s), n);
    let len = components(s).len();
    if n > 0 {
        let p = parent_text(s);
        let out2 = ancestor_calls(p, (n - 1) as nat);
        assert(out == seq![Some(s)] + out2);
        assert(components(s).take(len - 0) =~= components(s));
        match p {
            None => {
                lemma_ancestor_calls_none((n - 1) as nat);
                assert forall|i: int| 0 <= i < n - 1 implies #[trigger] out[i + 1] == match out[i] {
                    Some(v) => parent_text(v),
                    None => None,
                } by {
                    assert(out[i + 1] == out2[i]);
                    if i > 0 {
                        assert(out[i] == out2[i - 1]);
                    }
                }
                assert forall|i: int, j: int|
                    #![trigger out[i], out[j]]
                    0 <= i < j < n && out[i] is None implies out[j] is None by {
                    assert(out[j] == out2[j - 1]);
                }
            },
            Some(q) => {
                law_ancestors(q, (n - 1) as nat);
                law_parent_components(s);
                let lq = components(q).len();
                assert(lq == len - 1);
                assert forall|i: int| 0 <= i < n - 1 implies #[trigger] out[i + 1] == match out[i] {
                    Some(v) => parent_text(v),
                    None => None,
                } by {
                    assert(out[i + 1] == out2[i]);
                    if i > 0 {
                        assert(out[i] == out2[i - 1]);
                        assert(out2[(i - 1) + 1] == match out2[i - 1] {
                            Some(v) => parent_text(v),
                            None => None,
                        });
                    } else {
                        assert(out2[0] == Some(q));
                    }
                }
                assert forall|i: int|
                    0 <= i < n implies (#[trigger] out[i] matches Some(v) ==> components(v)
                    == components(s).take(len - i)) by {
                    if i > 0 {
                        assert(out[i] == out2[i - 1]);
                        if let Some(v) = out2[i - 1] {
                            assert(components(v) == components(q).take(lq - (i - 1)));
                            assert(components(q).take(lq - (i - 1)) =~= components(s).take(len
                                - i));
                        }
                    }
                }
                assert forall|i: int|
                    0 <= i < n && i > len implies #[trigger] out[i] is None by {
                    assert(out[i] == out2[i - 1]);
                }
                assert forall|i: int, j: int|
                    #![trigger out[i], out[j]]
                    0 <= i < j < n && out[i] is None implies out[j] is None by {
                    assert(out[j] == out2[j - 1]);
                    assert(i > 0);
                    assert(out[i] == out2[i - 1]);
                }
            },
        }
    }
}

} // verus!