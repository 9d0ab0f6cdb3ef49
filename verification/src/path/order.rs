//! How paths are ordered: component by component, a root before `.` before `..` before
//! normal components, and normal components by their characters.
use vstd::prelude::*;
use vstd::std_specs::cmp::PartialOrdSpecImpl;
use core::cmp::Ordering;

use super::buf::PathBuf;
use super::components::{Component, Components};
use super::model::{components, lemma_comps_of_skip, ComponentView};
use super::Path;

verus! {

/// The lexicographic order of two texts: character by character, a text before any longer
/// text it begins.
pub open spec fn text_order(a: Seq<char>, b: Seq<char>) -> Ordering
    decreases a.len(),
{
    if a.len() == 0 {
        if b.len() == 0 {
            Ordering::Equal
        } else {
            Ordering::Less
        }
    } else if b.len() == 0 {
        Ordering::Greater
    } else if a[0] < b[0] {
        Ordering::Less
    } else if a[0] > b[0] {
        Ordering::Greater
    } else {
        text_order(a.drop_first(), b.drop_first())
    }
}

/// The place of a kind of component in the order: root, `.`, `..`, normal.
pub open spec fn component_rank(c: ComponentView) -> int {
    match c {
        ComponentView::RootDir => 0,
        ComponentView::CurDir => 1,
        ComponentView::ParentDir => 2,
        ComponentView::Normal(_) => 3,
    }
}

/// How two components compare: by kind, and normal ones by their text.
pub open spec fn component_order(a: ComponentView, b: ComponentView) -> Ordering {
    if component_rank(a) < component_rank(b) {
        Ordering::Less
    } else if component_rank(a) > component_rank(b) {
        Ordering::Greater
    } else {
        match (a, b) {
            (ComponentView::Normal(x), ComponentView::Normal(y)) => text_order(x, y),
            _ => Ordering::Equal,
        }
    }
}

/// The lexicographic order of two sequences of components.
pub open spec fn components_order(a: Seq<ComponentView>, b: Seq<ComponentView>) -> Ordering
    decreases a.len(),
{
    if a.len() == 0 {
        if b.len() == 0 {
            Ordering::Equal
        } else {
            Ordering::Less
        }
    } else if b.len() == 0 {
        Ordering::Greater
    } else if component_order(a[0], b[0]) != Ordering::Equal {
        component_order(a[0], b[0])
    } else {
        components_order(a.drop_first(), b.drop_first())
    }
}

/// How two texts compare, see [`text_order`].
fn compare_text(a: &str, b: &str) -> (r: Ordering)
    ensures
        r == text_order(a@, b@),
{
    let n = a.unicode_len();
    let m = b.unicode_len();
    let mut i: usize = 0;
    let ghost mut k: int = 0;
    proof {
        assert(a@.skip(0) =~= a@);
        assert(b@.skip(0) =~= b@);
    }
    while i < n && i < m && a.get_char(i) == b.get_char(i)
        invariant
            n == a@.len(),
            m == b@.len(),
            k == i,
            i <= n,
            i <= m,
            text_order(a@, b@) == text_order(a@.skip(k), b@.skip(k)),
        decreases n - i,
    {
        proof {
            assert(a@.skip(k).drop_first() =~= a@.skip(k + 1));
            assert(b@.skip(k).drop_first() =~= b@.skip(k + 1));
            k = k + 1;
        }
        i = i + 1;
    }
    if i == n {
        if i == m {
            Ordering::Equal
        } else {
            Ordering::Less
        }
    } else if i == m {
        Ordering::Greater
    } else if a.get_char(i) < b.get_char(i) {
        Ordering::Less
    } else {
        Ordering::Greater
    }
}

/// The place of a kind of component in the order, see [`component_rank`].
fn rank(c: Component<'_>) -> (r: u8)
    ensures
        r == component_rank(c@),
{
    match c {
        Component::RootDir => 0,
        Component::CurDir => 1,
        Component::ParentDir => 2,
        Component::Normal(_) => 3,
    }
}

/// How two components compare, see [`component_order`].
fn compare_component(a: Component<'_>, b: Component<'_>) -> (r: Ordering)
    ensures
        r == component_order(a@, b@),
{
    let x = rank(a);
    let y = rank(b);
    if x < y {
        Ordering::Less
    } else if x > y {
        Ordering::Greater
    } else {
        match (a, b) {
            (Component::Normal(p), Component::Normal(q)) => compare_text(p, q),
            _ => Ordering::Equal,
        }
    }
}

/// How the components left in two iterators compare, see [`components_order`].
pub fn compare_components(a: Components<'_>, b: Components<'_>) -> (r: Ordering)
    requires
        a.wf(),
        b.wf(),
    ensures
        r == components_order(a.comps(), b.comps()),
{
    let mut x = a;
    let mut y = b;
    let ghost mut k: int = 0;
    proof {
        assert(a.spans().skip(0) =~= a.spans());
        assert(b.spans().skip(0) =~= b.spans());
        assert(a.comps().skip(0) =~= a.comps());
        assert(b.comps().skip(0) =~= b.comps());
    }
    loop
        invariant
            x.wf(),
            y.wf(),
            0 <= k <= a.spans().len(),
            0 <= k <= b.spans().len(),
            x.spans() == a.spans().skip(k),
            y.spans() == b.spans().skip(k),
            components_order(a.comps(), b.comps()) == components_order(
                a.comps().skip(k),
                b.comps().skip(k),
            ),
        decreases x.spans().len(),
    {
        let ghost ac = a.comps();
        let ghost bc = b.comps();
        proof {
            lemma_comps_of_skip(a.spans(), k);
            lemma_comps_of_skip(b.spans(), k);
        }
        let p = x.next();
        let q = y.next();
        match (p, q) {
            (Some(p), Some(q)) => {
                proof {
                    assert(p@ == ac[k]);
                    assert(q@ == bc[k]);
                    assert(ac.skip(k)[0] == ac[k]);
                    assert(bc.skip(k)[0] == bc[k]);
                }
                let c = compare_component(p, q);
                match c {
                    Ordering::Equal => {},
                    _ => {
                        return c;
                    },
                }
                proof {
                    assert(ac.skip(k).drop_first() =~= ac.skip(k + 1));
                    assert(bc.skip(k).drop_first() =~= bc.skip(k + 1));
                    assert(a.spans().skip(k).drop_first() =~= a.spans().skip(k + 1));
                    assert(b.spans().skip(k).drop_first() =~= b.spans().skip(k + 1));
                    k = k + 1;
                }
            },
            (None, None) => {
                return Ordering::Equal;
            },
            (Some(_), None) => {
                return Ordering::Greater;
            },
            (None, Some(_)) => {
                return Ordering::Less;
            },
        }
    }
}

impl<'a> Path<'a> {
    /// How `self` compares with `other`, component by component, see
    /// [`components_order`].
    pub fn cmp(&self, other: &Path<'_>) -> (r: Ordering)
        ensures
            r == components_order(components(self@), components(other@)),
    {
        compare_components(self.components(), other.components())
    }
}

impl PathBuf {
    /// How `self` compares with `other`, component by component, see
    /// [`components_order`].
    pub fn cmp(&self, other: &PathBuf) -> (r: Ordering)
        ensures
            r == components_order(components(self@), components(other@)),
    {
        self.as_path().cmp(&other.as_path())
    }
}

impl<'a> PartialOrd for Path<'a> {
    /// Paths are always comparable, see [`Path::cmp`].
    fn partial_cmp(&self, other: &Path<'a>) -> (r: Option<Ordering>) {
        Some(self.cmp(other))
    }
}

impl<'a> PartialOrdSpecImpl for Path<'a> {
    open spec fn obeys_partial_cmp_spec() -> bool {
        true
    }

    open spec fn partial_cmp_spec(&self, other: &Path<'a>) -> Option<Ordering> {
        Some(components_order(components(self@), components(other@)))
    }
}

impl PartialOrd for PathBuf {
    /// Paths are always comparable, see [`PathBuf::cmp`].
    fn partial_cmp(&self, other: &PathBuf) -> (r: Option<Ordering>) {
        Some(self.cmp(other))
    }
}

impl PartialOrdSpecImpl for PathBuf {
    open spec fn obeys_partial_cmp_spec() -> bool {
        true
    }

    open spec fn partial_cmp_spec(&self, other: &PathBuf) -> Option<Ordering> {
        Some(components_order(components(self@), components(other@)))
    }
}

/// Paths compare equal exactly when they have the same components, the order that
/// comparison gives is the same both ways round, and it agrees with `==`.
pub proof fn law_order_matches_equality(a: Seq<ComponentView>, b: Seq<ComponentView>)
    ensures
        (components_order(a, b) == Ordering::Equal) == (a == b),
        (components_order(a, b) == Ordering::Less) == (components_order(b, a)
            == Ordering::Greater),
    decreases a.len() + b.len(),
{
    if a.len() > 0 && b.len() > 0 {
        lemma_component_order(a[0], b[0]);
        lemma_component_order(b[0], a[0]);
        law_order_matches_equality(a.drop_first(), b.drop_first());
        law_order_matches_equality(b.drop_first(), a.drop_first());
        if components_order(a, b) == Ordering::Equal {
            assert(a[0] == b[0]);
            assert(a.drop_first() =~= b.drop_first());
            assert forall|i: int| 0 <= i < a.len() implies a[i] == b[i] by {
                if i > 0 {
                    assert(a[i] == a.drop_first()[i - 1]);
                    assert(b[i] == b.drop_first()[i - 1]);
                }
            }
            assert(a =~= b);
        }
        if a =~= b {
            assert(a.drop_first() =~= b.drop_first());
            assert(components_order(a, b) == Ordering::Equal);
        }
    } else if a.len() != b.len() {
        assert(!(a =~= b));
    } else {
        assert(a =~= b);
    }
}

/// Two components compare equal exactly when they are the same, and their order is the
/// same both ways round.
proof fn lemma_component_order(a: ComponentView, b: ComponentView)
    ensures
        (component_order(a, b) == Ordering::Equal) == (a == b),
        (component_order(a, b) == Ordering::Less) == (component_order(b, a) == Ordering::Greater),
{
    if let (ComponentView::Normal(x), ComponentView::Normal(y)) = (a, b) {
        lemma_text_order(x, y);
    }
}

/// Two texts compare equal exactly when they are the same, and their order is the same
/// both ways round.
proof fn lemma_text_order(a: Seq<char>, b: Seq<char>)
    ensures
        (text_order(a, b) == Ordering::Equal) == (a == b),
        (text_order(a, b) == Ordering::Less) == (text_order(b, a) == Ordering::Greater),
    decreases a.len(),
{
    if a.len() > 0 && b.len() > 0 {
        lemma_text_order(a.drop_first(), b.drop_first());
        if text_order(a, b) == Ordering::Equal {
            assert(a[0] == b[0]);
            assert(a.drop_first() =~= b.drop_first());
            assert forall|i: int| 0 <= i < a.len() implies a[i] == b[i] by {
                if i > 0 {
                    assert(a[i] == a.drop_first()[i - 1]);
                    assert(b[i] == b.drop_first()[i - 1]);
                }
            }
            assert(a =~= b);
        }
        if a =~= b {
            assert(a.drop_first() =~= b.drop_first());
            assert(text_order(a, b) == Ordering::Equal);
        }
    } else if a.len() != b.len() {
        assert(!(a =~= b));
    } else {
        assert(a =~= b);
    }
}

/// Texts compare as strings do, whatever their lengths: at the first place where they
/// differ, the one with the smaller character there comes first.
pub proof fn law_text_order_lexicographic(x: Seq<char>, y: Seq<char>, i: int)
    requires
        0 <= i < x.len(),
        i < y.len(),
        forall|k: int| 0 <= k < i ==> x[k] == y[k],
        x[i] < y[i],
    ensures
        text_order(x, y) == Ordering::Less,
        text_order(y, x) == Ordering::Greater,
    decreases i,
{
    if i > 0 {
        assert(x[0] == y[0]);
        assert forall|k: int| 0 <= k < i - 1 implies x.drop_first()[k] == y.drop_first()[k] by {
            assert(x[k + 1] == y[k + 1]);
        }
        law_text_order_lexicographic(x.drop_first(), y.drop_first(), i - 1);
    }
}

/// A text comes before every longer text that begins with it, and a text is equal to
/// itself.
pub proof fn law_text_order_prefix(x: Seq<char>, y: Seq<char>)
    requires
        x.len() < y.len(),
        forall|k: int| 0 <= k < x.len() ==> x[k] == y[k],
    ensures
        text_order(x, y) == Ordering::Less,
        text_order(y, x) == Ordering::Greater,
        text_order(x, x) == Ordering::Equal,
    decreases x.len(),
{
    lemma_text_order(x, x);
    if x.len() > 0 {
        assert forall|k: int| 0 <= k < x.drop_first().len() implies x.drop_first()[k]
            == y.drop_first()[k] by {
            assert(x[k + 1] == y[k + 1]);
        }
        law_text_order_prefix(x.drop_first(), y.drop_first());
    }
}

/// Components of different kinds come in the order root, `.`, `..`, normal; two normal
/// components compare as their texts.
pub proof fn law_component_kinds(x: Seq<char>, y: Seq<char>)
    ensures
        component_order(ComponentView::RootDir, ComponentView::CurDir) == Ordering::Less,
        component_order(ComponentView::CurDir, ComponentView::ParentDir) == Ordering::Less,
        component_order(ComponentView::ParentDir, ComponentView::Normal(x)) == Ordering::Less,
        component_order(ComponentView::RootDir, ComponentView::Normal(x)) == Ordering::Less,
        component_order(ComponentView::CurDir, ComponentView::Normal(x)) == Ordering::Less,
        component_order(ComponentView::RootDir, ComponentView::ParentDir) == Ordering::Less,
        component_order(ComponentView::Normal(x), ComponentView::Normal(y)) == text_order(x, y),
{
}

/// Sequences of components compare lexicographically: at the first place where they
/// differ the smaller component comes first, and a sequence comes before every longer one
/// that begins with it.
pub proof fn law_components_order_lexicographic(a: Seq<ComponentView>, b: Seq<ComponentView>, i: int)
    requires
        0 <= i <= a.len(),
        i <= b.len(),
        forall|k: int| 0 <= k < i ==> a[k] == b[k],
        (i < a.len() && i < b.len() && component_order(a[i], b[i]) == Ordering::Less) || (i
            == a.len() && a.len() < b.len()),
    ensures
        components_order(a, b) == Ordering::Less,
        components_order(b, a) == Ordering::Greater,
    decreases i,
{
    law_order_matches_equality(a, b);
    if i > 0 {
        assert(a[0] == b[0]);
        lemma_component_order(a[0], b[0]);
        assert forall|k: int| 0 <= k < i - 1 implies a.drop_first()[k] == b.drop_first()[k] by {
            assert(a[k + 1] == b[k + 1]);
        }
        law_components_order_lexicographic(a.drop_first(), b.drop_first(), i - 1);
    }
}

} // verus!
