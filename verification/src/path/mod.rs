//! Path manipulation on `/`-separated paths.
//!
//! [`Path`] is a borrowed path (akin to `&str`) and [`PathBuf`] an owned one (akin to
//! `String`). A path is read as a sequence of [`Component`]s, see [`Path::components`].
pub mod buf;
pub mod components;
pub mod laws;
pub mod model;
pub mod order;

use vstd::prelude::*;
use vstd::std_specs::cmp::PartialEqSpecImpl;
use vstd::string::*;

pub use buf::PathBuf;
use buf::{components_eq, set_extension_text, set_file_name_text};
pub use components::{Component, Components};
use components::same_component;
use model::{
    absolute_fold, absolute_text, component_spans, component_text, components, comps_of,
    extension_of, file_name_of, is_prefix_of, is_suffix_of, last_dot, lemma_comps_of_skip,
    lemma_last_dot, lemma_last_dot_unique, parent_text, push_text, starts_with_root, stem_of,
    strip_prefix_text, ComponentView,
};

verus! {

/// The separator of path components, `/`.
pub const MAIN_SEPARATOR: char = '/';

/// Determines whether the character is the path separator `/`.
pub fn is_separator(c: char) -> (r: bool)
    ensures
        r == (c == '/'),
{
    c == MAIN_SEPARATOR
}

/// The view of an optional string slice.
pub open spec fn opt_view(o: Option<&str>) -> Option<Seq<char>> {
    match o {
        Some(s) => Some(s@),
        None => None,
    }
}

/// Iterates through `iter` while it matches `prefix`; `None` if the components of `prefix`
/// are not a leading part of those of `iter`, otherwise `iter` after them.
pub fn iter_after<'a, 'b>(iter: Components<'a>, prefix: Components<'b>) -> (r: Option<
    Components<'a>,
>)
    requires
        iter.wf(),
        prefix.wf(),
    ensures
        r is Some <==> is_prefix_of(prefix.comps(), iter.comps()),
        r matches Some(it) ==> it.wf() && it.whole() == iter.whole() && it.spans() == iter.spans().skip(
            prefix.comps().len() as int,
        ),
{
    let mut it = iter;
    let mut other = prefix;
    let ghost mut k: int = 0;
    loop
        invariant
            it.wf(),
            other.wf(),
            it.whole() == iter.whole(),
            0 <= k <= iter.spans().len(),
            0 <= k <= prefix.spans().len(),
            it.spans() == iter.spans().skip(k),
            other.spans() == prefix.spans().skip(k),
            iter.comps().take(k) == prefix.comps().take(k),
        decreases it.spans().len(),
    {
        let ghost ic = iter.comps();
        let ghost pc = prefix.comps();
        proof {
            lemma_comps_of_skip(iter.spans(), k);
            lemma_comps_of_skip(prefix.spans(), k);
        }
        let mut iter_next = it;
        let x = iter_next.next();
        let y = other.next();
        match (x, y) {
            (Some(a), Some(b)) => {
                proof {
                    assert(a@ == ic[k]);
                    assert(b@ == pc[k]);
                }
                if !same_component(a, b) {
                    proof {
                        if is_prefix_of(pc, ic) {
                            assert(ic.take(pc.len() as int)[k] == ic[k]);
                        }
                    }
                    return None;
                }
                proof {
                    assert(ic.take(k + 1) =~= ic.take(k).push(ic[k]));
                    assert(pc.take(k + 1) =~= pc.take(k).push(pc[k]));
                    assert(iter.spans().skip(k).drop_first() =~= iter.spans().skip(k + 1));
                    assert(prefix.spans().skip(k).drop_first() =~= prefix.spans().skip(k + 1));
                    k = k + 1;
                }
            },
            (Some(_), None) => {
                proof {
                    assert(pc.len() == k);
                    assert(pc.take(k) =~= pc);
                }
                return Some(it);
            },
            (None, None) => {
                proof {
                    assert(pc.len() == k);
                    assert(pc.take(k) =~= pc);
                }
                return Some(it);
            },
            (None, Some(_)) => {
                proof {
                    assert(ic.len() == k);
                }
                return None;
            },
        }
        it = iter_next;
    }
}

/// Like [`iter_after`], but matching from the back: whether the components of `suffix`
/// are a trailing part of those of `iter`.
pub fn iter_after_back<'a, 'b>(iter: Components<'a>, suffix: Components<'b>) -> (r: bool)
    requires
        iter.wf(),
        suffix.wf(),
    ensures
        r == is_suffix_of(suffix.comps(), iter.comps()),
{
    let mut it = iter;
    let mut other = suffix;
    let ghost mut k: int = 0;
    loop
        invariant
            it.wf(),
            other.wf(),
            0 <= k <= iter.spans().len(),
            0 <= k <= suffix.spans().len(),
            it.spans() == iter.spans().take(iter.spans().len() - k),
            other.spans() == suffix.spans().take(suffix.spans().len() - k),
            iter.comps().skip(iter.comps().len() - k) == suffix.comps().skip(
                suffix.comps().len() - k,
            ),
        decreases it.spans().len(),
    {
        let ghost ic = iter.comps();
        let ghost sc = suffix.comps();
        let ghost n = ic.len() as int;
        let ghost m = sc.len() as int;
        proof {
            lemma_comps_of_skip(iter.spans(), n - k);
            lemma_comps_of_skip(suffix.spans(), m - k);
        }
        let x = it.next_back();
        let y = other.next_back();
        match (x, y) {
            (Some(a), Some(b)) => {
                proof {
                    assert(a@ == ic[n - k - 1]);
                    assert(b@ == sc[m - k - 1]);
                }
                if !same_component(a, b) {
                    proof {
                        if is_suffix_of(sc, ic) {
                            assert(ic.skip(n - m)[m - k - 1] == ic[n - k - 1]);
                        }
                    }
                    return false;
                }
                proof {
                    assert(ic.skip(n - (k + 1)) =~= seq![ic[n - k - 1]] + ic.skip(n - k));
                    assert(sc.skip(m - (k + 1)) =~= seq![sc[m - k - 1]] + sc.skip(m - k));
                    assert(iter.spans().take(n - k).drop_last() =~= iter.spans().take(n - k - 1));
                    assert(suffix.spans().take(m - k).drop_last() =~= suffix.spans().take(
                        m - k - 1,
                    ));
                    k = k + 1;
                }
            },
            (_, None) => {
                proof {
                    assert(m == k);
                    assert(sc.skip(0) =~= sc);
                }
                return true;
            },
            (None, Some(_)) => {
                proof {
                    assert(n == k);
                }
                return false;
            },
        }
    }
}

/// Splits a file name at its last `.`: `(stem before the dot, extension after it)`.
fn split_file_at_dot<'b>(file: &'b str) -> (r: (Option<&'b str>, Option<&'b str>))
    ensures
        file@ == seq!['.', '.'] ==> opt_view(r.0) == Some(file@) && r.1 is None,
        file@ != seq!['.', '.'] && last_dot(file@) < 0 ==> r.0 is None && opt_view(r.1) == Some(
            file@,
        ),
        file@ != seq!['.', '.'] && last_dot(file@) == 0 ==> opt_view(r.0) == Some(file@)
            && r.1 is None,
        file@ != seq!['.', '.'] && last_dot(file@) > 0 ==> opt_view(r.0) == Some(
            file@.take(last_dot(file@)),
        ) && opt_view(r.1) == Some(file@.skip(last_dot(file@) + 1)),
{
    let n = file.unicode_len();
    if n == 2 && file.get_char(0) == '.' && file.get_char(1) == '.' {
        assert(file@ == seq!['.', '.']);
        return (Some(file), None);
    }
    proof {
        lemma_last_dot(file@);
    }
    let mut i: usize = n;
    while i > 0 && file.get_char(i - 1) != '.'
        invariant
            n == file@.len(),
            0 <= i <= n,
            forall|k: int| i <= k < n ==> file@[k] != '.',
        decreases i,
    {
        i = i - 1;
    }
    if i == 0 {
        proof {
            lemma_last_dot_unique(file@, -1);
        }
        (None, Some(file))
    } else if i == 1 {
        proof {
            lemma_last_dot_unique(file@, 0);
        }
        (Some(file), None)
    } else {
        proof {
            lemma_last_dot_unique(file@, i - 1);
        }
        (Some(file.substring_char(0, i - 1)), Some(file.substring_char(i, n)))
    }
}

/// Errors of file system operations on paths.
#[derive(Debug, Clone, Copy, PartialEq, Eq, Structural)]
pub enum FilesystemError {
    /// The path is empty.
    EmptyPath,
}

/// Makes `path` absolute without accessing the file system, against the current working
/// directory `cwd`. An absolute path is returned as it is; a relative one is joined onto
/// `cwd`, then `.` components are dropped and each `..` removes the component before it.
/// An empty path is an error.
pub fn absolute(path: &str, cwd: &str) -> (r: Result<PathBuf, FilesystemError>)
    ensures
        r is Err <==> absolute_text(path@, cwd@) is None,
        r is Err ==> r == Err::<PathBuf, FilesystemError>(FilesystemError::EmptyPath),
        r matches Ok(p) ==> absolute_text(path@, cwd@) == Some(p@),
{
    if path.is_empty() {
        return Err(FilesystemError::EmptyPath);
    }
    let path = Path::new(path);
    if path.is_absolute() {
        return Ok(path.to_path_buf());
    }
    let joined = Path::new(cwd).join(path.as_str());
    let mut result = PathBuf::new();
    let mut comps = joined.as_path().components();
    let ghost all = comps.comps();
    let ghost mut k: int = 0;
    loop
        invariant_except_break
            comps.wf(),
            0 <= k <= all.len(),
            all == components(joined@),
            comps.comps() == all.skip(k),
            result@ == absolute_fold(all.take(k)),
        ensures
            result@ == absolute_fold(all),
        decreases comps.comps().len(),
    {
        let ghost before = comps.spans();
        let next = comps.next();
        let part = match next {
            None => {
                proof {
                    assert(all.take(k) =~= all);
                }
                break;
            },
            Some(p) => p,
        };
        proof {
            assert(comps_of(before)[0] == before[0].comp);
            assert(comps_of(before.drop_first()) =~= comps_of(before).drop_first());
            assert(all.skip(k).drop_first() =~= all.skip(k + 1));
            assert(all.take(k + 1).drop_last() =~= all.take(k));
            assert(all.take(k + 1).last() == part@);
        }
        match part {
            Component::RootDir => {
                let sep = "/";
                proof {
                    reveal_strlit("/");
                }
                result.push(sep);
            },
            Component::CurDir => {},
            Component::ParentDir => {
                result.pop();
            },
            Component::Normal(name) => {
                result.push(name);
            },
        }
        proof {
            k = k + 1;
        }
    }
    Ok(result)
}

/// An iterator over the components of a path, as string slices.
#[derive(Clone, Copy)]
pub struct Iter<'a> {
    inner: Components<'a>,
}

impl<'a> Iter<'a> {
    /// The iterator is well formed.
    pub closed spec fn wf(&self) -> bool {
        self.inner.wf()
    }

    /// The components left.
    pub closed spec fn comps(&self) -> Seq<ComponentView> {
        self.inner.comps()
    }

    /// The text of the components left, see [`Components::as_path`].
    pub closed spec fn rest_text(&self) -> Seq<char> {
        self.inner.rest_text()
    }

    /// The next component from the front, as a string.
    pub fn next(&mut self) -> (r: Option<&'a str>)
        requires
            old(self).wf(),
        ensures
            final(self).wf(),
            old(self).comps().len() == 0 ==> r is None && final(self).comps().len() == 0,
            old(self).comps().len() > 0 ==> (r matches Some(s) && s@ == component_text(
                old(self).comps()[0],
            ) && final(self).comps() == old(self).comps().drop_first()),
    {
        let r = self.inner.next();
        proof {
            let sp = old(self).inner.spans();
            if sp.len() > 0 {
                assert(comps_of(sp.drop_first()) =~= comps_of(sp).drop_first());
            }
        }
        match r {
            Some(c) => Some(c.as_str()),
            None => None,
        }
    }

    /// The next component from the back, as a string.
    pub fn next_back(&mut self) -> (r: Option<&'a str>)
        requires
            old(self).wf(),
        ensures
            final(self).wf(),
            old(self).comps().len() == 0 ==> r is None && final(self).comps().len() == 0,
            old(self).comps().len() > 0 ==> (r matches Some(s) && s@ == component_text(
                old(self).comps().last(),
            ) && final(self).comps() == old(self).comps().drop_last()),
    {
        let r = self.inner.next_back();
        proof {
            let sp = old(self).inner.spans();
            if sp.len() > 0 {
                assert(comps_of(sp.drop_last()) =~= comps_of(sp).drop_last());
            }
        }
        match r {
            Some(c) => Some(c.as_str()),
            None => None,
        }
    }

    /// The part of the path left for iteration.
    pub fn as_path(&self) -> (r: Path<'a>)
        requires
            self.wf(),
        ensures
            r@ == self.rest_text(),
    {
        self.inner.as_path()
    }
}

/// An error returned from [`Path::strip_prefix`] if the prefix was not found.
#[derive(Debug, Clone, PartialEq, Eq, Structural)]
pub struct StripPrefixError;

impl StripPrefixError {
    /// The message of the error: `prefix not found`.
    pub fn to_string(&self) -> (r: String)
        ensures
            r@ == seq!['p', 'r', 'e', 'f', 'i', 'x', ' ', 'n', 'o', 't', ' ', 'f', 'o', 'u', 'n', 'd'],
    {
        let m = "prefix not found";
        proof {
            reveal_strlit("prefix not found");
        }
        m.to_owned()
    }
}

/// A slice of a path (akin to `str`).
#[derive(Debug, Clone, Copy)]
pub struct Path<'a> {
    inner: &'a str,
}

impl<'a> View for Path<'a> {
    type V = Seq<char>;

    closed spec fn view(&self) -> Seq<char> {
        self.inner@
    }
}

impl<'a> Path<'a> {
    /// Wraps a string slice as a path slice.
    pub fn new(s: &'a str) -> (r: Path<'a>)
        ensures
            r@ == s@,
    {
        Path { inner: s }
    }

    /// The underlying string.
    pub fn as_str(&self) -> (r: &'a str)
        ensures
            r@ == self@,
    {
        self.inner
    }

    /// Whether the path begins with the root `/`.
    pub fn has_root(&self) -> (r: bool)
        ensures
            r == starts_with_root(self@),
    {
        self.components().has_root()
    }

    /// Whether the path is absolute, that is independent of the current directory;
    /// the same as [`Path::has_root`].
    pub fn is_absolute(&self) -> (r: bool)
        ensures
            r == starts_with_root(self@),
    {
        self.has_root()
    }

    /// Whether the path is relative, that is not absolute.
    pub fn is_relative(&self) -> (r: bool)
        ensures
            r == !starts_with_root(self@),
    {
        !self.is_absolute()
    }

    /// The path without its final component, if there is one; `None` if the path is
    /// empty or ends in the root.
    pub fn parent(&self) -> (r: Option<Path<'a>>)
        ensures
            r is None <==> parent_text(self@) is None,
            r matches Some(q) ==> parent_text(self@) == Some(q@),
    {
        let mut comps = self.components();
        let comp = comps.next_back();
        match comp {
            Some(Component::Normal(_)) | Some(Component::CurDir) | Some(Component::ParentDir) => {
                Some(comps.as_path())
            },
            _ => None,
        }
    }

    /// An iterator over the path and its ancestors: `self`, then its parent, and so on.
    pub fn ancestors(&self) -> (r: Ancestors<'a>)
        ensures
            r.next_view() == Some(self@),
    {
        Ancestors { next: Some(*self) }
    }

    /// The final component of the path, if it is a normal component.
    pub fn file_name(&self) -> (r: Option<&'a str>)
        ensures
            opt_view(r) == file_name_of(self@),
    {
        let mut comps = self.components();
        match comps.next_back() {
            Some(Component::Normal(p)) => Some(p),
            _ => None,
        }
    }

    /// The path that, joined onto `base`, yields `self`; an error if the components of
    /// `base` are not a leading part of those of `self`.
    pub fn strip_prefix(&self, base: &str) -> (r: Result<Path<'a>, StripPrefixError>)
        ensures
            r is Ok <==> strip_prefix_text(self@, base@) is Some,
            r matches Ok(q) ==> strip_prefix_text(self@, base@) == Some(q@),
    {
        let base = Path::new(base);
        match iter_after(self.components(), base.components()) {
            Some(c) => Ok(c.as_path()),
            None => Err(StripPrefixError),
        }
    }

    /// Whether the components of `base` are a leading part of those of `self`.
    pub fn starts_with(&self, base: &str) -> (r: bool)
        ensures
            r == is_prefix_of(components(base@), components(self@)),
    {
        let base = Path::new(base);
        iter_after(self.components(), base.components()).is_some()
    }

    /// Whether the components of `child` are a trailing part of those of `self`.
    pub fn ends_with(&self, child: &str) -> (r: bool)
        ensures
            r == is_suffix_of(components(child@), components(self@)),
    {
        let child = Path::new(child);
        iter_after_back(self.components(), child.components())
    }

    /// The stem (the part before the extension) of the file name, if there is a file name.
    pub fn file_stem(&self) -> (r: Option<&'a str>)
        ensures
            file_name_of(self@) is None ==> r is None,
            file_name_of(self@) matches Some(n) ==> opt_view(r) == Some(stem_of(n)),
    {
        match self.file_name() {
            None => None,
            Some(name) => {
                let (before, after) = split_file_at_dot(name);
                match before {
                    Some(b) => Some(b),
                    None => after,
                }
            },
        }
    }

    /// The extension of the file name, if there is a file name that has one.
    pub fn extension(&self) -> (r: Option<&'a str>)
        ensures
            file_name_of(self@) is None ==> r is None,
            file_name_of(self@) matches Some(n) ==> opt_view(r) == extension_of(n),
    {
        match self.file_name() {
            None => None,
            Some(name) => {
                let (before, after) = split_file_at_dot(name);
                match before {
                    Some(_) => after,
                    None => None,
                }
            },
        }
    }

    /// The path as a string.
    pub fn to_string(&self) -> (r: String)
        ensures
            r@ == self@,
    {
        self.inner.to_owned()
    }

    /// Converts to an owned [`PathBuf`].
    pub fn to_path_buf(&self) -> (r: PathBuf)
        ensures
            r@ == self@,
    {
        PathBuf::from_str_slice(self.inner)
    }

    /// An owned path with `path` adjoined to `self`, see [`PathBuf::push`].
    pub fn join(&self, path: &str) -> (r: PathBuf)
        ensures
            r@ == push_text(self@, path@),
    {
        let mut buf = self.to_path_buf();
        buf.push(path);
        buf
    }

    /// An owned path like `self` with the given file name, see [`PathBuf::set_file_name`].
    pub fn with_file_name(&self, file_name: &str) -> (r: PathBuf)
        ensures
            r@ == set_file_name_text(self@, file_name@),
    {
        let mut buf = self.to_path_buf();
        buf.set_file_name(file_name);
        buf
    }

    /// An owned path like `self` with the given extension, see [`PathBuf::set_extension`].
    pub fn with_extension(&self, extension: &str) -> (r: PathBuf)
        ensures
            set_extension_text(self@, extension@) is None ==> r@ == self@,
            set_extension_text(self@, extension@) matches Some(t) ==> r@ == t,
    {
        let mut buf = self.to_path_buf();
        buf.set_extension(extension);
        buf
    }

    /// Makes the path absolute against the current working directory `cwd`, see [`absolute`].
    pub fn absolute(&self, cwd: &str) -> (r: Result<PathBuf, FilesystemError>)
        ensures
            r is Err <==> absolute_text(self@, cwd@) is None,
            r matches Ok(p) ==> absolute_text(self@, cwd@) == Some(p@),
    {
        absolute(self.inner, cwd)
    }

    /// Produces an iterator over the components of the path as string slices.
    pub fn iter(&self) -> (r: Iter<'a>)
        ensures
            r.wf(),
            r.comps() == components(self@),
    {
        Iter { inner: self.components() }
    }

    /// Produces an iterator over the components of the path.
    pub fn components(&self) -> (r: Components<'a>)
        ensures
            r.wf(),
            r.whole() == self@,
            r.spans() == component_spans(self@),
    {
        Components::new(self.inner)
    }
}

impl<'a> PartialEq for Path<'a> {
    /// Paths are equal when their components are.
    fn eq(&self, other: &Path<'a>) -> (r: bool) {
        components_eq(self.components(), other.components())
    }
}

impl<'a> Eq for Path<'a> {
}

impl<'a> PartialEqSpecImpl for Path<'a> {
    open spec fn obeys_eq_spec() -> bool {
        true
    }

    open spec fn eq_spec(&self, other: &Path<'a>) -> bool {
        components(self@) == components(other@)
    }
}

/// An iterator over a path and its ancestors.
#[derive(Debug, Clone, Copy)]
pub struct Ancestors<'a> {
    next: Option<Path<'a>>,
}

impl<'a> Ancestors<'a> {
    /// The path that the iterator yields next, if any.
    pub closed spec fn next_view(&self) -> Option<Seq<char>> {
        match self.next {
            Some(p) => Some(p@),
            None => None,
        }
    }

    /// Yields the current path and moves on to its parent.
    pub fn next(&mut self) -> (r: Option<Path<'a>>)
        ensures
            old(self).next_view() is None ==> r is None && final(self).next_view() is None,
            old(self).next_view() matches Some(v) ==> (r matches Some(p) && p@ == v
                && final(self).next_view() == parent_text(v)),
    {
        let next = self.next;
        self.next = match next {
            Some(p) => p.parent(),
            None => None,
        };
        next
    }
}

} // verus!
