//! The owned path type.
use vstd::prelude::*;
use vstd::string::*;
use vstd::std_specs::cmp::PartialEqSpecImpl;
use vstd::utf8::encode_utf8;

use super::components::{same_component, Components};
use super::model::{
    absolute_text, component_spans, component_text, components, file_name_of,
    lemma_comps_of_skip, lemma_component_spans_fit, parent_text, push_text, stem_of,
};
use super::{FilesystemError, Path};

verus! {

/// Creates an empty string with room for at least `capacity` bytes; a capacity above
/// `isize::MAX` bytes panics, so it is left out.
#[verifier::external_body]
fn string_with_capacity(capacity: usize) -> (r: String)
    requires
        capacity <= isize::MAX,
    ensures
        r@ == Seq::<char>::empty(),
{
    String::with_capacity(capacity)
}

/// The number of bytes the string can hold without reallocating (`String::capacity`). The
/// buffer holds the string's bytes, so it is at least their number; by how much it exceeds
/// them depends on the allocator and is left unsaid.
#[verifier::external_body]
fn string_capacity(s: &String) -> (r: usize)
    ensures
        r >= encode_utf8(s@).len(),
{
    s.capacity()
}

/// Empties the string, keeping its allocation.
#[verifier::external_body]
fn string_clear(s: &mut String)
    ensures
        final(s)@ == Seq::<char>::empty(),
{
    s.clear()
}

/// Reserves room for at least `additional` more bytes; the contents stay as they were.
#[verifier::external_body]
fn string_reserve(s: &mut String, additional: usize)
    requires
        encode_utf8(old(s)@).len() + additional <= isize::MAX,
    ensures
        final(s)@ == old(s)@,
{
    s.reserve(additional)
}

/// Reserves room for exactly `additional` more bytes; the contents stay as they were.
#[verifier::external_body]
fn string_reserve_exact(s: &mut String, additional: usize)
    requires
        encode_utf8(old(s)@).len() + additional <= isize::MAX,
    ensures
        final(s)@ == old(s)@,
{
    s.reserve_exact(additional)
}

/// Shrinks the allocation to fit the contents; the contents stay as they were.
#[verifier::external_body]
fn string_shrink_to_fit(s: &mut String)
    ensures
        final(s)@ == old(s)@,
{
    s.shrink_to_fit()
}

/// The path that [`PathBuf::set_extension`] makes of `s`, if `s` has a file name:
/// everything up to the end of the file stem, then `.` and `ext` unless `ext` is empty.
pub open spec fn set_extension_text(s: Seq<char>, ext: Seq<char>) -> Option<Seq<char>> {
    match file_name_of(s) {
        None => None,
        Some(name) => {
            let end = component_spans(s).last().end;
            let stem_end = end - name.len() + stem_of(name).len();
            Some(
                s.take(stem_end) + if ext.len() > 0 {
                    seq!['.'] + ext
                } else {
                    seq![]
                },
            )
        },
    }
}

/// The path that [`PathBuf::set_file_name`] makes of `s`: its parent when it has a file name,
/// otherwise `s` itself, with `name` adjoined.
pub open spec fn set_file_name_text(s: Seq<char>, name: Seq<char>) -> Seq<char> {
    match file_name_of(s) {
        Some(_) => push_text(parent_text(s).unwrap(), name),
        None => push_text(s, name),
    }
}

/// `a` with each of `parts` adjoined in turn, see [`push_text`].
pub open spec fn push_all(a: Seq<char>, parts: Seq<Seq<char>>) -> Seq<char>
    decreases parts.len(),
{
    if parts.len() == 0 {
        a
    } else {
        push_text(push_all(a, parts.drop_last()), parts.last())
    }
}

/// The texts of a sequence of string slices.
pub open spec fn str_views(parts: Seq<&str>) -> Seq<Seq<char>> {
    parts.map_values(|p: &str| p@)
}

/// Whether two component iterators have the same components left.
pub fn components_eq(a: Components<'_>, b: Components<'_>) -> (r: bool)
    requires
        a.wf(),
        b.wf(),
    ensures
        r == (a.comps() == b.comps()),
{
    let mut x = a;
    let mut y = b;
    let ghost mut k: int = 0;
    loop
        invariant
            x.wf(),
            y.wf(),
            0 <= k <= a.spans().len(),
            0 <= k <= b.spans().len(),
            x.spans() == a.spans().skip(k),
            y.spans() == b.spans().skip(k),
            a.comps().take(k) == b.comps().take(k),
        decreases x.spans().len(),
    {
        let ghost ac = a.comps();
        let ghost bc = b.comps();
        proof {
            lemma_comps_of_skip(a.spans(), k);
            lemma_comps_of_skip(b.spans(), k);
        }
        let p = x.next();
        let q = y.next();
        match (p, q) {
            (Some(p), Some(q)) => {
                proof {
                    assert(p@ == ac[k]);
                    assert(q@ == bc[k]);
                }
                if !same_component(p, q) {
                    return false;
                }
                proof {
                    assert(ac.take(k + 1) =~= ac.take(k).push(ac[k]));
                    assert(bc.take(k + 1) =~= bc.take(k).push(bc[k]));
                    assert(a.spans().skip(k).drop_first() =~= a.spans().skip(k + 1));
                    assert(b.spans().skip(k).drop_first() =~= b.spans().skip(k + 1));
                    k = k + 1;
                }
            },
            (None, None) => {
                proof {
                    assert(ac =~= ac.take(k));
                    assert(bc =~= bc.take(k));
                }
                return true;
            },
            (Some(_), None) => {
                proof {
                    assert(bc.len() == k);
                }
                return false;
            },
            (None, Some(_)) => {
                proof {
                    assert(ac.len() == k);
                }
                return false;
            },
        }
    }
}

/// An owned, mutable path (akin to `String`).
#[derive(Debug, Clone)]
pub struct PathBuf {
    inner: String,
}

impl View for PathBuf {
    type V = Seq<char>;

    closed spec fn view(&self) -> Seq<char> {
        self.inner@
    }
}

impl PathBuf {
    /// Allocates an empty `PathBuf`.
    pub fn new() -> (r: PathBuf)
        ensures
            r@ == Seq::<char>::empty(),
    {
        PathBuf { inner: String::new() }
    }

    /// Creates an empty `PathBuf` whose string has room for at least `capacity` bytes.
    pub fn with_capacity(capacity: usize) -> (r: PathBuf)
        requires
            capacity <= isize::MAX,
        ensures
            r@ == Seq::<char>::empty(),
    {
        PathBuf { inner: string_with_capacity(capacity) }
    }

    /// Wraps a string as a path, without copying.
    pub fn from_string(s: String) -> (r: PathBuf)
        ensures
            r@ == s@,
    {
        PathBuf { inner: s }
    }

    /// Copies a string slice into a new path.
    pub fn from_str_slice(s: &str) -> (r: PathBuf)
        ensures
            r@ == s@,
    {
        PathBuf { inner: s.to_owned() }
    }

    /// Coerces to a [`Path`] slice.
    pub fn as_path(&self) -> (r: Path<'_>)
        ensures
            r@ == self@,
    {
        Path::new(self.inner.as_str())
    }

    /// The underlying string.
    pub fn as_str(&self) -> (r: &str)
        ensures
            r@ == self@,
    {
        self.inner.as_str()
    }

    /// Whether the path is empty.
    pub fn is_empty(&self) -> (r: bool)
        ensures
            r == (self@.len() == 0),
    {
        self.inner.as_str().is_empty()
    }

    /// Extends `self` with `path`; an absolute `path` replaces the current path.
    pub fn push(&mut self, path: &str)
        ensures
            final(self)@ == push_text(old(self)@, path@),
    {
        let n = self.inner.as_str().unicode_len();
        // a separator is needed if the rightmost character is not one
        let need_sep = n > 0 && self.inner.as_str().get_char(n - 1) != '/';
        let p = Path::new(path);
        if p.is_absolute() || p.has_root() {
            string_clear(&mut self.inner);
        } else if need_sep {
            let sep = "/";
            proof {
                reveal_strlit("/");
            }
            self.inner.append(sep);
        }
        self.inner.append(path);
    }

    /// Truncates `self` to its parent; `false` and nothing done if there is no parent.
    pub fn pop(&mut self) -> (r: bool)
        ensures
            r == parent_text(old(self)@) is Some,
            r ==> final(self)@ == parent_text(old(self)@).unwrap(),
            !r ==> final(self)@ == old(self)@,
    {
        let parent = self.as_path().parent();
        match parent {
            Some(p) => {
                let s = p.as_str().to_owned();
                self.inner = s;
                true
            },
            None => false,
        }
    }

    /// Replaces the file name: when there is one, this is [`PathBuf::pop`] followed by
    /// [`PathBuf::push`]; otherwise just the push.
    pub fn set_file_name(&mut self, file_name: &str)
        ensures
            final(self)@ == set_file_name_text(old(self)@, file_name@),
    {
        if self.as_path().file_name().is_some() {
            let popped = self.pop();
            proof {
                let cs = components(old(self)@);
                assert(cs.last() == component_spans(old(self)@).last().comp);
            }
        }
        self.push(file_name);
    }

    /// Replaces the extension of the file name (adding one if there is none, removing it if
    /// `extension` is empty); `false` and nothing done if there is no file name.
    pub fn set_extension(&mut self, extension: &str) -> (r: bool)
        ensures
            r == set_extension_text(old(self)@, extension@) is Some,
            r ==> final(self)@ == set_extension_text(old(self)@, extension@).unwrap(),
            !r ==> final(self)@ == old(self)@,
    {
        let path = self.as_path();
        let name = match path.file_name() {
            None => return false,
            Some(n) => n,
        };
        let stem = match path.file_stem() {
            None => return false,
            Some(st) => st,
        };
        let full = path.components().as_path();
        let end = full.as_str().unicode_len();
        let name_len = name.unicode_len();
        let stem_len = stem.unicode_len();
        proof {
            let s = old(self)@;
            let cs = component_spans(s);
            lemma_component_spans_fit(s);
            let last = cs.last();
            assert(last.start == cs[cs.len() - 1].start);
            assert(component_text(last.comp) == name@) by {
                assert(components(s).last() == last.comp);
            }
            assert(s.subrange(last.start, last.end) == name@);
            assert(stem_of(name@).len() <= name@.len()) by {
                super::model::lemma_last_dot(name@);
            }
        }
        let stem_end = end - name_len + stem_len;
        let mut new_inner = self.inner.as_str().substring_char(0, stem_end).to_owned();
        if !extension.is_empty() {
            let dot = ".";
            proof {
                reveal_strlit(".");
            }
            new_inner.append(dot);
            new_inner.append(extension);
        }
        self.inner = new_inner;
        true
    }

    /// Adjoins each of `parts` in turn, see [`PathBuf::push`].
    pub fn extend(&mut self, parts: &[&str])
        ensures
            final(self)@ == push_all(old(self)@, str_views(parts@)),
    {
        let mut i: usize = 0;
        while i < parts.len()
            invariant
                i <= parts@.len(),
                self@ == push_all(old(self)@, str_views(parts@.take(i as int))),
            decreases parts@.len() - i,
        {
            self.push(parts[i]);
            proof {
                assert(str_views(parts@.take(i + 1)).drop_last() =~= str_views(
                    parts@.take(i as int),
                ));
            }
            i = i + 1;
        }
        proof {
            assert(parts@.take(parts@.len() as int) =~= parts@);
        }
    }

    /// The path made of `parts` adjoined in turn onto the empty path.
    pub fn from_parts(parts: &[&str]) -> (r: PathBuf)
        ensures
            r@ == push_all(Seq::<char>::empty(), str_views(parts@)),
    {
        let mut buf = PathBuf::new();
        buf.extend(parts);
        buf
    }

    /// The path as a string.
    pub fn to_string(&self) -> (r: String)
        ensures
            r@ == self@,
    {
        self.inner.as_str().to_owned()
    }

    /// Consumes the `PathBuf`, yielding its string.
    pub fn into_string(self) -> (r: String)
        ensures
            r@ == self@,
    {
        self.inner
    }

    /// The capacity of the underlying string, in bytes: at least the length of the path.
    pub fn capacity(&self) -> (r: usize)
        ensures
            r >= encode_utf8(self@).len(),
    {
        string_capacity(&self.inner)
    }

    /// Empties the path, keeping the allocation.
    pub fn clear(&mut self)
        ensures
            final(self)@ == Seq::<char>::empty(),
    {
        string_clear(&mut self.inner)
    }

    /// Reserves room for at least `additional` more bytes.
    pub fn reserve(&mut self, additional: usize)
        requires
            encode_utf8(old(self)@).len() + additional <= isize::MAX,
        ensures
            final(self)@ == old(self)@,
    {
        string_reserve(&mut self.inner, additional)
    }

    /// Reserves room for exactly `additional` more bytes.
    pub fn reserve_exact(&mut self, additional: usize)
        requires
            encode_utf8(old(self)@).len() + additional <= isize::MAX,
        ensures
            final(self)@ == old(self)@,
    {
        string_reserve_exact(&mut self.inner, additional)
    }

    /// Makes the path absolute against the current working directory `cwd`, see
    /// [`absolute`](super::absolute).
    pub fn absolute(&self, cwd: &str) -> (r: Result<PathBuf, FilesystemError>)
        ensures
            r is Err <==> absolute_text(self@, cwd@) is None,
            r matches Ok(p) ==> absolute_text(self@, cwd@) == Some(p@),
    {
        super::absolute(self.inner.as_str(), cwd)
    }

    /// Shrinks the allocation to fit the path.
    pub fn shrink_to_fit(&mut self)
        ensures
            final(self)@ == old(self)@,
    {
        string_shrink_to_fit(&mut self.inner)
    }
}

impl Default for PathBuf {
    /// An empty path.
    fn default() -> (r: PathBuf)
        ensures
            r@ == Seq::<char>::empty(),
    {
        PathBuf::new()
    }
}

impl core::str::FromStr for PathBuf {
    type Err = core::convert::Infallible;

    /// The path of the string; this never fails.
    fn from_str(s: &str) -> (r: Result<PathBuf, core::convert::Infallible>)
        ensures
            r matches Ok(p) && p@ == s@,
    {
        Ok(PathBuf::from_str_slice(s))
    }
}

impl PartialEq for PathBuf {
    /// Paths are equal when their components are.
    fn eq(&self, other: &PathBuf) -> (r: bool) {
        let a = self.as_path();
        let b = other.as_path();
        components_eq(a.components(), b.components())
    }
}

impl Eq for PathBuf {
}

impl PartialEqSpecImpl for PathBuf {
    open spec fn obeys_eq_spec() -> bool {
        true
    }

    open spec fn eq_spec(&self, other: &PathBuf) -> bool {
        components(self@) == components(other@)
    }
}

} // verus!
