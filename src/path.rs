//! Paths as a list of component names, with the operations the site logic
//! needs: file name, stem and extension, parent, joining, prefix tests and
//! rebasing from one directory onto another.

use vstd::prelude::*;

verus! {

/// The mathematical value of a path: whether it starts at the root, and its
/// component names in order.
pub struct PathView {
    pub absolute: bool,
    pub parts: Seq<Seq<char>>,
}

/// The views of a sequence of strings.
pub open spec fn names_view(v: Seq<String>) -> Seq<Seq<char>> {
    v.map_values(|s: String| s@)
}

/// A component name: not empty, no separator, not the current directory.
pub open spec fn valid_part(s: Seq<char>) -> bool {
    &&& s.len() > 0
    &&& !s.contains('/')
    &&& s != seq!['.']
}

/// Whether `a` is a leading part of `b`.
pub open spec fn is_prefix<T>(a: Seq<T>, b: Seq<T>) -> bool {
    a.len() <= b.len() && b.subrange(0, a.len() as int) == a
}

/// The component names joined by `/`.
pub open spec fn joined(parts: Seq<Seq<char>>) -> Seq<char>
    decreases parts.len(),
{
    if parts.len() == 0 {
        Seq::empty()
    } else if parts.len() == 1 {
        parts[0]
    } else {
        joined(parts.drop_last()) + seq!['/'] + parts.last()
    }
}

/// Index of the last `.` of `s`, or -1 when there is none.
pub open spec fn last_dot(s: Seq<char>) -> int
    decreases s.len(),
{
    if s.len() == 0 {
        -1
    } else if s.last() == '.' {
        s.len() - 1
    } else {
        last_dot(s.drop_last())
    }
}

/// The extension of a file name: what follows its last dot, when that dot is
/// not the first character.
pub open spec fn extension_of(name: Seq<char>) -> Option<Seq<char>> {
    if last_dot(name) <= 0 {
        None
    } else {
        Some(name.subrange(last_dot(name) + 1, name.len() as int))
    }
}

/// The stem of a file name: the name without its extension and its dot.
pub open spec fn stem_of(name: Seq<char>) -> Seq<char> {
    if last_dot(name) <= 0 {
        name
    } else {
        name.subrange(0, last_dot(name))
    }
}

/// Keeps a component read from a path text unless it is empty or `.`.
pub open spec fn keep_part(acc: Seq<Seq<char>>, seg: Seq<char>) -> Seq<Seq<char>> {
    if seg.len() == 0 || seg == seq!['.'] {
        acc
    } else {
        acc.push(seg)
    }
}

/// The components of `s` from position `i` on, the current one starting at
/// `start`, after those already in `acc`.
pub open spec fn split_from(s: Seq<char>, i: int, start: int, acc: Seq<Seq<char>>) -> Seq<Seq<char>>
    decreases s.len() - i,
{
    if i >= s.len() {
        keep_part(acc, s.subrange(start, s.len() as int))
    } else if s[i] == '/' {
        split_from(s, i + 1, i + 1, keep_part(acc, s.subrange(start, i)))
    } else {
        split_from(s, i + 1, start, acc)
    }
}

/// The path that a text such as `/a/b/c.md` or `a/./b/` denotes.
pub open spec fn parse_spec(s: Seq<char>) -> PathView {
    PathView { absolute: s.len() > 0 && s[0] == '/', parts: split_from(s, 0, 0, Seq::empty()) }
}

impl PathView {
    /// Every component is a proper name.
    pub open spec fn wf(self) -> bool {
        forall|i: int| 0 <= i < self.parts.len() ==> valid_part(#[trigger] self.parts[i])
    }

    /// Component-wise prefix test, as `Path::starts_with`.
    pub open spec fn starts_with(self, base: PathView) -> bool {
        self.absolute == base.absolute && is_prefix(base.parts, self.parts)
    }

    /// The last component, unless the path is empty or ends with `..`.
    pub open spec fn file_name(self) -> Option<Seq<char>> {
        if self.parts.len() == 0 || self.parts.last() == seq!['.', '.'] {
            None
        } else {
            Some(self.parts.last())
        }
    }

    /// The path without its last component.
    pub open spec fn parent(self) -> Option<PathView> {
        if self.parts.len() == 0 {
            None
        } else {
            Some(PathView { absolute: self.absolute, parts: self.parts.drop_last() })
        }
    }

    /// The path with one more component.
    pub open spec fn child(self, name: Seq<char>) -> PathView {
        PathView { absolute: self.absolute, parts: self.parts.push(name) }
    }

    /// `other` appended to this path; an absolute `other` replaces it.
    pub open spec fn join(self, other: PathView) -> PathView {
        if other.absolute {
            other
        } else {
            PathView { absolute: self.absolute, parts: self.parts + other.parts }
        }
    }

    /// The path with its last component replaced.
    pub open spec fn with_file_name(self, name: Seq<char>) -> PathView {
        if self.parts.len() == 0 {
            self.child(name)
        } else {
            PathView { absolute: self.absolute, parts: self.parts.drop_last().push(name) }
        }
    }

    /// The path written out, `/` between components.
    pub open spec fn text(self) -> Seq<char> {
        if self.absolute {
            seq!['/'] + joined(self.parts)
        } else {
            joined(self.parts)
        }
    }
}

/// A file-system path: whether it is absolute, and its component names.
#[derive(Debug, PartialEq, Eq)]
pub struct SitePath {
    pub absolute: bool,
    pub parts: Vec<String>,
}

impl View for SitePath {
    type V = PathView;

    open spec fn view(&self) -> PathView {
        PathView { absolute: self.absolute, parts: names_view(self.parts@) }
    }
}

/// A copy of a list of names.
pub fn copy_names(v: &Vec<String>) -> (r: Vec<String>)
    ensures
        r@ == v@,
{
    let mut r: Vec<String> = Vec::new();
    let mut i: usize = 0;
    while i < v.len()
        invariant
            i <= v@.len(),
            r@ == v@.subrange(0, i as int),
        decreases v@.len() - i,
    {
        r.push(v[i].clone());
        i = i + 1;
    }
    assert(r@ == v@);
    r
}

/// Relies on `pathdiff::diff_paths`: when `base` is a leading part of `path`,
/// both of one kind and made of proper names, the difference is the rest of
/// `path`, read back component by component.
#[verifier::external_body]
pub(crate) fn diff_names(path: &SitePath, base: &SitePath) -> (r: Option<Vec<String>>)
    ensures
        path@.wf() && base@.wf() && path@.starts_with(base@) ==> r.is_some() && names_view(
            r.unwrap()@,
        ) == path@.parts.subrange(base@.parts.len() as int, path@.parts.len() as int),
{
    let mut a = std::path::PathBuf::from(if path.absolute { "/" } else { "" });
    a.extend(path.parts.iter());
    let mut b = std::path::PathBuf::from(if base.absolute { "/" } else { "" });
    b.extend(base.parts.iter());
    pathdiff::diff_paths(&a, &b).map(
        |d| d.iter().map(|c| c.to_string_lossy().into_owned()).collect(),
    )
}

impl SitePath {
    /// A copy of this path.
    pub fn duplicate(&self) -> (r: SitePath)
        ensures
            r@ == self@,
    {
        SitePath { absolute: self.absolute, parts: copy_names(&self.parts) }
    }

    /// Reads a path text: a leading `/` makes it absolute, `/` separates the
    /// components, and empty and `.` components are dropped.
    pub fn parse(s: &str) -> (r: SitePath)
        ensures
            r@ == parse_spec(s@),
            r@.wf(),
    {
        let n = s.unicode_len();
        let absolute = n > 0 && s.get_char(0) == '/';
        let mut parts: Vec<String> = Vec::new();
        let mut start: usize = 0;
        let mut i: usize = 0;
        assert(names_view(parts@) =~= Seq::<Seq<char>>::empty());
        while i < n
            invariant
                n == s@.len(),
                start <= i <= n,
                split_from(s@, 0, 0, Seq::empty()) == split_from(
                    s@,
                    i as int,
                    start as int,
                    names_view(parts@),
                ),
                forall|k: int| start <= k < i ==> s@[k] != '/',
                forall|k: int|
                    0 <= k < parts@.len() ==> valid_part(#[trigger] names_view(parts@)[k]),
            decreases n - i,
        {
            if s.get_char(i) == '/' {
                let seg = s.substring_char(start, i);
                proof {
                    assert(seg@ == s@.subrange(start as int, i as int));
                    assert forall|k: int| 0 <= k < seg@.len() implies seg@[k] != '/' by {
                        assert(seg@[k] == s@[start + k]);
                    }
                }
                Self::keep_segment(&mut parts, seg);
                start = i + 1;
            }
            i = i + 1;
        }
        let seg = s.substring_char(start, n);
        proof {
            assert forall|k: int| 0 <= k < seg@.len() implies seg@[k] != '/' by {
                assert(seg@[k] == s@[start + k]);
            }
        }
        Self::keep_segment(&mut parts, seg);
        let r = SitePath { absolute, parts };
        proof {
            assert forall|k: int| 0 <= k < r@.parts.len() implies valid_part(#[trigger] r@.parts[k]) by {
                assert(names_view(parts@)[k] == r@.parts[k]);
            }
        }
        r
    }

    /// Appends `seg` unless it is empty or `.`.
    fn keep_segment(parts: &mut Vec<String>, seg: &str)
        requires
            forall|k: int| 0 <= k < seg@.len() ==> seg@[k] != '/',
        ensures
            names_view(final(parts)@) == keep_part(names_view(old(parts)@), seg@),
            forall|k: int|
                0 <= k < old(parts)@.len() ==> names_view(final(parts)@)[k] == names_view(
                    old(parts)@,
                )[k],
            (forall|k: int|
                0 <= k < old(parts)@.len() ==> valid_part(#[trigger] names_view(old(parts)@)[k]))
                ==> (forall|k: int|
                0 <= k < final(parts)@.len() ==> valid_part(#[trigger] names_view(final(parts)@)[k])),
    {
        let n = seg.unicode_len();
        if n == 0 || (n == 1 && seg.get_char(0) == '.') {
            proof {
                if n == 1 {
                    assert(seg@ == seq!['.']);
                }
            }
            return;
        }
        proof {
            if seg@ == seq!['.'] {
                assert(seg@[0] == '.');
            }
        }
        parts.push(seg.to_owned());
        proof {
            assert(names_view(final(parts)@) == names_view(old(parts)@).push(seg@));
            assert(!seg@.contains('/'));
        }
    }

    /// The path written out with `/` between components.
    pub fn to_text(&self) -> (r: String)
        ensures
            r@ == self@.text(),
    {
        let mut r = String::new();
        if self.absolute {
            r.append("/");
            proof {
                reveal_strlit("/");
                assert(r@ == seq!['/']);
            }
        }
        let ghost head = r@;
        let mut i: usize = 0;
        while i < self.parts.len()
            invariant
                i <= self.parts@.len(),
                r@ == head + joined(names_view(self.parts@).subrange(0, i as int)),
                head == (if self.absolute { seq!['/'] } else { Seq::<char>::empty() }),
            decreases self.parts@.len() - i,
        {
            let ghost before = names_view(self.parts@).subrange(0, i as int);
            let ghost after = names_view(self.parts@).subrange(0, i + 1);
            assert(after.drop_last() == before);
            if i > 0 {
                r.append("/");
                proof {
                    reveal_strlit("/");
                }
            }
            r.append(self.parts[i].as_str());
            proof {
                if i > 0 {
                    assert(joined(after) == joined(before) + seq!['/'] + after.last());
                    assert(r@ == head + joined(before) + seq!['/'] + after.last());
                    assert(head + joined(before) + seq!['/'] + after.last() == head + (joined(
                        before,
                    ) + seq!['/'] + after.last()));
                } else {
                    assert(after.len() == 1);
                    assert(joined(before) == Seq::<char>::empty());
                    assert(head + joined(before) == head);
                }
            }
            i = i + 1;
        }
        assert(names_view(self.parts@).subrange(0, self.parts@.len() as int) == names_view(
            self.parts@,
        ));
        proof {
            if !self.absolute {
                assert(head + joined(names_view(self.parts@)) == joined(names_view(self.parts@)));
            }
        }
        r
    }
}


/// Index of the last `.` of `s`, if any.
pub fn find_last_dot(s: &str) -> (r: Option<usize>)
    ensures
        match r {
            Some(i) => i == last_dot(s@) && i < s@.len(),
            None => last_dot(s@) == -1,
        },
{
    let n = s.unicode_len();
    let mut i: usize = n;
    assert(s@.subrange(0, n as int) == s@);
    while i > 0
        invariant
            n == s@.len(),
            i <= n,
            last_dot(s@) == last_dot(s@.subrange(0, i as int)),
        decreases i,
    {
        assert(s@.subrange(0, i as int).drop_last() == s@.subrange(0, i - 1));
        if s.get_char(i - 1) == '.' {
            return Some(i - 1);
        }
        i = i - 1;
    }
    None
}

/// The extension of a file name, as `Path::extension` gives it.
pub fn extension(name: &str) -> (r: Option<String>)
    ensures
        match r {
            Some(e) => extension_of(name@) == Some(e@),
            None => extension_of(name@) is None,
        },
{
    let n = name.unicode_len();
    match find_last_dot(name) {
        Some(d) => {
            if d == 0 {
                None
            } else {
                Some(name.substring_char(d + 1, n).to_owned())
            }
        },
        None => None,
    }
}

/// The stem of a file name, as `Path::file_stem` gives it.
pub fn stem(name: &str) -> (r: String)
    ensures
        r@ == stem_of(name@),
{
    match find_last_dot(name) {
        Some(d) => {
            if d == 0 {
                name.to_owned()
            } else {
                name.substring_char(0, d).to_owned()
            }
        },
        None => name.to_owned(),
    }
}

/// Whether two lists of names are equal.
pub fn names_eq(a: &Vec<String>, b: &Vec<String>) -> (r: bool)
    ensures
        r == (names_view(a@) == names_view(b@)),
{
    if a.len() != b.len() {
        return false;
    }
    let mut i: usize = 0;
    while i < a.len()
        invariant
            a@.len() == b@.len(),
            i <= a@.len(),
            names_view(a@).subrange(0, i as int) == names_view(b@).subrange(0, i as int),
        decreases a@.len() - i,
    {
        if a[i] != b[i] {
            assert(names_view(a@)[i as int] != names_view(b@)[i as int]);
            return false;
        }
        assert(names_view(a@).subrange(0, i + 1) == names_view(a@).subrange(0, i as int).push(
            names_view(a@)[i as int],
        ));
        assert(names_view(b@).subrange(0, i + 1) == names_view(b@).subrange(0, i as int).push(
            names_view(b@)[i as int],
        ));
        i = i + 1;
    }
    assert(names_view(a@).subrange(0, a@.len() as int) == names_view(a@));
    assert(names_view(b@).subrange(0, b@.len() as int) == names_view(b@));
    true
}

impl SitePath {
    /// Equality of paths.
    pub fn same_as(&self, other: &SitePath) -> (r: bool)
        ensures
            r == (self@ == other@),
    {
        self.absolute == other.absolute && names_eq(&self.parts, &other.parts)
    }

    /// Whether `base` is a leading part of this path, component by component.
    pub fn starts_with(&self, base: &SitePath) -> (r: bool)
        ensures
            r == self@.starts_with(base@),
    {
        if self.absolute != base.absolute || base.parts.len() > self.parts.len() {
            return false;
        }
        let mut i: usize = 0;
        while i < base.parts.len()
            invariant
                base.parts@.len() <= self.parts@.len(),
                i <= base.parts@.len(),
                names_view(self.parts@).subrange(0, i as int) == names_view(base.parts@).subrange(
                    0,
                    i as int,
                ),
            decreases base.parts@.len() - i,
        {
            if self.parts[i] != base.parts[i] {
                assert(names_view(self.parts@).subrange(0, base.parts@.len() as int)[i as int]
                    != names_view(base.parts@)[i as int]);
                return false;
            }
            assert(names_view(self.parts@).subrange(0, i + 1) == names_view(self.parts@).subrange(
                0,
                i as int,
            ).push(names_view(self.parts@)[i as int]));
            assert(names_view(base.parts@).subrange(0, i + 1) == names_view(base.parts@).subrange(
                0,
                i as int,
            ).push(names_view(base.parts@)[i as int]));
            i = i + 1;
        }
        assert(names_view(base.parts@).subrange(0, base.parts@.len() as int) == names_view(
            base.parts@,
        ));
        true
    }

    /// The last component, unless the path is empty or ends with `..`.
    pub fn file_name(&self) -> (r: Option<&str>)
        ensures
            match r {
                Some(n) => self@.file_name() == Some(n@),
                None => self@.file_name() is None,
            },
    {
        let n = self.parts.len();
        if n == 0 {
            return None;
        }
        let last = self.parts[n - 1].as_str();
        proof {
            reveal_strlit("..");
            assert(".."@ =~= seq!['.', '.']);
            assert(self@.parts.last() == last@);
        }
        if crate::text::str_eq(last, "..") {
            None
        } else {
            Some(last)
        }
    }

    /// The path without its last component.
    pub fn parent(&self) -> (r: Option<SitePath>)
        ensures
            match r {
                Some(p) => self@.parent() == Some(p@),
                None => self@.parent() is None,
            },
    {
        let n = self.parts.len();
        if n == 0 {
            return None;
        }
        let mut parts = copy_names(&self.parts);
        parts.pop();
        let r = SitePath { absolute: self.absolute, parts };
        assert(r@.parts == self@.parts.drop_last());
        Some(r)
    }

    /// The path with `name` appended as a new last component.
    pub fn child(&self, name: &str) -> (r: SitePath)
        ensures
            r@ == self@.child(name@),
    {
        let mut parts = copy_names(&self.parts);
        parts.push(name.to_owned());
        let r = SitePath { absolute: self.absolute, parts };
        assert(r@.parts == self@.parts.push(name@));
        r
    }

    /// `other` appended to this path; an absolute `other` replaces it.
    pub fn join(&self, other: &SitePath) -> (r: SitePath)
        ensures
            r@ == self@.join(other@),
    {
        if other.absolute {
            return other.duplicate();
        }
        let mut parts = copy_names(&self.parts);
        let mut rest = copy_names(&other.parts);
        let ghost p0 = parts@;
        let ghost r0 = rest@;
        parts.append(&mut rest);
        assert(names_view(parts@) == names_view(p0) + names_view(r0));
        SitePath { absolute: self.absolute, parts }
    }

    /// The path with its last component replaced by `name`.
    pub fn with_file_name(&self, name: &str) -> (r: SitePath)
        ensures
            r@ == self@.with_file_name(name@),
    {
        let mut parts = copy_names(&self.parts);
        if parts.len() > 0 {
            parts.pop();
        }
        parts.push(name.to_owned());
        let r = SitePath { absolute: self.absolute, parts };
        proof {
            if self@.parts.len() == 0 {
                assert(r@.parts == self@.parts.push(name@));
            } else {
                assert(r@.parts == self@.parts.drop_last().push(name@));
            }
        }
        r
    }
}

/// `src_file` moved from under `src_base_dir` to under `dst_base_dir`, the
/// path below the base kept.
pub fn rebase_path(src_base_dir: &SitePath, src_file: &SitePath, dst_base_dir: &SitePath) -> (r:
    Option<SitePath>)
    ensures
        src_file@.wf() && src_base_dir@.wf() && src_file@.starts_with(src_base_dir@) ==> r.is_some()
            && r.unwrap()@ == (PathView {
            absolute: dst_base_dir@.absolute,
            parts: dst_base_dir@.parts + src_file@.parts.subrange(
                src_base_dir@.parts.len() as int,
                src_file@.parts.len() as int,
            ),
        }),
{
    match diff_names(src_file, src_base_dir) {
        Some(rest) => {
            let mut parts = copy_names(&dst_base_dir.parts);
            let mut rest = rest;
            let ghost old_parts = parts@;
            let ghost old_rest = rest@;
            parts.append(&mut rest);
            assert(names_view(parts@) == names_view(old_parts) + names_view(old_rest));
            Some(SitePath { absolute: dst_base_dir.absolute, parts })
        },
        None => None,
    }
}

} // verus!
