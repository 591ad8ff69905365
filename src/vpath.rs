//! Virtual paths inside a project or package root, and file identifiers.
use vstd::prelude::*;

use crate::error::{PackageSpec, PackageSpecView};
use crate::text::{copy_string, split_on};

verus! {

/// The segments of a path, split at each `/`.
pub open spec fn split_slash(s: Seq<char>) -> Seq<Seq<char>> {
    split_on(s, '/')
}

/// The segment `..`.
pub open spec fn parent_seg() -> Seq<char> {
    seq!['.', '.']
}

/// The segment `.`.
pub open spec fn current_seg() -> Seq<char> {
    seq!['.']
}

/// One normalisation step: empty and `.` segments vanish, `..` cancels the
/// last named segment or is kept when there is none.
pub open spec fn norm_step(acc: Seq<Seq<char>>, seg: Seq<char>) -> Seq<Seq<char>> {
    if seg.len() == 0 || seg == current_seg() {
        acc
    } else if seg == parent_seg() {
        if acc.len() > 0 && acc.last() != parent_seg() {
            acc.drop_last()
        } else {
            acc.push(seg)
        }
    } else {
        acc.push(seg)
    }
}

/// The normal form of a sequence of segments.
pub open spec fn normalize(segs: Seq<Seq<char>>) -> Seq<Seq<char>>
    decreases segs.len(),
{
    if segs.len() == 0 {
        Seq::empty()
    } else {
        norm_step(normalize(segs.drop_last()), segs.last())
    }
}

/// The components of the virtual path written `s`.
pub open spec fn components_of(s: Seq<char>) -> Seq<Seq<char>> {
    normalize(split_slash(s))
}

proof fn lemma_split_first(s: Seq<char>, n: int)
    requires
        3 <= n <= s.len(),
        s[0] == '.',
        s[1] == '.',
        s[2] == '/',
    ensures
        split_slash(s.subrange(0, n)).len() >= 2,
        split_slash(s.subrange(0, n))[0] == parent_seg(),
    decreases n,
{
    let p = s.subrange(0, n);
    assert(p.drop_last() =~= s.subrange(0, n - 1));
    if n == 3 {
        let p2 = s.subrange(0, 2);
        let p1 = s.subrange(0, 1);
        assert(p2.drop_last() =~= p1);
        assert(p1.drop_last() =~= Seq::<char>::empty());
        assert(split_on(p1.drop_last(), '/') == seq![Seq::<char>::empty()]);
        assert(Seq::<char>::empty().push('.') =~= seq!['.']);
        assert(split_on(p1, '/') =~= seq![seq!['.']]);
        assert(seq!['.'].push('.') =~= seq!['.', '.']);
        assert(split_on(p2, '/') =~= seq![seq!['.', '.']]);
        assert(split_slash(p) =~= seq![seq!['.', '.'], Seq::empty()]);
    } else {
        lemma_split_first(s, n - 1);
    }
}

/// Normalising keeps a leading `..` in front.
proof fn lemma_normalize_keeps_parent(segs: Seq<Seq<char>>, n: int)
    requires
        1 <= n <= segs.len(),
        segs[0] == parent_seg(),
    ensures
        normalize(segs.subrange(0, n)).len() >= 1,
        normalize(segs.subrange(0, n))[0] == parent_seg(),
    decreases n,
{
    let p = segs.subrange(0, n);
    assert(p.drop_last() =~= segs.subrange(0, n - 1));
    if n == 1 {
        assert(segs.subrange(0, 0) =~= Seq::<Seq<char>>::empty());
        assert(parent_seg().len() == 2);
        assert(parent_seg() != current_seg());
    } else {
        lemma_normalize_keeps_parent(segs, n - 1);
        let acc = normalize(segs.subrange(0, n - 1));
        let r = normalize(p);
        assert(r == norm_step(acc, p.last()));
        if acc.len() == 1 {
            assert(acc.last() == parent_seg());
        }
        if r.len() < acc.len() {
            assert(r =~= acc.drop_last());
        } else if r.len() > acc.len() {
            assert(r[0] == acc[0]);
        } else {
            assert(r == acc);
        }
    }
}

/// A path that starts with `../` keeps a `..` component.
pub proof fn lemma_leading_parent_kept(path: Seq<char>)
    requires
        path.len() >= 3,
        path[0] == '.',
        path[1] == '.',
        path[2] == '/',
    ensures
        components_of(path).contains(parent_seg()),
{
    lemma_split_first(path, path.len() as int);
    assert(path.subrange(0, path.len() as int) =~= path);
    let segs = split_slash(path);
    lemma_normalize_keeps_parent(segs, segs.len() as int);
    assert(segs.subrange(0, segs.len() as int) =~= segs);
    assert(components_of(path)[0] == parent_seg());
}

/// `root` with each component appended after a `/`.
pub open spec fn join(root: Seq<char>, comps: Seq<Seq<char>>) -> Seq<char>
    decreases comps.len(),
{
    if comps.len() == 0 {
        root
    } else {
        join(root, comps.drop_last()) + seq!['/'] + comps.last()
    }
}

/// Where a path with these components lies under `root`, or `None` where it
/// would leave the root.
pub open spec fn resolve_spec(comps: Seq<Seq<char>>, root: Seq<char>) -> Option<Seq<char>> {
    if comps.contains(parent_seg()) {
        None
    } else {
        Some(join(root, comps))
    }
}

/// A path in the virtual file system of a project or package, in normal form.
pub struct VirtualPath {
    pub components: Vec<String>,
}

impl View for VirtualPath {
    type V = Seq<Seq<char>>;

    open spec fn view(&self) -> Seq<Seq<char>> {
        self.components@.map_values(|c: String| c@)
    }
}

fn is_seg(s: &str, c: char, n: usize) -> (r: bool)
    requires
        n == 1 || n == 2,
    ensures
        r == (s@ == Seq::new(n as nat, |i: int| c)),
{
    let len = s.unicode_len();
    if len != n {
        return false;
    }
    let mut i: usize = 0;
    while i < n
        invariant
            len == n,
            s@.len() == n,
            i <= n,
            forall|j: int| 0 <= j < i ==> s@[j] == c,
        decreases n - i,
    {
        if s.get_char(i) != c {
            return false;
        }
        i = i + 1;
    }
    assert(s@ =~= Seq::new(n as nat, |i: int| c));
    true
}

/// Whether a segment is `..`.
pub fn is_parent(s: &str) -> (r: bool)
    ensures
        r == (s@ == parent_seg()),
{
    let r = is_seg(s, '.', 2);
    assert(parent_seg() =~= Seq::new(2, |i: int| '.'));
    r
}

fn is_current(s: &str) -> (r: bool)
    ensures
        r == (s@ == current_seg()),
{
    let r = is_seg(s, '.', 1);
    assert(current_seg() =~= Seq::new(1, |i: int| '.'));
    r
}

fn split_path(s: &str) -> (r: Vec<String>)
    ensures
        r@.map_values(|c: String| c@) == split_slash(s@),
{
    let n = s.unicode_len();
    let mut segs: Vec<String> = Vec::new();
    let mut start: usize = 0;
    let mut i: usize = 0;
    assert(s@.subrange(0, 0) =~= Seq::<char>::empty());
    assert(segs@.map_values(|c: String| c@).push(s@.subrange(0, 0)) =~= split_slash(
        Seq::<char>::empty(),
    ));
    while i < n
        invariant
            n == s@.len(),
            start <= i <= n,
            segs@.map_values(|c: String| c@).push(s@.subrange(start as int, i as int))
                == split_slash(s@.subrange(0, i as int)),
        decreases n - i,
    {
        let c = s.get_char(i);
        let ghost prefix = s@.subrange(0, i + 1);
        assert(prefix.drop_last() =~= s@.subrange(0, i as int));
        assert(prefix.last() == c);
        if c == '/' {
            let seg = s.substring_char(start, i).to_owned();
            segs.push(seg);
            i = i + 1;
            start = i;
            assert(segs@.map_values(|c: String| c@) =~= split_slash(prefix).drop_last());
            assert(s@.subrange(start as int, i as int) =~= Seq::<char>::empty());
        } else {
            i = i + 1;
            assert(s@.subrange(start as int, i as int) =~= s@.subrange(
                start as int,
                i - 1 as int,
            ).push(c));
        }
        assert(segs@.map_values(|c: String| c@).push(s@.subrange(start as int, i as int))
            =~= split_slash(prefix));
    }
    let last = s.substring_char(start, n).to_owned();
    segs.push(last);
    assert(s@.subrange(0, n as int) =~= s@);
    assert(segs@.map_values(|c: String| c@) =~= split_slash(s@));
    segs
}

fn normalize_segments(segs: Vec<String>) -> (r: Vec<String>)
    ensures
        r@.map_values(|c: String| c@) == normalize(segs@.map_values(|c: String| c@)),
{
    let ghost sv = segs@.map_values(|c: String| c@);
    let mut out: Vec<String> = Vec::new();
    let mut i: usize = 0;
    while i < segs.len()
        invariant
            i <= segs@.len(),
            sv == segs@.map_values(|c: String| c@),
            out@.map_values(|c: String| c@) == normalize(sv.subrange(0, i as int)),
        decreases segs@.len() - i,
    {
        let seg = &segs[i];
        assert(sv.subrange(0, i + 1).drop_last() =~= sv.subrange(0, i as int));
        assert(sv.subrange(0, i + 1).last() == seg@);
        let ghost acc = out@.map_values(|c: String| c@);
        if seg.unicode_len() == 0 || is_current(seg.as_str()) {
        } else if is_parent(seg.as_str()) {
            let keep_parent = if out.len() > 0 {
                is_parent(out[out.len() - 1].as_str())
            } else {
                true
            };
            if keep_parent {
                out.push(copy_string(seg));
                assert(out@.map_values(|c: String| c@) =~= acc.push(seg@));
            } else {
                out.pop();
                assert(out@.map_values(|c: String| c@) =~= acc.drop_last());
            }
        } else {
            out.push(copy_string(seg));
            assert(out@.map_values(|c: String| c@) =~= acc.push(seg@));
        }
        i = i + 1;
    }
    assert(sv.subrange(0, segs@.len() as int) =~= sv);
    out
}

impl VirtualPath {
    /// The virtual path written `path`, in normal form: `.` and empty
    /// segments dropped, `..` cancelling the segment before it.
    pub fn new(path: &str) -> (r: VirtualPath)
        ensures
            r@ == components_of(path@),
    {
        let segs = split_path(path);
        VirtualPath { components: normalize_segments(segs) }
    }

    /// A copy of the path.
    pub fn duplicate(&self) -> (r: VirtualPath)
        ensures
            r@ == self@,
    {
        let mut out: Vec<String> = Vec::new();
        let mut i: usize = 0;
        while i < self.components.len()
            invariant
                i <= self@.len(),
                out@.map_values(|c: String| c@) == self@.subrange(0, i as int),
            decreases self@.len() - i,
        {
            let ghost before = out@.map_values(|c: String| c@);
            let c = copy_string(&self.components[i]);
            out.push(c);
            assert(out@.map_values(|c: String| c@) =~= before.push(self@[i as int]));
            i = i + 1;
            assert(out@.map_values(|c: String| c@) =~= self@.subrange(0, i as int));
        }
        assert(self@.subrange(0, self@.len() as int) =~= self@);
        VirtualPath { components: out }
    }

    /// The system path of this virtual path under `root`; `None` where it
    /// would leave the root through `..`.
    pub fn resolve(&self, root: &str) -> (r: Option<String>)
        ensures
            r is None <==> resolve_spec(self@, root@) is None,
            r matches Some(p) ==> resolve_spec(self@, root@) == Some(p@),
    {
        let mut out = root.to_owned();
        let mut i: usize = 0;
        while i < self.components.len()
            invariant
                i <= self@.len(),
                out@ == join(root@, self@.subrange(0, i as int)),
                !self@.subrange(0, i as int).contains(parent_seg()),
            decreases self@.len() - i,
        {
            let c = &self.components[i];
            if is_parent(c.as_str()) {
                assert(self@.contains(parent_seg())) by {
                    assert(self@[i as int] == parent_seg());
                }
                return None;
            }
            assert(self@.subrange(0, i + 1).drop_last() =~= self@.subrange(0, i as int));
            out.append("/");
            out.append(c.as_str());
            proof {
                reveal_strlit("/");
            }
            i = i + 1;
            assert(!self@.subrange(0, i as int).contains(parent_seg())) by {
                if self@.subrange(0, i as int).contains(parent_seg()) {
                    let k = choose|k: int|
                        0 <= k < i && self@.subrange(0, i as int)[k] == parent_seg();
                    if k < i - 1 {
                        assert(self@.subrange(0, i - 1 as int)[k] == parent_seg());
                    }
                }
            }
        }
        assert(self@.subrange(0, self@.len() as int) =~= self@);
        Some(out)
    }
}

/// Identifies a file: an optional package and a path within its root.
pub struct FileId {
    pub package: Option<PackageSpec>,
    pub vpath: VirtualPath,
}

/// The mathematical value of a file id.
pub struct FileIdView {
    pub package: Option<PackageSpecView>,
    pub vpath: Seq<Seq<char>>,
}

impl View for FileId {
    type V = FileIdView;

    open spec fn view(&self) -> FileIdView {
        FileIdView {
            package: match self.package {
                Some(p) => Some(p@),
                None => None,
            },
            vpath: self.vpath@,
        }
    }
}

impl FileId {
    /// The identifier of a file of the project itself.
    pub fn new(package: Option<PackageSpec>, vpath: VirtualPath) -> (r: FileId)
        ensures
            r.package == package,
            r.vpath == vpath,
    {
        FileId { package, vpath }
    }

    /// A copy of the identifier.
    pub fn duplicate(&self) -> (r: FileId)
        ensures
            r@ == self@,
    {
        FileId {
            package: match &self.package {
                Some(p) => Some(p.duplicate()),
                None => None,
            },
            vpath: self.vpath.duplicate(),
        }
    }
}

} // verus!
