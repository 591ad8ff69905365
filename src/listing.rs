//! Directory listings: entries ordered with directories first, then by name.
use vstd::prelude::*;

use crate::text::chars_of;

verus! {

/// The kind of a directory entry.
#[derive(Clone, Copy, Debug, PartialEq, Eq, Structural)]
pub enum FileType {
    File,
    Directory,
}

/// A directory entry.
pub struct FileItem {
    pub name: String,
    pub file_type: FileType,
}

impl View for FileItem {
    type V = (Seq<char>, FileType);

    open spec fn view(&self) -> (Seq<char>, FileType) {
        (self.name@, self.file_type)
    }
}

/// Whether name `a` comes no later than `b`: lexicographic by code point.
pub open spec fn name_le(a: Seq<char>, b: Seq<char>) -> bool
    decreases a.len(),
{
    if a.len() == 0 {
        true
    } else if b.len() == 0 {
        false
    } else if (a[0] as u32) != (b[0] as u32) {
        (a[0] as u32) < (b[0] as u32)
    } else {
        name_le(a.drop_first(), b.drop_first())
    }
}

/// Whether entry `a` may stand before `b`: a directory before a file, else
/// by name.
pub open spec fn item_le(a: (Seq<char>, FileType), b: (Seq<char>, FileType)) -> bool {
    if a.1 == FileType::Directory && b.1 == FileType::File {
        true
    } else if a.1 == FileType::File && b.1 == FileType::Directory {
        false
    } else {
        name_le(a.0, b.0)
    }
}

/// Whether a listing is in order.
pub open spec fn listing_sorted(s: Seq<(Seq<char>, FileType)>) -> bool {
    forall|i: int, j: int| 0 <= i < j < s.len() ==> item_le(#[trigger] s[i], #[trigger] s[j])
}

proof fn lemma_name_total(a: Seq<char>, b: Seq<char>)
    ensures
        name_le(a, b) || name_le(b, a),
    decreases a.len(),
{
    if a.len() > 0 && b.len() > 0 && (a[0] as u32) == (b[0] as u32) {
        lemma_name_total(a.drop_first(), b.drop_first());
    }
}

proof fn lemma_name_trans(a: Seq<char>, b: Seq<char>, c: Seq<char>)
    requires
        name_le(a, b),
        name_le(b, c),
    ensures
        name_le(a, c),
    decreases a.len(),
{
    if a.len() > 0 && b.len() > 0 && c.len() > 0 && (a[0] as u32) == (b[0] as u32) && (b[0] as u32)
        == (c[0] as u32) {
        lemma_name_trans(a.drop_first(), b.drop_first(), c.drop_first());
    }
}

proof fn lemma_item_total(a: (Seq<char>, FileType), b: (Seq<char>, FileType))
    ensures
        item_le(a, b) || item_le(b, a),
{
    lemma_name_total(a.0, b.0);
}

proof fn lemma_item_trans(a: (Seq<char>, FileType), b: (Seq<char>, FileType), c: (Seq<char>, FileType))
    requires
        item_le(a, b),
        item_le(b, c),
    ensures
        item_le(a, c),
{
    if a.1 == b.1 && b.1 == c.1 {
        lemma_name_trans(a.0, b.0, c.0);
    }
}

fn name_le_exec(a: &str, b: &str) -> (r: bool)
    ensures
        r == name_le(a@, b@),
{
    let x = chars_of(a);
    let y = chars_of(b);
    let mut i: usize = 0;
    assert(x@.subrange(0, x@.len() as int) =~= x@);
    assert(y@.subrange(0, y@.len() as int) =~= y@);
    while i < x.len() && i < y.len() && (x[i] as u32) == (y[i] as u32)
        invariant
            x@ == a@,
            y@ == b@,
            i <= x@.len(),
            i <= y@.len(),
            name_le(a@, b@) == name_le(x@.subrange(i as int, x@.len() as int), y@.subrange(
                i as int,
                y@.len() as int,
            )),
        decreases x@.len() - i,
    {
        let ghost xs = x@.subrange(i as int, x@.len() as int);
        let ghost ys = y@.subrange(i as int, y@.len() as int);
        assert(xs.drop_first() =~= x@.subrange(i + 1, x@.len() as int));
        assert(ys.drop_first() =~= y@.subrange(i + 1, y@.len() as int));
        i = i + 1;
    }
    let ghost xs = x@.subrange(i as int, x@.len() as int);
    let ghost ys = y@.subrange(i as int, y@.len() as int);
    if i == x.len() {
        assert(xs.len() == 0);
        true
    } else if i == y.len() {
        assert(ys.len() == 0);
        false
    } else {
        assert(xs[0] == x@[i as int] && ys[0] == y@[i as int]);
        (x[i] as u32) < (y[i] as u32)
    }
}

fn item_le_exec(a: &FileItem, b: &FileItem) -> (r: bool)
    ensures
        r == item_le(a@, b@),
{
    match (a.file_type, b.file_type) {
        (FileType::Directory, FileType::File) => true,
        (FileType::File, FileType::Directory) => false,
        _ => name_le_exec(a.name.as_str(), b.name.as_str()),
    }
}

/// The entries of a listing in order: directories first, each group by name.
pub fn sort_file_items(items: Vec<FileItem>) -> (r: Vec<FileItem>)
    ensures
        listing_sorted(r@.map_values(|x: FileItem| x@)),
        r@.map_values(|x: FileItem| x@).to_multiset() =~= items@.map_values(
            |x: FileItem| x@,
        ).to_multiset(),
{
    broadcast use vstd::seq_lib::to_multiset_build, vstd::seq_lib::to_multiset_insert,
        vstd::seq_lib::to_multiset_len, vstd::multiset::group_multiset_axioms;

    let mut rest = items;
    let ghost all = items@.map_values(|x: FileItem| x@);
    let mut out: Vec<FileItem> = Vec::new();
    assert(out@.map_values(|x: FileItem| x@) =~= Seq::<(Seq<char>, FileType)>::empty());
    assert(out@.map_values(|x: FileItem| x@).to_multiset().len() == 0);
    assert(rest@.map_values(|x: FileItem| x@) == all);
    while rest.len() > 0
        invariant
            listing_sorted(out@.map_values(|x: FileItem| x@)),
            out@.map_values(|x: FileItem| x@).to_multiset().add(
                rest@.map_values(|x: FileItem| x@).to_multiset(),
            ) =~= all.to_multiset(),
        decreases rest@.len(),
    {
        let ghost rv = rest@.map_values(|x: FileItem| x@);
        let ghost ov = out@.map_values(|x: FileItem| x@);
        let x = rest.pop().unwrap();
        assert(rv =~= rest@.map_values(|x: FileItem| x@).push(x@));
        let mut p: usize = 0;
        while p < out.len() && item_le_exec(&out[p], &x)
            invariant
                p <= out@.len(),
                ov == out@.map_values(|x: FileItem| x@),
                forall|k: int| 0 <= k < p ==> item_le(#[trigger] ov[k], x@),
            decreases out@.len() - p,
        {
            p = p + 1;
        }
        proof {
            if p < out@.len() {
                assert(!item_le(ov[p as int], x@));
                lemma_item_total(ov[p as int], x@);
                assert forall|k: int| p <= k < ov.len() implies item_le(x@, #[trigger] ov[k]) by {
                    if k > p {
                        assert(item_le(ov[p as int], ov[k]));
                        lemma_item_trans(x@, ov[p as int], ov[k]);
                    }
                }
            }
        }
        out.insert(p, x);
        proof {
            let nv = out@.map_values(|x: FileItem| x@);
            assert(nv =~= ov.insert(p as int, x@));
            let rv2 = rest@.map_values(|x: FileItem| x@);
            vstd::seq_lib::to_multiset_build(rv2, x@);
            assert(rv2.push(x@).to_multiset() == rv2.to_multiset().insert(x@));
            assert(rv == rv2.push(x@));
            vstd::seq_lib::to_multiset_insert(ov, p as int, x@);
            assert(nv.to_multiset().add(rv2.to_multiset()) =~= ov.to_multiset().add(
                rv.to_multiset(),
            ));
            assert forall|i: int, j: int| 0 <= i < j < nv.len() implies item_le(
                #[trigger] nv[i],
                #[trigger] nv[j],
            ) by {
                if j < p {
                } else if j == p {
                } else if i < p {
                    lemma_item_trans(ov[i], x@, ov[j - 1]);
                } else if i == p {
                } else {
                }
            }
        }
    }
    assert(rest@.map_values(|x: FileItem| x@).to_multiset().len() == 0);
    assert(out@.map_values(|x: FileItem| x@).to_multiset().add(
        rest@.map_values(|x: FileItem| x@).to_multiset(),
    ) =~= out@.map_values(|x: FileItem| x@).to_multiset());
    out
}

} // verus!
