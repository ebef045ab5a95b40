//! Full builds: which content files produce which outputs, and which output
//! files are stale afterwards.

use vstd::prelude::*;
use crate::compose::{FrameSource, composed};
use crate::frames::{FileFact, frame_chain, paths_view};
use crate::path::{SitePath, PathView};
use crate::processor::{FileProcessor, below, dist_path};
use crate::role::role_of_path;
use crate::site::{Site, content_path};

verus! {

/// A file found under the content directory produces an output: it is
/// content, and not a frame.
pub open spec fn has_output(dist: PathView, f: PathView) -> bool {
    content_path(dist, f) && !role_of_path(f).frame_role()
}

/// The outputs of a full build over `files`, in order.
pub open spec fn outputs(content: PathView, dist: PathView, files: Seq<PathView>) -> Seq<PathView>
    decreases files.len(),
{
    if files.len() == 0 {
        Seq::empty()
    } else {
        let rest = outputs(content, dist, files.drop_last());
        let f = files.last();
        if has_output(dist, f) {
            rest.push(dist_path(content, dist, role_of_path(f), f))
        } else {
            rest
        }
    }
}

/// The content files of a full build over `files` that produce an output,
/// in order.
pub open spec fn output_sources(dist: PathView, files: Seq<PathView>) -> Seq<PathView>
    decreases files.len(),
{
    if files.len() == 0 {
        Seq::empty()
    } else {
        let rest = output_sources(dist, files.drop_last());
        if has_output(dist, files.last()) {
            rest.push(files.last())
        } else {
            rest
        }
    }
}

/// The source paths of processors.
pub open spec fn src_files_view(v: Seq<FileProcessor>) -> Seq<PathView> {
    v.map_values(|fp: FileProcessor| fp.src_file@)
}

/// The files of `s` that are not in `keep`, in order.
pub open spec fn without(s: Seq<PathView>, keep: Seq<PathView>) -> Seq<PathView>
    decreases s.len(),
{
    if s.len() == 0 {
        Seq::empty()
    } else {
        let rest = without(s.drop_last(), keep);
        if keep.contains(s.last()) {
            rest
        } else {
            rest.push(s.last())
        }
    }
}

/// The views of the output paths of processors.
pub open spec fn dist_files_view(v: Seq<FileProcessor>) -> Seq<PathView> {
    v.map_values(|fp: FileProcessor| fp.dist_file@)
}

/// Whether `p` is one of `v`.
pub fn contains_path(v: &Vec<SitePath>, p: &SitePath) -> (r: bool)
    ensures
        r == paths_view(v@).contains(p@),
{
    let mut i: usize = 0;
    while i < v.len()
        invariant
            i <= v@.len(),
            forall|k: int| 0 <= k < i ==> v@[k]@ != p@,
        decreases v@.len() - i,
    {
        if v[i].same_as(p) {
            assert(paths_view(v@)[i as int] == p@);
            return true;
        }
        i = i + 1;
    }
    assert forall|k: int| 0 <= k < paths_view(v@).len() implies paths_view(v@)[k] != p@ by {
        assert(paths_view(v@)[k] == v@[k]@);
    }
    false
}

/// The processors of a full build: one for each file found under the content
/// directory that is content and not a frame, in order.
pub fn content_processors(site: &Site, files: &Vec<SitePath>) -> (r: Vec<FileProcessor>)
    requires
        forall|i: int| 0 <= i < files@.len() ==> below(site.content_dir@, #[trigger] files@[i]@),
    ensures
        dist_files_view(r@) == outputs(site.content_dir@, site.dist_dir@, paths_view(files@)),
        src_files_view(r@) == output_sources(site.dist_dir@, paths_view(files@)),
        forall|k: int| 0 <= k < r@.len() ==> (#[trigger] r@[k]).src_type == role_of_path(r@[k].src_file@),
{
    let mut r: Vec<FileProcessor> = Vec::new();
    let mut i: usize = 0;
    while i < files.len()
        invariant
            i <= files@.len(),
            forall|k: int| 0 <= k < files@.len() ==> below(site.content_dir@, #[trigger] files@[k]@),
            dist_files_view(r@) == outputs(
                site.content_dir@,
                site.dist_dir@,
                paths_view(files@).subrange(0, i as int),
            ),
            src_files_view(r@) == output_sources(site.dist_dir@, paths_view(files@).subrange(0, i as int)),
            forall|k: int| 0 <= k < r@.len() ==> (#[trigger] r@[k]).src_type == role_of_path(r@[k].src_file@),
        decreases files@.len() - i,
    {
        let ghost before = r@;
        let ghost seen = paths_view(files@).subrange(0, i + 1);
        assert(seen.drop_last() == paths_view(files@).subrange(0, i as int));
        assert(seen.last() == files@[i as int]@);
        if site.valid_content_path(&files[i]) {
            match FileProcessor::from_src_file(site, files[i].duplicate(), true) {
                Some(fp) => {
                    r.push(fp);
                    assert(dist_files_view(r@) == dist_files_view(before).push(fp.dist_file@));
                    assert(src_files_view(r@) == src_files_view(before).push(fp.src_file@));
                    assert(r@[r@.len() - 1] == fp);
                },
                None => {},
            }
        }
        i = i + 1;
    }
    assert(paths_view(files@).subrange(0, files@.len() as int) == paths_view(files@));
    r
}

/// The output files that a full build left stale: those of `dist_files` that
/// are not among `produced`, in order.
pub fn stale_files(dist_files: &Vec<SitePath>, produced: &Vec<SitePath>) -> (r: Vec<SitePath>)
    ensures
        paths_view(r@) == without(paths_view(dist_files@), paths_view(produced@)),
{
    let mut r: Vec<SitePath> = Vec::new();
    let mut i: usize = 0;
    while i < dist_files.len()
        invariant
            i <= dist_files@.len(),
            paths_view(r@) == without(
                paths_view(dist_files@).subrange(0, i as int),
                paths_view(produced@),
            ),
        decreases dist_files@.len() - i,
    {
        let ghost seen = paths_view(dist_files@).subrange(0, i + 1);
        assert(seen.drop_last() == paths_view(dist_files@).subrange(0, i as int));
        assert(seen.last() == dist_files@[i as int]@);
        if !contains_path(produced, &dist_files[i]) {
            let ghost before = r@;
            r.push(dist_files[i].duplicate());
            assert(paths_view(r@) == paths_view(before).push(dist_files@[i as int]@));
        }
        i = i + 1;
    }
    assert(paths_view(dist_files@).subrange(0, dist_files@.len() as int) == paths_view(dist_files@));
    r
}

proof fn lemma_push_contains(s: Seq<PathView>, y: PathView, x: PathView)
    ensures
        s.push(y).contains(x) <==> (s.contains(x) || y == x),
{
    if s.push(y).contains(x) && y != x {
        let k = choose|k: int| 0 <= k < s.push(y).len() && s.push(y)[k] == x;
        assert(s[k] == x);
    }
    if s.contains(x) {
        let k = choose|k: int| 0 <= k < s.len() && s[k] == x;
        assert(s.push(y)[k] == x);
    }
    if y == x {
        assert(s.push(y)[s.len() as int] == x);
    }
}

proof fn lemma_without_contains(s: Seq<PathView>, keep: Seq<PathView>, x: PathView)
    ensures
        without(s, keep).contains(x) <==> (s.contains(x) && !keep.contains(x)),
    decreases s.len(),
{
    if s.len() > 0 {
        let init = s.drop_last();
        let l = s.last();
        lemma_without_contains(init, keep, x);
        assert(s == init.push(l));
        lemma_push_contains(init, l, x);
        lemma_push_contains(without(init, keep), l, x);
    }
}

proof fn lemma_outputs_contains(content: PathView, dist: PathView, files: Seq<PathView>, x: PathView)
    ensures
        outputs(content, dist, files).contains(x) <==> exists|j: int|
            0 <= j < files.len() && has_output(dist, #[trigger] files[j]) && dist_path(
                content,
                dist,
                role_of_path(files[j]),
                files[j],
            ) == x,
    decreases files.len(),
{
    if files.len() > 0 {
        let init = files.drop_last();
        let f = files.last();
        let rest = outputs(content, dist, init);
        lemma_outputs_contains(content, dist, init, x);
        if outputs(content, dist, files).contains(x) {
            if rest.contains(x) {
                let j = choose|j: int|
                    0 <= j < init.len() && has_output(dist, #[trigger] init[j]) && dist_path(
                        content,
                        dist,
                        role_of_path(init[j]),
                        init[j],
                    ) == x;
                assert(files[j] == init[j]);
            } else {
                let k = choose|k: int|
                    0 <= k < outputs(content, dist, files).len() && outputs(content, dist, files)[k]
                        == x;
                if k < rest.len() {
                    assert(rest[k] == x);
                }
                assert(files[files.len() - 1] == f);
            }
        }
        if exists|j: int|
            0 <= j < files.len() && has_output(dist, #[trigger] files[j]) && dist_path(
                content,
                dist,
                role_of_path(files[j]),
                files[j],
            ) == x {
            let j = choose|j: int|
                0 <= j < files.len() && has_output(dist, #[trigger] files[j]) && dist_path(
                    content,
                    dist,
                    role_of_path(files[j]),
                    files[j],
                ) == x;
            if j < files.len() - 1 {
                assert(init[j] == files[j]);
                assert(rest.contains(x));
                let k = choose|k: int| 0 <= k < rest.len() && rest[k] == x;
                if has_output(dist, f) {
                    assert(rest.push(dist_path(content, dist, role_of_path(f), f))[k] == x);
                }
            } else {
                assert(files[j] == f);
                let full = rest.push(dist_path(content, dist, role_of_path(f), f));
                assert(full[rest.len() as int] == x);
            }
        }
    }
}

/// Idempotence of full builds. The first build writes its outputs over what
/// the output directory held (`before`), then removes every file that it did
/// not produce; the second build, over the same content, finds no stale file
/// and leaves the same set of output files. (That the files hold the same
/// bytes is `lemma_rebuild_same_pages`.)
pub proof fn lemma_build_idempotent(
    content: PathView,
    dist: PathView,
    files: Seq<PathView>,
    before: Seq<PathView>,
    found1: Seq<PathView>,
    found2: Seq<PathView>,
)
    requires
        found1.to_set() == before.to_set().union(outputs(content, dist, files).to_set()),
        found2.to_set() == found1.to_set().difference(
            without(found1, outputs(content, dist, files)).to_set(),
        ).union(outputs(content, dist, files).to_set()),
    ensures
        without(found2, outputs(content, dist, files)).len() == 0,
        found2.to_set() == outputs(content, dist, files).to_set(),
        found2.to_set().difference(without(found2, outputs(content, dist, files)).to_set())
            == found1.to_set().difference(without(found1, outputs(content, dist, files)).to_set()),
{
    let p = outputs(content, dist, files);
    assert forall|x: PathView| found2.to_set().contains(x) implies p.to_set().contains(x) by {
        lemma_without_contains(found1, p, x);
        if found1.to_set().contains(x) && !p.contains(x) {
            assert(found1.contains(x));
            assert(without(found1, p).contains(x));
            assert(without(found1, p).to_set().contains(x));
        }
    }
    assert(found2.to_set() =~= p.to_set());
    if without(found2, p).len() > 0 {
        let y = without(found2, p)[0];
        assert(without(found2, p).contains(y));
        lemma_without_contains(found2, p, y);
        assert(found2.to_set().contains(y));
    }
    assert(without(found2, p).to_set() =~= Set::<PathView>::empty());
    assert forall|x: PathView|
        found1.to_set().difference(without(found1, p).to_set()).contains(x) <==> p.to_set().contains(
            x,
        ) by {
        lemma_without_contains(found1, p, x);
        if p.contains(x) {
            assert(before.to_set().union(p.to_set()).contains(x));
            assert(found1.contains(x));
        }
    }
    assert(found1.to_set().difference(without(found1, p).to_set()) =~= p.to_set());
    assert(found2.to_set().difference(without(found2, p).to_set()) =~= p.to_set());
}

/// Deletion closure. When the content file `files[i]` has an output that no
/// other content file maps to, rebuilding without it marks that output stale
/// wherever it is found in the output directory, and keeps every output of
/// the other files. (Its directory then goes too exactly when it is left
/// empty: see `parent_to_remove`.)
pub proof fn lemma_removed_output_is_stale(
    content: PathView,
    dist: PathView,
    files: Seq<PathView>,
    i: int,
    found: Seq<PathView>,
)
    requires
        0 <= i < files.len(),
        has_output(dist, files[i]),
        forall|j: int|
            0 <= j < files.len() && j != i && has_output(dist, #[trigger] files[j]) ==> dist_path(
                content,
                dist,
                role_of_path(files[j]),
                files[j],
            ) != dist_path(content, dist, role_of_path(files[i]), files[i]),
        found.contains(dist_path(content, dist, role_of_path(files[i]), files[i])),
    ensures
        without(found, outputs(content, dist, files.remove(i))).contains(
            dist_path(content, dist, role_of_path(files[i]), files[i]),
        ),
        forall|x: PathView|
            #![trigger outputs(content, dist, files.remove(i)).contains(x)]
            outputs(content, dist, files).contains(x) && x != dist_path(
                content,
                dist,
                role_of_path(files[i]),
                files[i],
            ) ==> outputs(content, dist, files.remove(i)).contains(x),
{
    let d = dist_path(content, dist, role_of_path(files[i]), files[i]);
    let rest = files.remove(i);
    lemma_outputs_contains(content, dist, rest, d);
    if outputs(content, dist, rest).contains(d) {
        let j = choose|j: int|
            0 <= j < rest.len() && has_output(dist, #[trigger] rest[j]) && dist_path(
                content,
                dist,
                role_of_path(rest[j]),
                rest[j],
            ) == d;
        if j < i {
            assert(rest[j] == files[j]);
        } else {
            assert(rest[j] == files[j + 1]);
        }
    }
    lemma_without_contains(found, outputs(content, dist, rest), d);
    assert forall|x: PathView|
        #![trigger outputs(content, dist, files.remove(i)).contains(x)]
        outputs(content, dist, files).contains(x) && x != d implies outputs(
            content,
            dist,
            files.remove(i),
        ).contains(x) by {
        lemma_outputs_contains(content, dist, files, x);
        lemma_outputs_contains(content, dist, rest, x);
        let j = choose|j: int|
            0 <= j < files.len() && has_output(dist, #[trigger] files[j]) && dist_path(
                content,
                dist,
                role_of_path(files[j]),
                files[j],
            ) == x;
        assert(j != i);
        if j < i {
            assert(rest[j] == files[j]);
        } else {
            assert(rest[j - 1] == files[j]);
        }
    }
}

/// Byte identity of rebuilds. Two full builds over the same content files
/// (`a` and `b`, as `content_processors` gives them) pick the same sources,
/// with the same roles and outputs; with the same file facts each source has
/// the same frame chain, and the page text composed from the same page and
/// frame texts is the same.
pub proof fn lemma_rebuild_same_pages(
    content: PathView,
    dist: PathView,
    files: Seq<PathView>,
    facts: Seq<FileFact>,
    a: Seq<FileProcessor>,
    b: Seq<FileProcessor>,
    html: Seq<char>,
    frames: Seq<FrameSource>,
    k: int,
)
    requires
        dist_files_view(a) == outputs(content, dist, files),
        src_files_view(a) == output_sources(dist, files),
        forall|j: int| 0 <= j < a.len() ==> (#[trigger] a[j]).src_type == role_of_path(a[j].src_file@),
        dist_files_view(b) == outputs(content, dist, files),
        src_files_view(b) == output_sources(dist, files),
        forall|j: int| 0 <= j < b.len() ==> (#[trigger] b[j]).src_type == role_of_path(b[j].src_file@),
        0 <= k < a.len(),
    ensures
        a.len() == b.len(),
        a[k].src_file@ == b[k].src_file@,
        a[k].src_type == b[k].src_type,
        a[k].dist_file@ == b[k].dist_file@,
        frame_chain(facts, content, a[k].src_file@) == frame_chain(facts, content, b[k].src_file@),
        composed(a[k].src_type, html, frames) == composed(b[k].src_type, html, frames),
{
    assert(src_files_view(a).len() == a.len());
    assert(src_files_view(b).len() == b.len());
    assert(src_files_view(a)[k] == a[k].src_file@);
    assert(src_files_view(b)[k] == b[k].src_file@);
    assert(dist_files_view(a)[k] == a[k].dist_file@);
    assert(dist_files_view(b)[k] == b[k].dist_file@);
}

} // verus!
