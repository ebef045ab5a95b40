//! Frame chains: which frame files wrap a content file, innermost first.
//!
//! What the resolver knows of the file system is a list of facts: the files
//! that exist, and for each whether its first line is the doctype line.

use vstd::prelude::*;
use crate::path::{SitePath, PathView, stem, stem_of};
use crate::text::{str_eq, trim_of, trimmed};

verus! {

/// A regular file known to exist, and whether it is a complete stand-alone
/// document (its first line is `<!DOCTYPE html>`).
#[derive(Debug)]
pub struct FileFact {
    pub path: SitePath,
    pub doctype: bool,
}

/// What is known of the files of a content tree.
#[derive(Debug)]
pub struct FileFacts {
    pub files: Vec<FileFact>,
}

/// The doctype flag of the first fact about `p` from position `i` on, if any.
pub open spec fn fact_from(files: Seq<FileFact>, i: int, p: PathView) -> Option<bool>
    decreases files.len() - i,
{
    if i < 0 || i >= files.len() {
        None
    } else if files[i].path@ == p {
        Some(files[i].doctype)
    } else {
        fact_from(files, i + 1, p)
    }
}

/// Whether `p` is a known file.
pub open spec fn known(files: Seq<FileFact>, p: PathView) -> bool {
    fact_from(files, 0, p) is Some
}

/// Whether `p` is a known stand-alone document.
pub open spec fn standalone(files: Seq<FileFact>, p: PathView) -> bool {
    fact_from(files, 0, p) == Some(true)
}

/// The first of two candidates that is a known file.
pub open spec fn first_known(files: Seq<FileFact>, a: PathView, b: PathView) -> Option<PathView> {
    if known(files, a) {
        Some(a)
    } else if known(files, b) {
        Some(b)
    } else {
        None
    }
}

/// The page-level frame of `src`: `<stem>_frame.html`, else `<stem>_frame.md`,
/// beside it.
pub open spec fn page_frame(files: Seq<FileFact>, src: PathView) -> Option<PathView> {
    match (src.file_name(), src.parent()) {
        (Some(name), Some(dir)) => first_known(
            files,
            dir.child(stem_of(name) + "_frame.html"@),
            dir.child(stem_of(name) + "_frame.md"@),
        ),
        _ => None,
    }
}

/// The directory-level frame of `dir`: `_frame.html`, else `_frame.md`.
pub open spec fn dir_frame(files: Seq<FileFact>, dir: PathView) -> Option<PathView> {
    first_known(files, dir.child("_frame.html"@), dir.child("_frame.md"@))
}

/// The walk upward ends at `dir`: it is the content directory or the root.
pub open spec fn walk_ends(dir: PathView, content: PathView) -> bool {
    dir == content || dir.parts.len() == 0
}

/// The directory above `dir`.
pub open spec fn up(dir: PathView) -> PathView {
    PathView { absolute: dir.absolute, parts: dir.parts.drop_last() }
}

/// The directory-level frames met walking up from `dir`, stopping after a
/// stand-alone frame or at the end of the walk.
pub open spec fn dir_frames(files: Seq<FileFact>, dir: PathView, content: PathView) -> Seq<PathView>
    decreases dir.parts.len(),
{
    let rest = if walk_ends(dir, content) {
        Seq::empty()
    } else {
        dir_frames(files, up(dir), content)
    };
    match dir_frame(files, dir) {
        Some(f) => if standalone(files, f) {
            seq![f]
        } else {
            seq![f] + rest
        },
        None => rest,
    }
}

/// The frame chain of `src`, innermost first: empty for a stand-alone
/// document; else its page-level frame, then the directory-level frames from
/// its directory up to `content`.
pub open spec fn frame_chain(files: Seq<FileFact>, content: PathView, src: PathView) -> Seq<PathView> {
    if standalone(files, src) {
        Seq::empty()
    } else {
        let page = match page_frame(files, src) {
            Some(f) => seq![f],
            None => Seq::empty(),
        };
        match src.parent() {
            Some(dir) => page + dir_frames(files, dir, content),
            None => page,
        }
    }
}

/// The views of a sequence of paths.
pub open spec fn paths_view(v: Seq<SitePath>) -> Seq<PathView> {
    v.map_values(|p: SitePath| p@)
}

/// Whether a first line marks a stand-alone document.
pub open spec fn doctype_line(line: Seq<char>) -> bool {
    trim_of(line) == "<!DOCTYPE html>"@
}

/// Whether `line`, without surrounding white space, is `<!DOCTYPE html>`.
pub fn is_doctype_line(line: &str) -> (r: bool)
    ensures
        r == doctype_line(line@),
{
    str_eq(trimmed(line), "<!DOCTYPE html>")
}

/// The page-level frame of `file` (`<stem>_frame.html`, else
/// `<stem>_frame.md`, beside it), if one exists.
pub fn get_page_frame_for_file(facts: &FileFacts, file: &SitePath) -> (r: Option<SitePath>)
    ensures
        match r {
            Some(f) => page_frame(facts.files@, file@) == Some(f@),
            None => page_frame(facts.files@, file@) is None,
        },
{
    let name = match file.file_name() {
        Some(n) => n,
        None => return None,
    };
    let dir = match file.parent() {
        Some(d) => d,
        None => return None,
    };
    let s = stem(name);
    let html = s.clone().concat("_frame.html");
    let md = s.concat("_frame.md");
    facts.first_of(dir.child(html.as_str()), dir.child(md.as_str()))
}

impl FileFacts {
    /// The doctype flag of the first fact about `p`, if any.
    pub fn lookup(&self, p: &SitePath) -> (r: Option<bool>)
        ensures
            r == fact_from(self.files@, 0, p@),
    {
        let mut i: usize = 0;
        while i < self.files.len()
            invariant
                i <= self.files@.len(),
                fact_from(self.files@, 0, p@) == fact_from(self.files@, i as int, p@),
            decreases self.files@.len() - i,
        {
            if self.files[i].path.same_as(p) {
                return Some(self.files[i].doctype);
            }
            i = i + 1;
        }
        None
    }

    /// The first of two candidates that is a known file.
    fn first_of(&self, a: SitePath, b: SitePath) -> (r: Option<SitePath>)
        ensures
            match r {
                Some(f) => first_known(self.files@, a@, b@) == Some(f@),
                None => first_known(self.files@, a@, b@) is None,
            },
    {
        if self.lookup(&a).is_some() {
            Some(a)
        } else if self.lookup(&b).is_some() {
            Some(b)
        } else {
            None
        }
    }

    /// The directory-level frame of `dir`, if one exists.
    pub fn dir_frame_for(&self, dir: &SitePath) -> (r: Option<SitePath>)
        ensures
            match r {
                Some(f) => dir_frame(self.files@, dir@) == Some(f@),
                None => dir_frame(self.files@, dir@) is None,
            },
    {
        self.first_of(dir.child("_frame.html"), dir.child("_frame.md"))
    }

    /// Appends the directory-level frames met walking up from `dir`.
    fn push_dir_frames(&self, frames: &mut Vec<SitePath>, dir: SitePath, content: &SitePath)
        ensures
            paths_view(final(frames)@) == paths_view(old(frames)@) + dir_frames(
                self.files@,
                dir@,
                content@,
            ),
        decreases dir@.parts.len(),
    {
        let ghost start = paths_view(frames@);
        let ends = dir.same_as(content) || dir.parts.len() == 0;
        match self.dir_frame_for(&dir) {
            Some(f) => {
                let alone = self.lookup(&f) == Some(true);
                let ghost fv = f@;
                frames.push(f);
                assert(paths_view(frames@) == start + seq![fv]);
                if alone || ends {
                    return ;
                }
            },
            None => {
                if ends {
                    assert(paths_view(frames@) == start);
                    return ;
                }
            },
        }
        let ghost mid = paths_view(frames@);
        let mut parts = crate::path::copy_names(&dir.parts);
        parts.pop();
        let above = SitePath { absolute: dir.absolute, parts };
        assert(above@.parts =~= dir@.parts.drop_last());
        self.push_dir_frames(frames, above, content);
        proof {
            if dir_frame(self.files@, dir@) is Some {
                assert(mid + dir_frames(self.files@, up(dir@), content@) == start + (seq![
                    dir_frame(self.files@, dir@).unwrap(),
                ] + dir_frames(self.files@, up(dir@), content@)));
            }
        }
    }

    /// The frame chain of `src` below `content_dir`, innermost first.
    pub fn resolve(&self, content_dir: &SitePath, src: &SitePath) -> (r: Vec<SitePath>)
        ensures
            paths_view(r@) == frame_chain(self.files@, content_dir@, src@),
    {
        let mut frames: Vec<SitePath> = Vec::new();
        if self.lookup(src) == Some(true) {
            assert(paths_view(frames@) =~= Seq::<PathView>::empty());
            return frames;
        }
        match get_page_frame_for_file(self, src) {
            Some(f) => {
                frames.push(f);
            },
            None => {},
        }
        let ghost page = paths_view(frames@);
        assert(page == match page_frame(self.files@, src@) {
            Some(f) => seq![f],
            None => Seq::<PathView>::empty(),
        });
        match src.parent() {
            Some(dir) => {
                self.push_dir_frames(&mut frames, dir, content_dir);
            },
            None => {},
        }
        frames
    }
}

/// The nearest directory, walking up from `dir` to the end of the walk, that
/// holds a directory-level frame.
pub open spec fn closest_frame_dir(files: Seq<FileFact>, dir: PathView, content: PathView) -> Option<
    PathView,
>
    decreases dir.parts.len(),
{
    if dir_frame(files, dir) is Some {
        Some(dir)
    } else if walk_ends(dir, content) {
        None
    } else {
        closest_frame_dir(files, up(dir), content)
    }
}

/// Some directory above `dir`, up to the end of the walk, holds a
/// directory-level frame.
pub open spec fn frame_above(files: Seq<FileFact>, dir: PathView, content: PathView) -> bool {
    !walk_ends(dir, content) && closest_frame_dir(files, up(dir), content) is Some
}

/// How many components `src` has below `content`.
pub open spec fn depth_below(src: PathView, content: PathView) -> int {
    src.parts.len() - content.parts.len()
}

/// A stand-alone document resolves to an empty chain, whatever frame files
/// surround it.
pub proof fn lemma_standalone_has_no_frames(files: Seq<FileFact>, content: PathView, src: PathView)
    requires
        standalone(files, src),
    ensures
        frame_chain(files, content, src).len() == 0,
{
}

proof fn lemma_inside_is_deeper(dir: PathView, content: PathView)
    requires
        dir.starts_with(content),
        dir != content,
    ensures
        dir.parts.len() > content.parts.len(),
        up(dir).starts_with(content),
{
    if dir.parts.len() == content.parts.len() {
        assert(dir.parts =~= content.parts);
    }
    assert(up(dir).parts.subrange(0, content.parts.len() as int) =~= dir.parts.subrange(
        0,
        content.parts.len() as int,
    ));
}

proof fn lemma_dir_frames_len(files: Seq<FileFact>, dir: PathView, content: PathView)
    requires
        dir.starts_with(content),
    ensures
        dir_frames(files, dir, content).len() <= depth_below(dir, content) + 1,
    decreases dir.parts.len(),
{
    if !walk_ends(dir, content) {
        lemma_inside_is_deeper(dir, content);
        lemma_dir_frames_len(files, up(dir), content);
    }
}

/// For a file below the content directory, the chain has at most one frame
/// per directory level between them, plus its page-level frame if it has
/// one: without a page-level frame it never exceeds the file's depth.
pub proof fn lemma_frame_chain_depth(files: Seq<FileFact>, content: PathView, src: PathView)
    requires
        src.starts_with(content),
        src.parts.len() > content.parts.len(),
    ensures
        frame_chain(files, content, src).len() <= depth_below(src, content) + (if page_frame(
            files,
            src,
        ) is Some {
            1int
        } else {
            0int
        }),
        page_frame(files, src) is None ==> frame_chain(files, content, src).len() <= depth_below(
            src,
            content,
        ),
{
    if !standalone(files, src) {
        let dir = src.parent().unwrap();
        assert(dir.parts.subrange(0, content.parts.len() as int) =~= src.parts.subrange(
            0,
            content.parts.len() as int,
        ));
        lemma_dir_frames_len(files, dir, content);
    }
}

proof fn lemma_no_frame_no_chain(files: Seq<FileFact>, dir: PathView, content: PathView)
    requires
        closest_frame_dir(files, dir, content) is None,
    ensures
        dir_frames(files, dir, content).len() == 0,
    decreases dir.parts.len(),
{
    if !walk_ends(dir, content) {
        lemma_no_frame_no_chain(files, up(dir), content);
    }
}

proof fn lemma_closest_has_frame(files: Seq<FileFact>, dir: PathView, content: PathView)
    requires
        closest_frame_dir(files, dir, content) is Some,
    ensures
        dir_frame(files, closest_frame_dir(files, dir, content).unwrap()) is Some,
    decreases dir.parts.len(),
{
    if dir_frame(files, dir) is None {
        lemma_closest_has_frame(files, up(dir), content);
    }
}

proof fn lemma_dir_frames_last(files: Seq<FileFact>, dir: PathView, content: PathView, at: PathView)
    requires
        closest_frame_dir(files, dir, content) == Some(at),
        standalone(files, dir_frame(files, at).unwrap()) || !frame_above(files, at, content),
    ensures
        dir_frames(files, dir, content).len() > 0,
        dir_frames(files, dir, content).last() == dir_frame(files, at).unwrap(),
    decreases dir.parts.len(),
{
    if dir_frame(files, dir) is Some {
        if !standalone(files, dir_frame(files, dir).unwrap()) && !walk_ends(dir, content) {
            lemma_no_frame_no_chain(files, up(dir), content);
        }
    } else {
        lemma_dir_frames_last(files, up(dir), content, at);
    }
}

/// When a file is not stand-alone and the nearest directory above it with a
/// directory-level frame either holds a stand-alone frame or is the last one
/// with a frame up to the content directory, the outermost element of the
/// chain lies in that nearest directory.
pub proof fn lemma_outermost_frame_dir(
    files: Seq<FileFact>,
    content: PathView,
    src: PathView,
    at: PathView,
)
    requires
        !standalone(files, src),
        src.parent() is Some,
        closest_frame_dir(files, src.parent().unwrap(), content) == Some(at),
        standalone(files, dir_frame(files, at).unwrap()) || !frame_above(files, at, content),
    ensures
        frame_chain(files, content, src).len() > 0,
        frame_chain(files, content, src).last().parent() == Some(at),
{
    let dir = src.parent().unwrap();
    lemma_closest_has_frame(files, dir, content);
    lemma_dir_frames_last(files, dir, content, at);
    let f = dir_frame(files, at).unwrap();
    assert(f.parts.drop_last() =~= at.parts);
    let page = match page_frame(files, src) {
        Some(p) => seq![p],
        None => Seq::<PathView>::empty(),
    };
    let walk = dir_frames(files, dir, content);
    assert((page + walk).last() == walk.last());
}

proof fn lemma_dir_frames_known(files: Seq<FileFact>, dir: PathView, content: PathView)
    ensures
        forall|i: int|
            0 <= i < dir_frames(files, dir, content).len() ==> known(
                files,
                #[trigger] dir_frames(files, dir, content)[i],
            ),
    decreases dir.parts.len(),
{
    if !walk_ends(dir, content) {
        lemma_dir_frames_known(files, up(dir), content);
    }
    let rest = if walk_ends(dir, content) {
        Seq::empty()
    } else {
        dir_frames(files, up(dir), content)
    };
    if dir_frame(files, dir) is Some {
        let f = dir_frame(files, dir).unwrap();
        assert forall|i: int| 0 <= i < (seq![f] + rest).len() implies known(
            files,
            #[trigger] (seq![f] + rest)[i],
        ) by {
            if i > 0 {
                assert((seq![f] + rest)[i] == rest[i - 1]);
            }
        }
    }
}

/// Every frame of a chain is a file known to exist.
pub proof fn lemma_chain_files_exist(files: Seq<FileFact>, content: PathView, src: PathView)
    ensures
        forall|i: int|
            0 <= i < frame_chain(files, content, src).len() ==> known(
                files,
                #[trigger] frame_chain(files, content, src)[i],
            ),
{
    if !standalone(files, src) {
        let page = match page_frame(files, src) {
            Some(f) => seq![f],
            None => Seq::<PathView>::empty(),
        };
        if src.parent() is Some {
            let dir = src.parent().unwrap();
            lemma_dir_frames_known(files, dir, content);
            let walk = dir_frames(files, dir, content);
            assert forall|i: int| 0 <= i < (page + walk).len() implies known(
                files,
                #[trigger] (page + walk)[i],
            ) by {
                if i >= page.len() {
                    assert((page + walk)[i] == walk[i - page.len()]);
                }
            }
        }
    }
}

} // verus!
