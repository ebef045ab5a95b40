//! One content file: its role, where its output goes, and what to do with it.

use vstd::prelude::*;
use crate::compose::{FrameSource, compose, composed, wrapped};
use crate::frames::{FileFacts, frame_chain, paths_view};
use crate::path::{SitePath, PathView, stem, stem_of, diff_names, names_view};
use crate::role::{SrcType, role_of_path};
use crate::site::Site;

verus! {

/// `src` moved from under `content` to under `dist`.
pub open spec fn rebased(content: PathView, dist: PathView, src: PathView) -> PathView {
    PathView {
        absolute: dist.absolute,
        parts: dist.parts + src.parts.subrange(content.parts.len() as int, src.parts.len() as int),
    }
}

/// The output name for a role: `index.html` for a readme, the stem for a
/// page (extension-less URLs), the same name otherwise.
pub open spec fn renamed(role: SrcType, p: PathView) -> PathView {
    match role {
        SrcType::ReadmeMarkdown => p.with_file_name("index.html"@),
        SrcType::PageMarkdown | SrcType::PageHtml => match p.file_name() {
            Some(n) => p.with_file_name(stem_of(n)),
            None => p,
        },
        _ => p,
    }
}

/// `src` lies below `content`, both made of proper names.
pub open spec fn below(content: PathView, src: PathView) -> bool {
    src.wf() && content.wf() && src.starts_with(content)
}

/// The output path of a content file of role `role`.
pub open spec fn dist_path(content: PathView, dist: PathView, role: SrcType, src: PathView) -> PathView {
    renamed(role, rebased(content, dist, src))
}

/// The output path of `src_file` for role `src_type`, whether or not the file
/// exists: none for a frame.
pub fn map_dist_file(site: &Site, src_type: &SrcType, src_file: &SitePath) -> (r: Option<SitePath>)
    ensures
        src_type.frame_role() ==> r is None,
        !src_type.frame_role() && below(site.content_dir@, src_file@) ==> r is Some && r.unwrap()@
            == dist_path(site.content_dir@, site.dist_dir@, *src_type, src_file@),
{
    if src_type.is_frame() {
        return None;
    }
    let dist_file = match crate::path::rebase_path(&site.content_dir, src_file, &site.dist_dir) {
        Some(d) => d,
        None => return None,
    };
    match src_type {
        SrcType::ReadmeMarkdown => {
            proof {
                reveal_strlit("index.html");
            }
            Some(dist_file.with_file_name("index.html"))
        },
        SrcType::PageMarkdown | SrcType::PageHtml => {
            let new_name = match dist_file.file_name() {
                Some(n) => Some(stem(n)),
                None => None,
            };
            match new_name {
                Some(n) => Some(dist_file.with_file_name(n.as_str())),
                None => Some(dist_file),
            }
        },
        _ => Some(dist_file),
    }
}

/// The output path of `src_file`: none when it is not a regular file
/// (`is_file` false) or is a frame.
pub fn get_dist_file(site: &Site, src_type: &SrcType, src_file: &SitePath, is_file: bool) -> (r:
    Option<SitePath>)
    ensures
        !is_file || src_type.frame_role() ==> r is None,
        is_file && !src_type.frame_role() && below(site.content_dir@, src_file@) ==> r is Some
            && r.unwrap()@ == dist_path(site.content_dir@, site.dist_dir@, *src_type, src_file@),
{
    if !is_file {
        return None;
    }
    map_dist_file(site, src_type, src_file)
}

/// A content file with a mapped output.
#[derive(Debug)]
pub struct FileProcessor {
    pub src_file: SitePath,
    pub src_type: SrcType,
    pub dist_file: SitePath,
}

/// What `process` does for a file, once it knows whether the file exists.
#[derive(Debug)]
pub enum ProcessPlan {
    /// The source is gone: remove its output.
    RemoveOutput(SitePath),
    /// The source is there: make sure this directory exists, then render.
    Render(SitePath),
}

/// What to do with the outcome of rendering.
#[derive(Debug)]
pub enum Output {
    /// Write this text to the output file.
    Write(String),
    /// Copy the source to the output file, byte for byte.
    Copy,
}

impl FileProcessor {
    /// A processor for `src_file`, a regular file when `is_file`; none when it
    /// has no output (not a file, or a frame).
    pub fn from_src_file(site: &Site, src_file: SitePath, is_file: bool) -> (r: Option<Self>)
        ensures
            !is_file || role_of_path(src_file@).frame_role() ==> r is None,
            r matches Some(fp) ==> fp.src_file@ == src_file@ && fp.src_type == role_of_path(
                src_file@,
            ),
            is_file && !role_of_path(src_file@).frame_role() && below(
                site.content_dir@,
                src_file@,
            ) ==> (r matches Some(fp) && fp.dist_file@ == dist_path(
                site.content_dir@,
                site.dist_dir@,
                role_of_path(src_file@),
                src_file@,
            )),
    {
        let src_type = SrcType::from_path(&src_file);
        match get_dist_file(site, &src_type, &src_file, is_file) {
            Some(dist_file) => Some(FileProcessor { src_file, src_type, dist_file }),
            None => None,
        }
    }

    /// Whether the file is rendered to a page.
    pub fn is_for_html_render(&self) -> (r: bool)
        ensures
            r == self.src_type.renders(),
    {
        self.src_type.is_for_html_render()
    }

    /// Whether the file is a frame.
    pub fn is_frame(&self) -> (r: bool)
        ensures
            r == self.src_type.frame_role(),
    {
        self.src_type.is_frame()
    }

    /// The output path relative to the site's root.
    pub fn root_rel_dist_file(&self, site: &Site) -> (r: Option<SitePath>)
        ensures
            below(site.root_dir@, self.dist_file@) ==> (r matches Some(p) && p@ == (PathView {
                absolute: false,
                parts: self.dist_file@.parts.subrange(
                    site.root_dir@.parts.len() as int,
                    self.dist_file@.parts.len() as int,
                ),
            })),
    {
        match diff_names(&self.dist_file, &site.root_dir) {
            Some(parts) => Some(SitePath { absolute: false, parts }),
            None => None,
        }
    }

    /// The source path relative to the site's root.
    pub fn root_rel_src_file(&self, site: &Site) -> (r: Option<SitePath>)
        ensures
            below(site.root_dir@, self.src_file@) ==> (r matches Some(p) && p@ == (PathView {
                absolute: false,
                parts: self.src_file@.parts.subrange(
                    site.root_dir@.parts.len() as int,
                    self.src_file@.parts.len() as int,
                ),
            })),
    {
        match diff_names(&self.src_file, &site.root_dir) {
            Some(parts) => Some(SitePath { absolute: false, parts }),
            None => None,
        }
    }

    /// The frame chain of the file, innermost first.
    pub fn get_frames(&self, site: &Site, facts: &FileFacts) -> (r: Vec<SitePath>)
        ensures
            paths_view(r@) == frame_chain(facts.files@, site.content_dir@, self.src_file@),
    {
        facts.resolve(&site.content_dir, &self.src_file)
    }

    /// The file's final text: none when it is not rendered (it is copied),
    /// else its HTML (`page_html`, rendered from markdown for a markdown
    /// page) wrapped by `frames`, innermost first.
    pub fn render_content(&self, page_html: &str, frames: &Vec<FrameSource>) -> (r: Option<String>)
        ensures
            r is Some <==> self.src_type.renders(),
            r matches Some(page) ==> page@ == wrapped(page_html@, frames@),
    {
        compose(self.src_type, page_html, frames)
    }

    /// What to do, given whether the source file exists.
    pub fn plan(&self, src_exists: bool) -> (r: ProcessPlan)
        ensures
            !src_exists ==> (r matches ProcessPlan::RemoveOutput(f) && f@ == self.dist_file@),
            src_exists ==> (r matches ProcessPlan::Render(d) && (match self.dist_file@.parent() {
                Some(p) => d@ == p,
                None => d@ == self.dist_file@,
            })),
    {
        if !src_exists {
            return ProcessPlan::RemoveOutput(self.dist_file.duplicate());
        }
        match self.dist_file.parent() {
            Some(p) => ProcessPlan::Render(p),
            None => ProcessPlan::Render(self.dist_file.duplicate()),
        }
    }

    /// The output path that processing produces: none when the source is
    /// gone, else the output path (also when rendering failed, so that the
    /// previous output is kept).
    pub fn produced(&self, src_exists: bool) -> (r: Option<SitePath>)
        ensures
            !src_exists ==> r is None,
            src_exists ==> (r matches Some(p) && p@ == self.dist_file@),
    {
        if src_exists {
            Some(self.dist_file.duplicate())
        } else {
            None
        }
    }
}

/// What to do with the outcome of rendering: write the composed text, or
/// copy a file that is not rendered.
pub fn output_for(rendered: Option<String>) -> (r: Output)
    ensures
        match rendered {
            Some(t) => r matches Output::Write(w) && w@ == t@,
            None => r is Copy,
        },
{
    match rendered {
        Some(t) => Output::Write(t),
        None => Output::Copy,
    }
}

/// After an output file is removed: its directory, when that still exists and
/// is left with no entry, is removed too.
pub fn parent_to_remove(file: &SitePath, parent_exists: bool, parent_entries: usize) -> (r: Option<
    SitePath,
>)
    ensures
        r is Some <==> (file@.parent() is Some && parent_exists && parent_entries == 0),
        r matches Some(p) ==> file@.parent() == Some(p@),
{
    if !parent_exists || parent_entries != 0 {
        return None;
    }
    file.parent()
}

/// Files of role `Other` are never rendered: composing one gives nothing, so
/// processing copies its bytes unchanged (`Output::Copy`).
pub proof fn lemma_other_files_are_copied(html: Seq<char>, frames: Seq<FrameSource>)
    ensures
        composed(SrcType::Other, html, frames) is None,
{
}

} // verus!
