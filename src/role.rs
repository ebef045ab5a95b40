//! The role of a content file, derived from its name alone.

use vstd::prelude::*;
use crate::path::{SitePath, PathView, extension, extension_of};
use crate::text::{ends_with_spec, lower_of, str_eq, str_ends_with, to_lower};

verus! {

/// What a content file is for.
#[derive(Debug, Clone, Copy, PartialEq, Eq, Structural)]
pub enum SrcType {
    FrameHtml,
    FrameMarkdown,
    ReadmeMarkdown,
    IndexHtml,
    PageMarkdown,
    PageHtml,
    Other,
}

/// The role of a file from its lower-cased name and extension, first rule
/// that applies.
pub open spec fn role_of(name: Seq<char>, ext: Seq<char>) -> SrcType {
    if name == "readme.md"@ {
        SrcType::ReadmeMarkdown
    } else if name == "index.html"@ {
        SrcType::IndexHtml
    } else if ends_with_spec(name, "_frame.html"@) {
        SrcType::FrameHtml
    } else if ends_with_spec(name, "_frame.md"@) {
        SrcType::FrameMarkdown
    } else if ext == "md"@ {
        SrcType::PageMarkdown
    } else if ext == "html"@ {
        SrcType::PageHtml
    } else {
        SrcType::Other
    }
}

/// The role of a path: that of its lower-cased name and extension, `Other`
/// when it has no name or no extension.
pub open spec fn role_of_path(p: PathView) -> SrcType {
    match p.file_name() {
        Some(name) => match extension_of(name) {
            Some(ext) => role_of(lower_of(name), lower_of(ext)),
            None => SrcType::Other,
        },
        None => SrcType::Other,
    }
}

impl SrcType {
    /// Produces an HTML page of its own.
    pub open spec fn renders(self) -> bool {
        match self {
            SrcType::IndexHtml | SrcType::ReadmeMarkdown | SrcType::PageMarkdown
            | SrcType::PageHtml => true,
            _ => false,
        }
    }

    /// Wraps other pages.
    pub open spec fn frame_role(self) -> bool {
        self is FrameHtml || self is FrameMarkdown
    }

    /// Its text is markdown, rendered to HTML before use.
    pub open spec fn markdown_role(self) -> bool {
        self is FrameMarkdown || self is PageMarkdown || self is ReadmeMarkdown
    }

    /// The role of a file from its lower-cased name and extension.
    pub fn from_lowered(name: &str, ext: &str) -> (r: SrcType)
        ensures
            r == role_of(name@, ext@),
    {
        if str_eq(name, "readme.md") {
            SrcType::ReadmeMarkdown
        } else if str_eq(name, "index.html") {
            SrcType::IndexHtml
        } else if str_ends_with(name, "_frame.html") {
            SrcType::FrameHtml
        } else if str_ends_with(name, "_frame.md") {
            SrcType::FrameMarkdown
        } else if str_eq(ext, "md") {
            SrcType::PageMarkdown
        } else if str_eq(ext, "html") {
            SrcType::PageHtml
        } else {
            SrcType::Other
        }
    }

    /// The role of a path, its name and extension compared without regard
    /// to case.
    pub fn from_path(path: &SitePath) -> (r: SrcType)
        ensures
            r == role_of_path(path@),
    {
        match path.file_name() {
            Some(name) => match extension(name) {
                Some(ext) => {
                    let lname = to_lower(name);
                    let lext = to_lower(ext.as_str());
                    SrcType::from_lowered(lname.as_str(), lext.as_str())
                },
                None => SrcType::Other,
            },
            None => SrcType::Other,
        }
    }

    /// Whether a file of this role is rendered to a page of its own.
    pub fn is_for_html_render(&self) -> (r: bool)
        ensures
            r == self.renders(),
    {
        match self {
            SrcType::IndexHtml => true,
            SrcType::ReadmeMarkdown => true,
            SrcType::PageMarkdown => true,
            SrcType::PageHtml => true,
            SrcType::FrameHtml => false,
            SrcType::FrameMarkdown => false,
            SrcType::Other => false,
        }
    }

    /// Whether a file of this role is a frame.
    pub fn is_frame(&self) -> (r: bool)
        ensures
            r == self.frame_role(),
    {
        match self {
            SrcType::FrameHtml | SrcType::FrameMarkdown => true,
            _ => false,
        }
    }

    /// Whether a file of this role holds markdown.
    pub fn is_markdown(&self) -> (r: bool)
        ensures
            r == self.markdown_role(),
    {
        match self {
            SrcType::FrameMarkdown | SrcType::PageMarkdown | SrcType::ReadmeMarkdown => true,
            _ => false,
        }
    }
}

} // verus!
