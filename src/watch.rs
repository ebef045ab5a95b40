//! The watch loop's decisions. Change notifications are not trusted for what
//! they say happened: each names a path, and what is done is decided from
//! whether that path exists now.

use vstd::prelude::*;
use crate::path::{SitePath, PathView};
use crate::processor::{FileProcessor, below, dist_path, map_dist_file};
use crate::role::{SrcType, role_of_path};
use crate::site::Site;

verus! {

/// A debounced change notification on the content tree.
#[derive(Debug)]
pub enum FsEvent {
    NoticeWrite(SitePath),
    NoticeRemove(SitePath),
    Create(SitePath),
    Write(SitePath),
    Chmod(SitePath),
    Remove(SitePath),
    Rename(SitePath, SitePath),
    Rescan,
    Error(Option<SitePath>),
}

/// What the loop does for one notification.
#[derive(Debug)]
pub enum WatchAction {
    /// Nothing.
    Ignore,
    /// Process this file: render or copy it if it exists, else remove its
    /// output.
    Process(FileProcessor),
    /// Process again every rendered file in this directory's subtree.
    RefreshTree(SitePath),
}

impl FsEvent {
    /// The path whose state decides what is done, if any.
    pub open spec fn watched_path(self) -> Option<PathView> {
        match self {
            FsEvent::NoticeWrite(p) | FsEvent::NoticeRemove(p) | FsEvent::Create(p)
            | FsEvent::Chmod(p) | FsEvent::Remove(p) => Some(p@),
            _ => None,
        }
    }

    /// The path to look at: that of a write notice, remove notice, creation,
    /// permission change or removal; none for a plain write (it follows a
    /// write notice), a rename, a rescan or an error.
    pub fn changed_path(&self) -> (r: Option<&SitePath>)
        ensures
            match self {
                FsEvent::NoticeWrite(p) | FsEvent::NoticeRemove(p) | FsEvent::Create(p)
                | FsEvent::Chmod(p) | FsEvent::Remove(p) => r == Some(p),
                _ => r is None,
            },
    {
        match self {
            FsEvent::NoticeWrite(p) => Some(p),
            FsEvent::NoticeRemove(p) => Some(p),
            FsEvent::Create(p) => Some(p),
            FsEvent::Write(_) => None,
            FsEvent::Chmod(p) => Some(p),
            FsEvent::Remove(p) => Some(p),
            FsEvent::Rename(_, _) => None,
            FsEvent::Rescan => None,
            FsEvent::Error(_) => None,
        }
    }
}

/// Whether `r` is the right action for a change at `src`, which now
/// exists when `present` (a regular file when `is_file`): ignore paths in the output
/// directory; for a frame, refresh its directory's subtree; else process the
/// file (its output removed when it is gone), unless it exists but is not a
/// regular file, or lies outside the content directory.
pub open spec fn answers(site: Site, src: PathView, present: bool, is_file: bool, r: WatchAction) -> bool {
    &&& src.starts_with(site.dist_dir@) ==> r is Ignore
    &&& !src.starts_with(site.dist_dir@) && role_of_path(src).frame_role() ==> (match r {
        WatchAction::RefreshTree(d) => src.parent() == Some(d@),
        WatchAction::Ignore => src.parent() is None,
        _ => false,
    })
    &&& !src.starts_with(site.dist_dir@) && !role_of_path(src).frame_role() ==> (match r {
        WatchAction::Process(fp) => {
            &&& fp.src_file@ == src
            &&& fp.src_type == role_of_path(src)
            &&& below(site.content_dir@, src) ==> fp.dist_file@ == dist_path(
                site.content_dir@,
                site.dist_dir@,
                role_of_path(src),
                src,
            )
            &&& present ==> is_file
        },
        WatchAction::Ignore => (present && !is_file) || !below(site.content_dir@, src),
        _ => false,
    })
}

/// What to do about a change at `src_file`, which now exists when `present` (and is a
/// regular file when `is_file`).
///
/// Paths in the output directory are ignored; a frame refreshes its
/// directory's subtree; a file that is gone has its output removed; a
/// regular file is processed; anything else is ignored.
pub fn handle_src_file_event(site: &Site, src_file: &SitePath, present: bool, is_file: bool) -> (r:
    WatchAction)
    ensures
        answers(*site, src_file@, present, is_file, r),
{
    if src_file.starts_with(&site.dist_dir) {
        return WatchAction::Ignore;
    }
    let src_type = SrcType::from_path(src_file);
    if src_type.is_frame() {
        return match src_file.parent() {
            Some(dir) => WatchAction::RefreshTree(dir),
            None => WatchAction::Ignore,
        };
    }
    if present && !is_file {
        return WatchAction::Ignore;
    }
    match map_dist_file(site, &src_type, src_file) {
        Some(dist_file) => WatchAction::Process(
            FileProcessor { src_file: src_file.duplicate(), src_type, dist_file },
        ),
        None => WatchAction::Ignore,
    }
}

/// What to do about a notification, given whether the path it names exists
/// now (and is a regular file).
pub fn handle_event(site: &Site, event: &FsEvent, present: bool, is_file: bool) -> (r: WatchAction)
    ensures
        match event {
            FsEvent::Write(_) | FsEvent::Rename(_, _) | FsEvent::Rescan | FsEvent::Error(_) => r is Ignore,
            _ => true,
        },
        event.watched_path() is None ==> r is Ignore,
        event.watched_path() matches Some(p) ==> answers(*site, p, present, is_file, r),
        event.watched_path() matches Some(p) && p.starts_with(site.dist_dir@) ==> r is Ignore,
{
    match event.changed_path() {
        Some(p) => handle_src_file_event(site, p, present, is_file),
        None => WatchAction::Ignore,
    }
}

/// During a subtree refresh: the processor of a file found in the subtree,
/// when it is a regular file that is rendered to a page.
pub fn refresh_processor(site: &Site, src_file: SitePath, is_file: bool) -> (r: Option<
    FileProcessor,
>)
    ensures
        r is Some ==> is_file && role_of_path(src_file@).renders(),
        is_file && role_of_path(src_file@).renders() && below(site.content_dir@, src_file@) ==> (r matches Some(fp)
            && fp.src_file@ == src_file@ && fp.dist_file@ == dist_path(
            site.content_dir@,
            site.dist_dir@,
            role_of_path(src_file@),
            src_file@,
        )),
{
    match FileProcessor::from_src_file(site, src_file, is_file) {
        Some(fp) => {
            if fp.is_for_html_render() {
                Some(fp)
            } else {
                None
            }
        },
        None => None,
    }
}

} // verus!
