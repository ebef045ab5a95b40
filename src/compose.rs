//! Page composition: a page's own rendered text, wrapped by each frame of its
//! chain in turn, innermost first.
//!
//! Markdown arrives here already rendered to HTML (CommonMark, raw HTML let
//! through); what is done with that HTML is decided here.

use vstd::prelude::*;
use crate::role::SrcType;

verus! {

/// `t` with every occurrence of `p`, scanned from the left without overlap,
/// replaced by `w`.
pub open spec fn replaced(t: Seq<char>, p: Seq<char>, w: Seq<char>) -> Seq<char>
    decreases t.len(),
{
    if p.len() == 0 || t.len() < p.len() {
        t
    } else if t.subrange(0, p.len() as int) == p {
        w + replaced(t.subrange(p.len() as int, t.len() as int), p, w)
    } else {
        seq![t[0]] + replaced(t.subrange(1, t.len() as int), p, w)
    }
}

/// Relies on `aho_corasick::AhoCorasick::new` on the one pattern `pattern`
/// (standard match semantics) and its `replace_all`: each match, found left
/// to right without overlap, is replaced by `with`. Building the automaton
/// fails only for a pattern too long for its pattern or state identifiers,
/// far beyond the bound required here.
#[verifier::external_body]
fn replace_literal(text: &str, pattern: &str, with: &str) -> (r: String)
    requires
        0 < pattern@.len() <= 64,
    ensures
        r@ == replaced(text@, pattern@, with@),
{
    let ac = aho_corasick::AhoCorasick::new([pattern]).expect("a short pattern always builds");
    ac.replace_all(text, &[with])
}

/// The content-inclusion placeholder of frame files.
pub open spec fn placeholder() -> Seq<char> {
    "{{content}}"@
}

/// The placeholder as markdown renders it: alone in a paragraph.
pub open spec fn placeholder_paragraph() -> Seq<char> {
    "<p>{{content}}</p>"@
}

/// A frame's HTML ready for substitution: in a frame rendered from markdown,
/// a placeholder alone in a paragraph is unwrapped again.
pub open spec fn frame_html(role: SrcType, html: Seq<char>) -> Seq<char> {
    if role.markdown_role() {
        replaced(html, placeholder_paragraph(), placeholder())
    } else {
        html
    }
}

/// A frame of a chain: its role, and its text as HTML (rendered from
/// markdown for a markdown frame).
#[derive(Debug)]
pub struct FrameSource {
    pub role: SrcType,
    pub html: String,
}

/// `content` wrapped by each frame in turn, innermost first.
pub open spec fn wrapped(content: Seq<char>, frames: Seq<FrameSource>) -> Seq<char>
    decreases frames.len(),
{
    if frames.len() == 0 {
        content
    } else {
        replaced(
            frame_html(frames.last().role, frames.last().html@),
            placeholder(),
            wrapped(content, frames.drop_last()),
        )
    }
}

/// The final text of a page: none for a role that is not rendered, else its
/// HTML wrapped by its frames.
pub open spec fn composed(role: SrcType, html: Seq<char>, frames: Seq<FrameSource>) -> Option<
    Seq<char>,
> {
    if role.renders() {
        Some(wrapped(html, frames))
    } else {
        None
    }
}

/// A frame's HTML ready for substitution.
fn frame_to_html(frame: &FrameSource) -> (r: String)
    ensures
        r@ == frame_html(frame.role, frame.html@),
{
    if frame.role.is_markdown() {
        proof {
            reveal_strlit("<p>{{content}}</p>");
            reveal_strlit("{{content}}");
        }
        replace_literal(frame.html.as_str(), "<p>{{content}}</p>", "{{content}}")
    } else {
        frame.html.clone()
    }
}

/// Composes a page of role `role`, whose text as HTML is `html`, through its
/// frames: none for a role that is not rendered, else the page's HTML wrapped
/// by each frame in turn, innermost first (the page's own HTML when there are
/// no frames).
pub fn compose(role: SrcType, html: &str, frames: &Vec<FrameSource>) -> (r: Option<String>)
    ensures
        r is Some <==> role.renders(),
        r matches Some(page) ==> page@ == wrapped(html@, frames@),
{
    if !role.is_for_html_render() {
        return None;
    }
    let mut content = html.to_owned();
    let mut i: usize = 0;
    while i < frames.len()
        invariant
            i <= frames@.len(),
            content@ == wrapped(html@, frames@.subrange(0, i as int)),
        decreases frames@.len() - i,
    {
        let frame = frame_to_html(&frames[i]);
        proof {
            reveal_strlit("{{content}}");
        }
        let next = replace_literal(frame.as_str(), "{{content}}", content.as_str());
        assert(frames@.subrange(0, i + 1).drop_last() == frames@.subrange(0, i as int));
        content = next;
        i = i + 1;
    }
    assert(frames@.subrange(0, frames@.len() as int) == frames@);
    Some(content)
}

/// With no frames, composing a page gives exactly its own rendered text.
pub proof fn lemma_no_frames_is_rendered(role: SrcType, html: Seq<char>, frames: Seq<FrameSource>)
    requires
        role.renders(),
        frames.len() == 0,
    ensures
        composed(role, html, frames) == Some(html),
{
}

} // verus!
