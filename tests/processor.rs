use ssite::builder::{content_processors, stale_files};
use ssite::compose::{compose, FrameSource};
use ssite::frames::{is_doctype_line, FileFact, FileFacts};
use ssite::path::{rebase_path, SitePath};
use ssite::processor::{get_dist_file, output_for, parent_to_remove, FileProcessor, Output, ProcessPlan};
use ssite::role::SrcType;
use ssite::site::Site;
use ssite::watch::{handle_event, handle_src_file_event, refresh_processor, FsEvent, WatchAction};

const TESTS_DATA_DIR: &str = "/work/.tests-data/site-a";

fn site() -> Site {
    Site {
        root_dir: SitePath::parse(TESTS_DATA_DIR),
        content_dir: SitePath::parse(&format!("{TESTS_DATA_DIR}/content")),
        dist_dir: SitePath::parse(&format!("{TESTS_DATA_DIR}/_site")),
        runners: None,
    }
}

fn fact(site: &Site, rel: &str, doctype: bool) -> FileFact {
    FileFact { path: site.content_dir().join(&SitePath::parse(rel)), doctype }
}

/// The files of the test site's content tree, and which are complete documents.
fn site_a_facts(site: &Site) -> FileFacts {
    FileFacts {
        files: vec![
            fact(site, "_frame.html", true),
            fact(site, "hello.md", false),
            fact(site, "hello2.html", false),
            fact(site, "full.html", true),
            fact(site, "sub-frame/_frame.html", false),
            fact(site, "sub-frame/content-1.html", false),
            fact(site, "sub-frame/content-2.md", false),
            fact(site, "sub-frame/content-2_frame.md", false),
            fact(site, "sub-frame/full-content.html", true),
            fact(site, "sub-dir/index.html", false),
            fact(site, "sub-dir/full-other-content.html", true),
            fact(site, "sub-dir/content.html", false),
            fact(site, "sub-dir/content_frame.html", false),
        ],
    }
}

const CONTENT_WITH_FRAMES_COUNT: &[(&str, usize); 9] = &[
    ("sub-frame/content-1.html", 2),
    ("sub-frame/content-2.md", 3),
    ("sub-frame/full-content.html", 0),
    ("sub-dir/index.html", 1),
    ("sub-dir/full-other-content.html", 0),
    ("sub-dir/content.html", 2),
    ("hello.md", 1),
    ("hello2.html", 1),
    ("full.html", 0),
];

#[test]
fn test_processor_get_frames_count() {
    for (path, count) in CONTENT_WITH_FRAMES_COUNT {
        let site = site();
        let facts = site_a_facts(&site);
        let src = site.content_dir().join(&SitePath::parse(path));
        let fp = FileProcessor::from_src_file(&site, src, true).unwrap();

        let frames = fp.get_frames(&site, &facts);

        assert_eq!(frames.len(), *count, "{path}");
    }
}

#[test]
fn nested_frames_compose_in_order() {
    let site = site();
    let facts = site_a_facts(&site);
    let src = site.content_dir().join(&SitePath::parse("sub-frame/content-2.md"));
    let fp = FileProcessor::from_src_file(&site, src, true).unwrap();
    let frames = fp.get_frames(&site, &facts);
    let names: Vec<String> = frames.iter().map(|f| f.to_text()).collect();
    assert_eq!(
        vec![
            format!("{TESTS_DATA_DIR}/content/sub-frame/content-2_frame.md"),
            format!("{TESTS_DATA_DIR}/content/sub-frame/_frame.html"),
            format!("{TESTS_DATA_DIR}/content/_frame.html"),
        ],
        names
    );

    let sources = vec![
        FrameSource {
            role: SrcType::from_path(&frames[0]),
            html: "<p>Wrapped from content-2_frame.md</p>\n<p>{{content}}</p>\n".to_string(),
        },
        FrameSource {
            role: SrcType::from_path(&frames[1]),
            html: "<section>Wrapped from sub-frame/_frame.html\n{{content}}</section>".to_string(),
        },
        FrameSource {
            role: SrcType::from_path(&frames[2]),
            html: "<!DOCTYPE html>\n<body>Wrapped from root _frame.html\n{{content}}</body>"
                .to_string(),
        },
    ];
    let content = fp.render_content("<p>from sub-frame/content-2.md</p>\n", &sources).unwrap();

    assert!(content.contains("Wrapped from root _frame.html"));
    assert!(content.contains("Wrapped from sub-frame/_frame.html"));
    assert!(content.contains("Wrapped from content-2_frame.md"));
    assert!(content.contains("<p>from sub-frame/content-2.md</p>"));
    let root = content.find("Wrapped from root").unwrap();
    let sub = content.find("Wrapped from sub-frame").unwrap();
    let page = content.find("Wrapped from content-2_frame").unwrap();
    let own = content.find("<p>from sub-frame").unwrap();
    assert!(root < sub && sub < page && page < own);
    assert!(!content.contains("<p><p>"));
    assert!(!content.contains("{{content}}"));
}

#[test]
fn doctype_page_has_no_frames_whatever_surrounds_it() {
    let site = site();
    let facts = site_a_facts(&site);
    let src = site.content_dir().join(&SitePath::parse("full.html"));
    assert_eq!(0, facts.resolve(site.content_dir(), &src).len());
}

#[test]
fn doctype_line_is_trimmed() {
    assert!(is_doctype_line("<!DOCTYPE html>"));
    assert!(is_doctype_line("  <!DOCTYPE html>\r"));
    assert!(!is_doctype_line("<!doctype html>"));
    assert!(!is_doctype_line("<html>"));
}

#[test]
fn doctype_directory_frame_ends_the_walk() {
    let site = site();
    let facts = FileFacts {
        files: vec![
            fact(&site, "_frame.html", false),
            fact(&site, "a/_frame.md", true),
            fact(&site, "a/b/_frame.html", false),
        ],
    };
    let src = site.content_dir().join(&SitePath::parse("a/b/page.md"));
    let chain: Vec<String> = facts.resolve(site.content_dir(), &src).iter().map(|f| f.to_text()).collect();
    assert_eq!(
        vec![
            format!("{TESTS_DATA_DIR}/content/a/b/_frame.html"),
            format!("{TESTS_DATA_DIR}/content/a/_frame.md"),
        ],
        chain
    );
}

#[test]
fn html_page_frame_wins_over_markdown_one() {
    let site = site();
    let facts = FileFacts {
        files: vec![fact(&site, "p_frame.md", false), fact(&site, "p_frame.html", false)],
    };
    let src = site.content_dir().join(&SitePath::parse("p.html"));
    let chain = facts.resolve(site.content_dir(), &src);
    assert_eq!(1, chain.len());
    assert_eq!(format!("{TESTS_DATA_DIR}/content/p_frame.html"), chain[0].to_text());
}

#[test]
fn empty_chain_gives_own_content() {
    let page = "<p>hello</p>\n";
    assert_eq!(Some(page.to_string()), compose(SrcType::PageMarkdown, page, &vec![]));
    assert_eq!(None, compose(SrcType::Other, page, &vec![]));
    assert_eq!(None, compose(SrcType::FrameHtml, page, &vec![]));
}

#[test]
fn placeholder_replaced_everywhere_and_html_frames_kept() {
    let frames = vec![FrameSource {
        role: SrcType::PageHtml,
        html: "<p>{{content}}</p>|{{content}}".to_string(),
    }];
    assert_eq!(Some("<p>X</p>|X".to_string()), compose(SrcType::IndexHtml, "X", &frames));
}

#[test]
fn readme_maps_to_index_html() {
    let site = site();
    let src = site.content_dir().join(&SitePath::parse("docs/README.md"));
    let r = get_dist_file(&site, &SrcType::from_path(&src), &src, true).unwrap();
    assert_eq!(format!("{TESTS_DATA_DIR}/_site/docs/index.html"), r.to_text());
}

#[test]
fn pages_lose_their_extension_others_keep_names() {
    let site = site();
    for (rel, out) in [
        ("a/page.md", "a/page"),
        ("a/page.HTML", "a/page"),
        ("index.html", "index.html"),
        ("img/logo.png", "img/logo.png"),
        ("Makefile", "Makefile"),
    ] {
        let src = site.content_dir().join(&SitePath::parse(rel));
        let r = get_dist_file(&site, &SrcType::from_path(&src), &src, true).unwrap();
        assert_eq!(format!("{TESTS_DATA_DIR}/_site/{out}"), r.to_text(), "{rel}");
    }
}

#[test]
fn frames_and_missing_files_have_no_output() {
    let site = site();
    let frame = site.content_dir().join(&SitePath::parse("a/_frame.html"));
    assert!(get_dist_file(&site, &SrcType::from_path(&frame), &frame, true).is_none());
    let page = site.content_dir().join(&SitePath::parse("a/x.md"));
    assert!(get_dist_file(&site, &SrcType::from_path(&page), &page, false).is_none());
    assert!(FileProcessor::from_src_file(&site, frame, true).is_none());
}

#[test]
fn classification_rules() {
    let role = |s: &str| SrcType::from_path(&SitePath::parse(s));
    assert_eq!(SrcType::ReadmeMarkdown, role("/c/README.md"));
    assert_eq!(SrcType::ReadmeMarkdown, role("/c/ReadMe.MD"));
    assert_eq!(SrcType::IndexHtml, role("/c/Index.html"));
    assert_eq!(SrcType::FrameHtml, role("/c/_frame.html"));
    assert_eq!(SrcType::FrameHtml, role("/c/page_FRAME.html"));
    assert_eq!(SrcType::FrameMarkdown, role("/c/page_frame.md"));
    assert_eq!(SrcType::PageMarkdown, role("/c/notes.Md"));
    assert_eq!(SrcType::PageHtml, role("/c/about.html"));
    assert_eq!(SrcType::Other, role("/c/logo.png"));
    assert_eq!(SrcType::Other, role("/c/.md"));
    assert_eq!(SrcType::Other, role("/c/LICENSE"));
    assert_eq!(SrcType::from_lowered("readme.md", "md"), SrcType::ReadmeMarkdown);
    assert_eq!(SrcType::from_lowered("readme.MD", "md"), SrcType::PageMarkdown);
}

#[test]
fn other_files_are_copied_unchanged() {
    let site = site();
    let src = site.content_dir().join(&SitePath::parse("img/logo.png"));
    let fp = FileProcessor::from_src_file(&site, src, true).unwrap();
    assert!(!fp.is_for_html_render());
    let rendered = fp.render_content("\u{89}PNG bytes", &vec![]);
    assert_eq!(None, rendered);
    assert!(matches!(output_for(rendered), Output::Copy));
    assert!(matches!(fp.plan(true), ProcessPlan::Render(_)));
}

#[test]
fn test_rebase_path() {
    let src_base_dir = SitePath::parse("/src_base_dir");
    let src_file = src_base_dir.join(&SitePath::parse("some/file.txt"));
    let dst_base_dir = SitePath::parse("dest_dir/");

    let dst_file = rebase_path(&src_base_dir, &src_file, &dst_base_dir);

    assert_eq!(Some(SitePath::parse("dest_dir/some/file.txt")), dst_file);
}

#[test]
fn root_relative_paths() {
    let site = site();
    let src = site.content_dir().join(&SitePath::parse("a/b.md"));
    let fp = FileProcessor::from_src_file(&site, src, true).unwrap();
    assert_eq!("content/a/b.md", fp.root_rel_src_file(&site).unwrap().to_text());
    assert_eq!("_site/a/b", fp.root_rel_dist_file(&site).unwrap().to_text());
}

#[test]
fn second_build_finds_nothing_stale() {
    let site = site();
    let files: Vec<SitePath> = ["a.md", "b/_frame.html", "b/c.html", "img/x.png", "ssite.toml"]
        .iter()
        .map(|r| site.content_dir().join(&SitePath::parse(r)))
        .collect();
    let leftover = site.dist_dir().join(&SitePath::parse("old/page"));
    let procs = content_processors(&site, &files);
    let produced: Vec<SitePath> = procs.iter().map(|p| p.dist_file.duplicate()).collect();
    assert_eq!(3, produced.len());

    let mut found1: Vec<SitePath> = produced.iter().map(|p| p.duplicate()).collect();
    found1.push(leftover.duplicate());
    let stale1 = stale_files(&found1, &produced);
    assert_eq!(vec![leftover], stale1);

    let found2: Vec<SitePath> = produced.iter().map(|p| p.duplicate()).collect();
    let procs2 = content_processors(&site, &files);
    let produced2: Vec<SitePath> = procs2.iter().map(|p| p.dist_file.duplicate()).collect();
    assert_eq!(produced, produced2);
    assert!(stale_files(&found2, &produced2).is_empty());
}

#[test]
fn removed_source_output_becomes_stale() {
    let site = site();
    let mut files: Vec<SitePath> = ["a.md", "sub/b.md"]
        .iter()
        .map(|r| site.content_dir().join(&SitePath::parse(r)))
        .collect();
    let produced: Vec<SitePath> =
        content_processors(&site, &files).iter().map(|p| p.dist_file.duplicate()).collect();
    files.pop();
    let produced2: Vec<SitePath> =
        content_processors(&site, &files).iter().map(|p| p.dist_file.duplicate()).collect();
    let stale = stale_files(&produced, &produced2);
    assert_eq!(1, stale.len());
    assert_eq!(format!("{TESTS_DATA_DIR}/_site/sub/b"), stale[0].to_text());

    let parent = parent_to_remove(&stale[0], true, 0).unwrap();
    assert_eq!(format!("{TESTS_DATA_DIR}/_site/sub"), parent.to_text());
    assert!(parent_to_remove(&stale[0], true, 2).is_none());
    assert!(parent_to_remove(&stale[0], false, 0).is_none());
}

#[test]
fn gone_source_removes_its_output() {
    let site = site();
    let src = site.content_dir().join(&SitePath::parse("a/x.md"));
    match handle_src_file_event(&site, &src, false, false) {
        WatchAction::Process(fp) => match fp.plan(false) {
            ProcessPlan::RemoveOutput(f) => {
                assert_eq!(format!("{TESTS_DATA_DIR}/_site/a/x"), f.to_text())
            }
            other => panic!("unexpected plan {other:?}"),
        },
        other => panic!("unexpected action {other:?}"),
    }
    let fp = FileProcessor::from_src_file(&site, src, true).unwrap();
    assert!(fp.produced(false).is_none());
    assert_eq!(Some(fp.dist_file.duplicate()), fp.produced(true));
}

#[test]
fn watch_decisions() {
    let site = site();
    let out = site.dist_dir().join(&SitePath::parse("a/x"));
    assert!(matches!(handle_src_file_event(&site, &out, true, true), WatchAction::Ignore));

    let frame = site.content_dir().join(&SitePath::parse("a/_frame.html"));
    match handle_src_file_event(&site, &frame, true, true) {
        WatchAction::RefreshTree(d) => assert_eq!(format!("{TESTS_DATA_DIR}/content/a"), d.to_text()),
        other => panic!("unexpected action {other:?}"),
    }

    let dir = site.content_dir().join(&SitePath::parse("a"));
    assert!(matches!(handle_src_file_event(&site, &dir, true, false), WatchAction::Ignore));

    let page = site.content_dir().join(&SitePath::parse("a/y.html"));
    assert!(matches!(
        handle_event(&site, &FsEvent::Write(page.duplicate()), true, true),
        WatchAction::Ignore
    ));
    assert!(matches!(handle_event(&site, &FsEvent::Rescan, true, true), WatchAction::Ignore));
    assert!(matches!(
        handle_event(&site, &FsEvent::Rename(page.duplicate(), dir.duplicate()), true, true),
        WatchAction::Ignore
    ));
    match handle_event(&site, &FsEvent::Create(page.duplicate()), true, true) {
        WatchAction::Process(fp) => assert_eq!(format!("{TESTS_DATA_DIR}/_site/a/y"), fp.dist_file.to_text()),
        other => panic!("unexpected action {other:?}"),
    }

    let png = site.content_dir().join(&SitePath::parse("a/z.png"));
    assert!(refresh_processor(&site, png, true).is_none());
    assert!(refresh_processor(&site, page, true).is_some());
}

#[test]
fn content_paths_exclude_output_and_settings() {
    let site = site();
    assert!(site.valid_content_path(&site.content_dir().join(&SitePath::parse("a.md"))));
    assert!(!site.valid_content_path(&site.dist_dir().join(&SitePath::parse("a"))));
    assert!(!site.valid_content_path(&site.root_dir().join(&SitePath::parse("ssite.toml"))));
}

#[test]
fn path_text_round_trip() {
    let p = SitePath::parse("/a//b/./c.md/");
    assert_eq!("/a/b/c.md", p.to_text());
    assert_eq!(Some("c.md"), p.file_name());
    assert_eq!("/a/b", p.parent().unwrap().to_text());
    assert_eq!("", SitePath::parse("").to_text());
    assert_eq!("/", SitePath::parse("/").to_text());
}

#[test]
fn missing_directory_is_reported() {
    let p = SitePath::parse("/no/such/dir");
    assert_eq!(
        Err(ssite::error::Error::SiteDirMissing("/no/such/dir".to_string())),
        ssite::site::assert_valid_dir(&p, false, false)
    );
    assert_eq!(
        Err(ssite::error::Error::SiteDirMissing("/no/such/dir".to_string())),
        ssite::site::assert_valid_dir(&p, true, false)
    );
    assert_eq!(Ok(()), ssite::site::assert_valid_dir(&p, true, true));
}

#[test]
fn markdown_frame_paragraph_unwrapped_html_frame_kept() {
    let md = vec![FrameSource {
        role: SrcType::FrameMarkdown,
        html: "<p>{{content}}</p>\n".to_string(),
    }];
    assert_eq!(Some("A\n".to_string()), compose(SrcType::PageHtml, "A", &md));
    let html = vec![FrameSource { role: SrcType::FrameHtml, html: "<p>{{content}}</p>".to_string() }];
    assert_eq!(Some("<p>A</p>".to_string()), compose(SrcType::PageHtml, "A", &html));
}

#[test]
fn substitution_is_single_pass() {
    let frames = vec![FrameSource { role: SrcType::FrameHtml, html: "[{{content}}]".to_string() }];
    assert_eq!(
        Some("[x {{content}} y]".to_string()),
        compose(SrcType::PageHtml, "x {{content}} y", &frames)
    );
}

#[test]
fn readme_is_markdown() {
    assert!(SrcType::ReadmeMarkdown.is_markdown());
    assert!(SrcType::PageMarkdown.is_markdown());
    assert!(SrcType::FrameMarkdown.is_markdown());
    assert!(!SrcType::PageHtml.is_markdown());
}
