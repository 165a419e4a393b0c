use pandoc_book::assets::custom_asset_target;
use pandoc_book::assets::static_file_writes;
use pandoc_book::assets::style_reference_list;
use pandoc_book::book::BookItem;
use pandoc_book::book::Chapter;
use pandoc_book::book::MDBook;
use pandoc_book::book::Theme;
use pandoc_book::book::section_depth;
use pandoc_book::command::build_invocation;
use pandoc_book::command::converter_outcome;
use pandoc_book::errors::BuildError;
use pandoc_book::headings::normalize;
use pandoc_book::manifest::build_staging_plan;
use pandoc_book::pandoc::PandocRenderer;

fn chapter(name: &str, path: &str) -> Chapter {
    Chapter { name: name.to_string(), path: path.to_string() }
}

fn sample_theme() -> Theme {
    Theme {
        css: b"body".to_vec(),
        favicon: b"icon".to_vec(),
        highlight_css: b"hl".to_vec(),
        tomorrow_night_css: b"tn".to_vec(),
        ayu_highlight_css: b"ayu".to_vec(),
    }
}

fn sample_book() -> MDBook {
    MDBook {
        root: "/book".to_string(),
        source: "/book/src".to_string(),
        destination: "/out".to_string(),
        items: vec![
            BookItem::Affix(chapter("Intro", "intro.md")),
            BookItem::Chapter("1".to_string(), chapter("Getting Started", "ch1.md")),
            BookItem::Chapter("1.1".to_string(), chapter("Setup", "ch1_1.md")),
            BookItem::Spacer,
        ],
        additional_css: vec![],
        additional_js: vec![],
    }
}

#[test]
fn scenario_manifest_has_three_entries_in_order() {
    let book = sample_book();
    let plan = build_staging_plan(&book.items);
    assert_eq!(plan.len(), 3);
    assert_eq!(plan[0].source_rel, "intro.md");
    assert_eq!(plan[0].depth, 0);
    assert_eq!(plan[1].source_rel, "ch1.md");
    assert_eq!(plan[1].depth, 1);
    assert_eq!(plan[1].title, "Getting Started");
    assert_eq!(plan[2].source_rel, "ch1_1.md");
    assert_eq!(plan[2].depth, 2);
    assert_eq!(plan[2].title, "Setup");
}

#[test]
fn scenario_staged_copies_carry_synthesized_titles() {
    assert_eq!(normalize("intro body", 0, "Intro"), "intro body");
    let ch1 = normalize("ch1 body", 1, "Getting Started");
    assert_eq!(ch1.lines().next(), Some("# Getting Started"));
    let ch1_1 = normalize("setup body", 2, "Setup");
    assert_eq!(ch1_1.lines().next(), Some("## Setup"));
}

#[test]
fn spacers_and_empty_paths_produce_no_entries() {
    let items = vec![
        BookItem::Spacer,
        BookItem::Chapter("1".to_string(), chapter("Ghost", "")),
        BookItem::Affix(chapter("Nothing", "")),
    ];
    let plan = build_staging_plan(&items);
    assert!(plan.is_empty());
}

#[test]
fn builtin_styles_come_first_in_fixed_order() {
    let extra = vec!["custom.css".to_string(), "extra.css".to_string()];
    let refs = style_reference_list(&extra);
    assert_eq!(
        refs,
        vec![
            "book.css".to_string(),
            "highlight.css".to_string(),
            "tomorrow-night.css".to_string(),
            "ayu-highlight.css".to_string(),
            "custom.css".to_string(),
            "extra.css".to_string(),
        ]
    );
}

#[test]
fn style_references_without_additional_css() {
    let refs = style_reference_list(&vec![]);
    assert_eq!(refs.len(), 4);
    assert_eq!(refs[0], "book.css");
    assert_eq!(refs[3], "ayu-highlight.css");
}

#[test]
fn static_writes_cover_the_five_theme_assets() {
    let theme = sample_theme();
    let writes = static_file_writes(&theme);
    assert_eq!(writes.len(), 5);
    assert_eq!(writes[0].rel_path, "book.css");
    assert_eq!(writes[0].content, b"body".to_vec());
    assert_eq!(writes[1].rel_path, "favicon.png");
    assert_eq!(writes[1].content, b"icon".to_vec());
    assert_eq!(writes[4].rel_path, "ayu-highlight.css");
    assert_eq!(writes[4].content, b"ayu".to_vec());
}

#[test]
fn asset_under_root_keeps_relative_path() {
    assert_eq!(custom_asset_target("/book", "/book/css/x.css"), "css/x.css");
}

#[test]
fn asset_outside_root_uses_bare_file_name() {
    assert_eq!(custom_asset_target("/book", "/other/y.css"), "y.css");
    assert_eq!(custom_asset_target("/book", "plain.css"), "plain.css");
}

#[test]
fn section_depth_counts_segments() {
    assert_eq!(section_depth("1"), 1);
    assert_eq!(section_depth("1.2"), 2);
    assert_eq!(section_depth("1.2.3"), 3);
}

#[test]
fn invocation_lists_styles_flags_sources_and_target() {
    let styles = vec!["book.css".to_string()];
    let sources = vec!["ch1.md".to_string()];
    let argv = build_invocation("/out", "/stage", "html", &styles, &sources);
    assert_eq!(
        argv,
        vec![
            "pandoc".to_string(),
            "--css=/out/book.css".to_string(),
            "--standalone".to_string(),
            "--toc".to_string(),
            "--number-sections".to_string(),
            "--latex-engine=xelatex".to_string(),
            "/stage/ch1.md".to_string(),
            "-o".to_string(),
            "/out/book.html".to_string(),
        ]
    );
}

#[test]
fn full_plan_matches_scenario() {
    let book = sample_book();
    let theme = sample_theme();
    let renderer = PandocRenderer::new();
    let plan = renderer.plan(&book, &theme, "/stage");
    assert_eq!(plan.entries.len(), 3);
    assert_eq!(plan.style_refs.len(), 4);
    assert_eq!(
        plan.argv,
        vec![
            "pandoc".to_string(),
            "--css=/out/book.css".to_string(),
            "--css=/out/highlight.css".to_string(),
            "--css=/out/tomorrow-night.css".to_string(),
            "--css=/out/ayu-highlight.css".to_string(),
            "--standalone".to_string(),
            "--toc".to_string(),
            "--number-sections".to_string(),
            "--latex-engine=xelatex".to_string(),
            "/stage/intro.md".to_string(),
            "/stage/ch1.md".to_string(),
            "/stage/ch1_1.md".to_string(),
            "-o".to_string(),
            "/out/book.html".to_string(),
        ]
    );
}

#[test]
fn planning_twice_gives_identical_plans() {
    let book = sample_book();
    let theme = sample_theme();
    let renderer = PandocRenderer::new();
    let first = renderer.plan(&book, &theme, "/stage");
    let second = renderer.plan(&book, &theme, "/stage");
    assert_eq!(first.argv, second.argv);
    assert_eq!(first.entries, second.entries);
    assert_eq!(first.style_refs, second.style_refs);
    assert_eq!(first.static_writes, second.static_writes);
    assert_eq!(first.asset_copies, second.asset_copies);
}

#[test]
fn converter_failure_surfaces_stderr() {
    let r = converter_outcome(Some(1), String::new(), "file not found".to_string());
    match r {
        Err(e) => {
            assert!(matches!(e, BuildError::Converter(Some(1), _, _)));
            assert!(e.message().contains("file not found"));
        },
        Ok(()) => panic!("exit code 1 must fail the build"),
    }
}

#[test]
fn converter_exit_zero_succeeds() {
    let r = converter_outcome(Some(0), String::new(), String::new());
    assert!(r.is_ok());
}

#[test]
fn converter_without_exit_code_fails() {
    let r = converter_outcome(None, String::new(), "killed".to_string());
    assert!(matches!(r, Err(BuildError::Converter(None, _, _))));
}

#[test]
fn error_messages_name_their_cause() {
    assert_eq!(
        BuildError::Io("src/ch1.md".to_string()).message(),
        "input or output failed on src/ch1.md"
    );
    assert_eq!(BuildError::InvalidPath("..".to_string()).message(), "invalid path ..");
    assert_eq!(BuildError::Launch.message(), "could not launch external converter");
    assert_eq!(BuildError::Encoding.message(), "external converter output was not valid text");
}

#[test]
fn renderer_defaults_to_html_and_takes_a_format() {
    let mut renderer = PandocRenderer::new();
    assert_eq!(renderer.format, "html");
    renderer.set_format("epub");
    assert_eq!(renderer.format, "epub");
}

#[test]
fn additional_css_is_referenced_and_copied() {
    let mut book = sample_book();
    book.additional_css = vec!["/book/theme/site.css".to_string()];
    book.additional_js = vec!["/elsewhere/app.js".to_string()];
    let theme = sample_theme();
    let renderer = PandocRenderer::new();
    let plan = renderer.plan(&book, &theme, "/stage");
    assert_eq!(plan.style_refs.len(), 5);
    assert_eq!(plan.style_refs[4], "/book/theme/site.css");
    assert_eq!(plan.asset_copies.len(), 2);
    assert_eq!(plan.asset_copies[0].source, "/book/theme/site.css");
    assert_eq!(plan.asset_copies[0].target, "theme/site.css");
    assert_eq!(plan.asset_copies[1].source, "/elsewhere/app.js");
    assert_eq!(plan.asset_copies[1].target, "app.js");
}
