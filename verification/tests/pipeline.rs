use takeoff::document::{Document, Metadata};
use takeoff::launchpad::{Mode, StaticAction, Templates};
use takeoff::markdown::render_markdown;
use takeoff::paths;
use takeoff::Launchpad;

fn document(path: &str, is_draft: bool) -> Document {
    let metadata = Metadata { is_draft, ..Metadata::default() };
    Document {
        content: String::new(),
        metadata,
        source_path: path.to_string(),
    }
}

#[test]
fn production_excludes_drafts_development_keeps_them() {
    let documents = || {
        vec![
            document("a.md", true),
            document("b.md", false),
            document("c.md", true),
        ]
    };

    let production = Launchpad::prepare().mode_production().build("/cwd");
    let kept = production.filter_documents(documents());
    assert_eq!(kept.len(), 1);
    assert_eq!(kept[0].source_path, "b.md");

    let development = Launchpad::prepare().mode_development().build("/cwd");
    let kept = development.filter_documents(documents());
    assert_eq!(kept.len(), 3);
    assert_eq!(kept[0].source_path, "a.md");
    assert_eq!(kept[1].source_path, "b.md");
    assert_eq!(kept[2].source_path, "c.md");
}

#[test]
fn destination_mirrors_the_source_tree() {
    let launchpad = Launchpad::prepare().source("docs").output("public").0;
    let doc = document("docs/sub/page.md", false);
    let destination = doc.create_destination(&launchpad).unwrap();
    assert_eq!(destination, "public/sub/page.html");
}

#[test]
fn destination_outside_the_source_root_is_an_error() {
    let launchpad = Launchpad::prepare().source("docs").output("public").0;
    let doc = document("elsewhere/page.md", false);
    assert!(doc.create_destination(&launchpad).is_err());
}

#[test]
fn png_files_are_copied_under_their_own_name() {
    let launchpad = Launchpad::prepare().compile_sass(false).output("public").0;
    let action = launchpad.static_action("img/", "logo.png");
    match action {
        StaticAction::Copy { destination } => assert_eq!(destination, "public/img/logo.png"),
        other => panic!("expected a copy, got {:?}", other),
    }
}

#[test]
fn sass_partials_are_skipped_entirely() {
    let launchpad = Launchpad::prepare().compile_sass(true).output("public").0;
    let action = launchpad.static_action("css/", "_vars.scss");
    assert!(matches!(action, StaticAction::Skip));
}

#[test]
fn sass_files_compile_to_a_css_destination() {
    let launchpad = Launchpad::prepare().compile_sass(true).output("public").0;
    let action = launchpad.static_action("css/", "style.scss");
    match action {
        StaticAction::CompileSass { destination } => {
            assert_eq!(destination, "public/css/style.css")
        },
        other => panic!("expected sass compilation, got {:?}", other),
    }
}

#[test]
fn sass_files_are_copied_when_compilation_is_off() {
    let launchpad = Launchpad::prepare().compile_sass(false).output("public").0;
    let action = launchpad.static_action("css/", "style.scss");
    match action {
        StaticAction::Copy { destination } => assert_eq!(destination, "public/css/style.scss"),
        other => panic!("expected a copy, got {:?}", other),
    }
}

#[test]
fn only_production_wipes_the_output_first() {
    assert!(Launchpad::prepare().mode_production().build("/c").clean_before_build());
    assert!(!Launchpad::prepare().mode_development().build("/c").clean_before_build());
    assert!(!Launchpad::prepare().mode(Mode::Development).build("/c").clean_before_build());
}

#[test]
fn documents_resolve_their_template_or_the_default() {
    let launchpad = Launchpad::prepare().templates_default("base.html").0;
    let mut doc = document("a.md", false);
    assert_eq!(launchpad.template_for(&doc), "base.html");
    doc.metadata.template = Some("custom.html".to_string());
    assert_eq!(launchpad.template_for(&doc), "custom.html");
}

#[test]
fn builder_defaults_match_the_documented_ones() {
    let launchpad = Launchpad::prepare().0;
    assert!(!launchpad.compile_sass);
    assert_eq!(launchpad.mode, Mode::Development);
    assert_eq!(launchpad.output, "public");
    assert_eq!(launchpad.source, "source");
    assert!(launchpad.statics.is_empty());
    assert_eq!(launchpad.templates.default, "base.html");
    assert_eq!(launchpad.templates.directory, "templates");
    assert_eq!(Templates::templates_default_default(), "base.html");
    assert_eq!(Templates::templates_directory_default(), "templates");
}

#[test]
fn build_resolves_roots_against_the_working_directory() {
    let launchpad = Launchpad::prepare()
        .compile_sass(true)
        .mode_production()
        .output("out")
        .source("docs")
        .statics(vec![("static/scss/*.scss", "css/"), ("assets/*.png", "img/")])
        .templates_default("document.html")
        .templates_directory("layouts")
        .build("/work");
    assert!(launchpad.compile_sass);
    assert_eq!(launchpad.mode, Mode::Production);
    assert_eq!(launchpad.output, "/work/out");
    assert_eq!(launchpad.source, "/work/docs");
    assert_eq!(launchpad.statics.len(), 2);
    assert_eq!(launchpad.statics[0].0, "static/scss/*.scss");
    assert_eq!(launchpad.statics[0].1, "css/");
    assert_eq!(launchpad.statics[1].0, "assets/*.png");
    assert_eq!(launchpad.statics[1].1, "img/");
    assert_eq!(launchpad.templates.default, "document.html");
    assert_eq!(launchpad.templates.directory, "layouts");
}

#[test]
fn absolute_roots_are_kept_as_given() {
    let launchpad = Launchpad::prepare().output("/abs/out").source("/abs/src").build("/work");
    assert_eq!(launchpad.output, "/abs/out");
    assert_eq!(launchpad.source, "/abs/src");
}

#[test]
fn templates_glob_lies_under_the_source_root() {
    let launchpad = Launchpad::prepare().source("site").build("/work");
    assert_eq!(launchpad.templates_glob(), "/work/site/templates/**/*.html");
}

#[test]
fn join_inserts_exactly_one_separator() {
    assert_eq!(paths::join("a", "b"), "a/b");
    assert_eq!(paths::join("a/", "b"), "a/b");
    assert_eq!(paths::join("a", "/abs"), "/abs");
    assert_eq!(paths::join("", "b"), "b");
}

#[test]
fn markdown_paths_are_recognized_by_extension() {
    assert!(paths::is_markdown_path("dir/page.md"));
    assert!(paths::is_markdown_path("a.b.md"));
    assert!(!paths::is_markdown_path("page.txt"));
    assert!(!paths::is_markdown_path("dir/.md"));
    assert!(!paths::is_markdown_path("x.md.bak"));
    assert!(!paths::is_markdown_path("noextension"));
}

#[test]
fn extension_swap_keeps_the_stem() {
    assert_eq!(paths::name_with_extension("style.scss", "css"), "style.css");
    assert_eq!(paths::name_with_extension("archive.tar.gz", "css"), "archive.tar.css");
    assert_eq!(paths::name_with_extension("noext", "css"), "noext.css");
}

#[test]
fn documents_are_parsed_and_rendered_in_one_step() {
    let raw = "<!-- Metadata\nis_draft = false\n-->\n# Title\n";
    let (doc, error) = Document::new("src/a.md".to_string(), raw);
    assert!(error.is_none());
    assert_eq!(doc.source_path, "src/a.md");
    assert!(!doc.metadata.is_draft);
    assert_eq!(doc.content, render_markdown("\n# Title\n"));
}

#[test]
fn documents_without_a_block_render_their_raw_text_as_drafts() {
    let raw = "# Hello\n\nSome *text*.\n";
    let (doc, error) = Document::new("src/c.md".to_string(), raw);
    assert!(error.is_none());
    assert_eq!(doc.content, render_markdown(raw));
    assert!(doc.metadata.is_draft);
}

#[test]
fn documents_with_bad_metadata_fall_back_to_defaults() {
    let raw = "<!-- Metadata\nbroken = = toml\n-->\nbody";
    let (doc, error) = Document::new("src/b.md".to_string(), raw);
    assert!(error.is_some());
    assert!(doc.metadata.is_draft);
    assert_eq!(doc.content, render_markdown("\nbody"));
}
