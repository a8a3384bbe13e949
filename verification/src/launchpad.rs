//! The site configuration and the verified build-pipeline decisions.

use vstd::prelude::*;

use crate::document::Document;
use crate::paths;
use crate::text;

verus! {

/// The mode a site is built in.
///
/// * `Development` keeps every document.
/// * `Production` keeps only documents with `is_draft = false` and wipes the
///   output root before anything is written.
///
/// Defaults to `Development`.
#[derive(Clone, Copy, Debug, PartialEq, Eq, Structural)]
pub enum Mode {
    Development,
    Production,
}

/// Templating settings for a `Launchpad`.
#[derive(Debug)]
pub struct Templates {
    /// The template used when a document does not name one.
    ///
    /// Relative to `Templates::directory`. Defaults to `"base.html"`.
    pub default: String,
    /// The directory the templating engine looks in for templates.
    ///
    /// Relative to `Launchpad::source`. Defaults to `"templates"`.
    pub directory: String,
}

impl Templates {
    pub fn templates_default_default() -> (r: String)
        ensures
            r@ == "base.html"@,
    {
        "base.html".to_owned()
    }

    pub fn templates_directory_default() -> (r: String)
        ensures
            r@ == "templates"@,
    {
        "templates".to_owned()
    }
}

impl Default for Templates {
    fn default() -> (r: Self)
        ensures
            r.default@ == "base.html"@,
            r.directory@ == "templates"@,
    {
        Templates {
            default: Templates::templates_default_default(),
            directory: Templates::templates_directory_default(),
        }
    }
}

/// The entry point: one invocation's full site configuration.
#[derive(Debug)]
pub struct Launchpad {
    /// When true, `.scss` files matched by `statics` are compiled to CSS, and
    /// Sass partials (names starting with an underscore) are skipped.
    ///
    /// Defaults to `false`.
    pub compile_sass: bool,
    /// The build mode. Defaults to `Mode::Development`.
    pub mode: Mode,
    /// The root directory the site files are written to.
    ///
    /// Defaults to `"public"`.
    pub output: String,
    /// The root directory holding the Markdown and static files.
    ///
    /// Defaults to `"source"`.
    pub source: String,
    /// Static files to copy or process, in order: a glob relative to
    /// `source`, and a destination directory relative to `output`.
    pub statics: Vec<(String, String)>,
    /// Templating settings.
    pub templates: Templates,
}

/// Whether the launchpad keeps a parsed document: production drops drafts.
pub open spec fn spec_keeps(lp: Launchpad, d: Document) -> bool {
    !(lp.mode == Mode::Production && d.metadata.is_draft)
}

/// The documents the launchpad keeps, in order.
pub open spec fn spec_kept_documents(lp: Launchpad, documents: Seq<Document>) -> Seq<Document> {
    documents.filter(|d: Document| spec_keeps(lp, d))
}

/// The template name a document resolves to: its own, or the default.
pub open spec fn spec_template_for(lp: Launchpad, d: Document) -> Seq<char> {
    match d.metadata.template {
        Some(t) => t@,
        None => lp.templates.default@,
    }
}

/// What the pipeline does with one file matched by a static glob.
#[derive(Debug)]
pub enum StaticAction {
    /// A Sass partial: neither copied nor compiled.
    Skip,
    /// Compile as Sass and write the CSS to `destination`.
    CompileSass { destination: String },
    /// Copy the file unchanged to `destination`.
    Copy { destination: String },
}

/// Mathematical view of a `StaticAction`.
pub enum StaticActionView {
    Skip,
    CompileSass { destination: Seq<char> },
    Copy { destination: Seq<char> },
}

impl View for StaticAction {
    type V = StaticActionView;

    open spec fn view(&self) -> StaticActionView {
        match self {
            StaticAction::Skip => StaticActionView::Skip,
            StaticAction::CompileSass { destination } => StaticActionView::CompileSass {
                destination: destination@,
            },
            StaticAction::Copy { destination } => StaticActionView::Copy {
                destination: destination@,
            },
        }
    }
}

/// The decision for a file named `name`, matched by a static glob mapped to
/// `dest_dir`, under output root `output` with Sass compilation `sass`.
pub open spec fn spec_static_action(
    output: Seq<char>,
    sass: bool,
    dest_dir: Seq<char>,
    name: Seq<char>,
) -> StaticActionView {
    let dir = paths::spec_join(output, dest_dir);
    if sass && ".scss"@.len() <= name.len() && text::occurs_at(
        name,
        ".scss"@,
        name.len() - ".scss"@.len(),
    ) {
        if name.len() > 0 && name[0] == '_' {
            StaticActionView::Skip
        } else {
            StaticActionView::CompileSass {
                destination: paths::spec_join(dir, paths::spec_name_with_extension(name, "css"@)),
            }
        }
    } else {
        StaticActionView::Copy { destination: paths::spec_join(dir, name) }
    }
}

impl Launchpad {
    /// Creates a new `LaunchpadBuilder`.
    pub fn prepare() -> (r: LaunchpadBuilder)
        ensures
            r.0.compile_sass == false,
            r.0.mode == Mode::Development,
            r.0.output@ == "public"@,
            r.0.source@ == "source"@,
            r.0.statics@ =~= Seq::<(String, String)>::empty(),
            r.0.templates.default@ == "base.html"@,
            r.0.templates.directory@ == "templates"@,
    {
        LaunchpadBuilder::default()
    }

    /// Whether the output root must be wiped before anything is written:
    /// exactly in production mode.
    pub fn clean_before_build(&self) -> (r: bool)
        ensures
            r == (self.mode == Mode::Production),
    {
        self.mode == Mode::Production
    }

    /// Drops every draft in production mode; keeps everything in development.
    pub fn filter_documents(&self, documents: Vec<Document>) -> (r: Vec<Document>)
        ensures
            r@ == spec_kept_documents(*self, documents@),
    {
        let ghost all = documents@;
        let ghost pred = |d: Document| spec_keeps(*self, d);
        let mut rest = documents;
        let mut kept: Vec<Document> = Vec::new();
        let ghost mut i: int = 0;
        proof {
            assert(all.take(0).filter(pred) =~= Seq::<Document>::empty());
        }
        while rest.len() > 0
            invariant
                0 <= i,
                i + rest@.len() == all.len(),
                rest@ =~= all.subrange(i, all.len() as int),
                kept@ == all.take(i).filter(pred),
                pred == (|d: Document| spec_keeps(*self, d)),
            decreases rest@.len(),
        {
            let d = rest.remove(0);
            proof {
                assert(d == all[i]);
                assert(rest@ =~= all.subrange(i + 1, all.len() as int));
                all.take(i).lemma_filter_push(d, pred);
                assert(all.take(i).push(d) =~= all.take(i + 1));
            }
            let keep = !(self.mode == Mode::Production && d.metadata.is_draft);
            if keep {
                kept.push(d);
            }
            proof {
                i = i + 1;
            }
        }
        proof {
            assert(all.take(all.len() as int) =~= all);
        }
        kept
    }

    /// The template a document is rendered with: the one its metadata names,
    /// or the configured default.
    pub fn template_for<'a>(&'a self, document: &'a Document) -> (r: &'a String)
        ensures
            r@ == spec_template_for(*self, *document),
    {
        match &document.metadata.template {
            Some(template) => template,
            None => &self.templates.default,
        }
    }

    /// The glob the templating engine loads its template files from: every
    /// `.html` file under the templates directory, itself under the source
    /// root.
    pub fn templates_glob(&self) -> (r: String)
        ensures
            r@ == spec_templates_glob(*self),
    {
        let dir = paths::join(self.source.as_str(), self.templates.directory.as_str());
        let dir_len = dir.as_str().unicode_len();
        let mut r = dir;
        if dir_len == 0 || r.as_str().get_char(dir_len - 1) != '/' {
            r.append("/");
        }
        r.append("**/*.html");
        r
    }

    /// The decision for one file matched by a static glob: Sass partials are
    /// skipped, Sass files are compiled to a `.css` destination, everything
    /// else is copied under its own name.
    pub fn static_action(&self, dest_dir: &str, file_name: &str) -> (r: StaticAction)
        ensures
            r@ == spec_static_action(self.output@, self.compile_sass, dest_dir@, file_name@),
    {
        let dir = paths::join(self.output.as_str(), dest_dir);
        if self.compile_sass && text::ends_with(file_name, ".scss") {
            let name_len = file_name.unicode_len();
            if name_len > 0 && file_name.get_char(0) == '_' {
                StaticAction::Skip
            } else {
                let css_name = paths::name_with_extension(file_name, "css");
                StaticAction::CompileSass {
                    destination: paths::join(dir.as_str(), css_name.as_str()),
                }
            }
        } else {
            StaticAction::Copy { destination: paths::join(dir.as_str(), file_name) }
        }
    }
}

/// The glob `Launchpad::templates_glob` resolves to.
pub open spec fn spec_templates_glob(lp: Launchpad) -> Seq<char> {
    let dir = paths::spec_join(lp.source@, lp.templates.directory@);
    if dir.len() > 0 && dir[dir.len() - 1] == '/' {
        dir + "**/*.html"@
    } else {
        dir + "/"@ + "**/*.html"@
    }
}

/// Production mode excludes exactly the documents whose `is_draft` resolves
/// to true: nothing kept is a draft, and every non-draft is kept.
/// Development mode keeps every document, in order.
pub proof fn lemma_mode_filtering(lp: Launchpad, documents: Seq<Document>)
    ensures
        lp.mode == Mode::Development ==> spec_kept_documents(lp, documents) == documents,
        lp.mode == Mode::Production ==> forall|i: int|
            0 <= i < spec_kept_documents(lp, documents).len() ==> !(#[trigger] spec_kept_documents(
                lp,
                documents,
            )[i]).metadata.is_draft,
        forall|i: int|
            0 <= i < documents.len() && spec_keeps(lp, #[trigger] documents[i])
                ==> spec_kept_documents(lp, documents).contains(documents[i]),
    decreases documents.len(),
{
    let pred = |d: Document| spec_keeps(lp, d);
    let filtered = documents.filter(pred);
    assert forall|i: int| 0 <= i < filtered.len() implies pred(filtered[i]) by {
        documents.lemma_filter_pred(pred, i);
    }
    assert forall|i: int|
        0 <= i < documents.len() && spec_keeps(lp, documents[i]) implies filtered.contains(
        documents[i],
    ) by {
        documents.lemma_filter_contains(pred, i);
    }
    if lp.mode == Mode::Development {
        if documents.len() == 0 {
            reveal(Seq::filter);
            assert(documents.filter(pred) =~= documents);
        } else {
            lemma_mode_filtering(lp, documents.drop_last());
            documents.drop_last().lemma_filter_push(documents.last(), pred);
            assert(documents.drop_last().push(documents.last()) =~= documents);
            assert(documents.drop_last().filter(pred).push(documents.last()) =~= documents);
        }
    }
}

/// A builder to configure a `Launchpad`. The field is public so that the
/// builder's contracts can speak of the configuration it carries.
#[derive(Debug)]
pub struct LaunchpadBuilder(pub Launchpad);

impl Default for LaunchpadBuilder {
    fn default() -> (r: Self)
        ensures
            r.0.compile_sass == false,
            r.0.mode == Mode::Development,
            r.0.output@ == "public"@,
            r.0.source@ == "source"@,
            r.0.statics@ =~= Seq::<(String, String)>::empty(),
            r.0.templates.default@ == "base.html"@,
            r.0.templates.directory@ == "templates"@,
    {
        LaunchpadBuilder(
            Launchpad {
                compile_sass: false,
                mode: Mode::Development,
                output: "public".to_owned(),
                source: "source".to_owned(),
                statics: Vec::new(),
                templates: Templates::default(),
            },
        )
    }
}

impl LaunchpadBuilder {
    /// Set `Launchpad::compile_sass`.
    pub fn compile_sass(self, compile_sass: bool) -> (r: Self)
        ensures
            r.0 == (Launchpad { compile_sass, ..self.0 }),
    {
        Self(Launchpad { compile_sass, ..self.0 })
    }

    /// Set `Launchpad::mode`.
    pub fn mode(self, mode: Mode) -> (r: Self)
        ensures
            r.0 == (Launchpad { mode, ..self.0 }),
    {
        Self(Launchpad { mode, ..self.0 })
    }

    /// Set the mode to `Mode::Development`.
    pub fn mode_development(self) -> (r: Self)
        ensures
            r.0 == (Launchpad { mode: Mode::Development, ..self.0 }),
    {
        self.mode(Mode::Development)
    }

    /// Set the mode to `Mode::Production`.
    pub fn mode_production(self) -> (r: Self)
        ensures
            r.0 == (Launchpad { mode: Mode::Production, ..self.0 }),
    {
        self.mode(Mode::Production)
    }

    /// Set `Launchpad::output`.
    pub fn output(self, output: &str) -> (r: Self)
        ensures
            r.0.output@ == output@,
            r.0 == (Launchpad { output: r.0.output, ..self.0 }),
    {
        Self(Launchpad { output: output.to_owned(), ..self.0 })
    }

    /// Set `Launchpad::source`.
    pub fn source(self, source: &str) -> (r: Self)
        ensures
            r.0.source@ == source@,
            r.0 == (Launchpad { source: r.0.source, ..self.0 }),
    {
        Self(Launchpad { source: source.to_owned(), ..self.0 })
    }

    /// Set `Launchpad::statics`.
    pub fn statics(self, statics: Vec<(&str, &str)>) -> (r: Self)
        ensures
            r.0.statics@.len() == statics@.len(),
            forall|i: int|
                0 <= i < statics@.len() ==> r.0.statics@[i].0@ == statics@[i].0@
                    && r.0.statics@[i].1@ == statics@[i].1@,
            r.0 == (Launchpad { statics: r.0.statics, ..self.0 }),
    {
        let mut owned: Vec<(String, String)> = Vec::new();
        let mut k: usize = 0;
        while k < statics.len()
            invariant
                k <= statics@.len(),
                owned@.len() == k,
                forall|i: int|
                    0 <= i < k ==> owned@[i].0@ == statics@[i].0@ && owned@[i].1@
                        == statics@[i].1@,
            decreases statics@.len() - k,
        {
            let (g, d) = statics[k];
            owned.push((g.to_owned(), d.to_owned()));
            k += 1;
        }
        Self(Launchpad { statics: owned, ..self.0 })
    }

    /// Set `Templates::default`.
    pub fn templates_default(self, default: &str) -> (r: Self)
        ensures
            r.0.templates.default@ == default@,
            r.0.templates.directory == self.0.templates.directory,
            r.0 == (Launchpad { templates: r.0.templates, ..self.0 }),
    {
        Self(
            Launchpad {
                templates: Templates {
                    default: default.to_owned(),
                    directory: self.0.templates.directory,
                },
                ..self.0
            },
        )
    }

    /// Set `Templates::directory`.
    pub fn templates_directory(self, directory: &str) -> (r: Self)
        ensures
            r.0.templates.directory@ == directory@,
            r.0.templates.default == self.0.templates.default,
            r.0 == (Launchpad { templates: r.0.templates, ..self.0 }),
    {
        Self(
            Launchpad {
                templates: Templates {
                    default: self.0.templates.default,
                    directory: directory.to_owned(),
                },
                ..self.0
            },
        )
    }

    /// Finalize the configuration: the output and source roots are resolved
    /// against the working directory `cwd`.
    pub fn build(self, cwd: &str) -> (r: Launchpad)
        ensures
            r.output@ == paths::spec_join(cwd@, self.0.output@),
            r.source@ == paths::spec_join(cwd@, self.0.source@),
            r == (Launchpad { output: r.output, source: r.source, ..self.0 }),
    {
        let output = paths::join(cwd, self.0.output.as_str());
        let source = paths::join(cwd, self.0.source.as_str());
        Self(Launchpad { output, source, ..self.0 }).0
    }
}

} // verus!
