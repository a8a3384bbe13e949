//! The document and front-matter metadata model.
//!
//! A document may begin with a metadata block: the marker `<!-- Metadata`
//! followed by a newline, a TOML payload, and the terminator `-->` on its own
//! line. The parser strips the block from the body and decodes the payload.

use vstd::prelude::*;

use crate::launchpad::Launchpad;
use crate::markdown;
use crate::paths;
use crate::text;

verus! {

/// toml's table type, held opaquely for the open-ended `extra` metadata.
#[verifier::external_type_specification]
#[verifier::external_body]
#[verifier::reject_recursive_types(K)]
#[verifier::reject_recursive_types(V)]
pub struct ExTomlMap<K, V>(toml::map::Map<K, V>);

/// toml's value type, held opaquely.
#[verifier::external_type_specification]
#[verifier::external_body]
pub struct ExTomlValue(toml::Value);

/// toml's deserialisation error, carried through unread.
#[verifier::external_type_specification]
#[verifier::external_body]
pub struct ExTomlError(toml::de::Error);

/// The type of a document's open-ended `extra` metadata table.
pub type ExtraTable = toml::map::Map<String, toml::Value>;

/// What a toml table holds: its keys mapped to its values.
pub uninterp spec fn table_entries(t: ExtraTable) -> Map<Seq<char>, toml::Value>;

/// The entries of a table with nothing in it.
pub open spec fn spec_empty_entries() -> Map<Seq<char>, toml::Value> {
    Map::empty()
}

/// Relies on `toml::map::Map::new`: a newly created table holds no entries.
#[verifier::external_body]
fn new_table() -> (r: ExtraTable)
    ensures
        table_entries(r) == spec_empty_entries(),
{
    toml::map::Map::new()
}

/// The recognized front-matter fields, each as the payload gave it (or not).
pub struct TomlMeta {
    pub extra: Option<ExtraTable>,
    pub ignore: Option<bool>,
    pub is_draft: Option<bool>,
    pub template: Option<String>,
}

/// What decoding a metadata payload yields: `None` when the payload is not a
/// TOML table or a recognized field has the wrong type.
pub uninterp spec fn toml_meta_of(payload: Seq<char>) -> Option<TomlMeta>;

/// Relies on `toml::from_str` and `toml::Value::try_into`: decodes the payload
/// as a TOML table and reads the keys `extra`, `ignore`, `is_draft` and
/// `template`; the outcome is a function of the payload text alone.
#[verifier::external_body]
fn decode_meta_payload(payload: &str) -> (r: Result<TomlMeta, toml::de::Error>)
    ensures
        r is Ok <==> toml_meta_of(payload@) is Some,
        r matches Ok(m) ==> toml_meta_of(payload@) == Some(m),
{
    let mut table: toml::map::Map<String, toml::Value> = toml::from_str(payload)?;
    Ok(TomlMeta {
        extra: table.remove("extra").map(|v| v.try_into()).transpose()?,
        ignore: table.remove("ignore").map(|v| v.try_into()).transpose()?,
        is_draft: table.remove("is_draft").map(|v| v.try_into()).transpose()?,
        template: table.remove("template").map(|v| v.try_into()).transpose()?,
    })
}

/// The data of a document's front-matter metadata block, with defaults for
/// everything the block leaves out.
#[derive(Debug)]
pub struct Metadata {
    /// Extra custom metadata to hand to the template as it came in.
    pub extra: ExtraTable,
    /// Whether this document should be ignored entirely.
    pub ignore: bool,
    /// Whether this document is a draft. Defaults to true: an unmarked
    /// document is a draft.
    pub is_draft: bool,
    /// The template to render this document with, relative to the templates
    /// directory.
    pub template: Option<String>,
}

/// Mathematical view of a `Metadata`.
pub struct MetadataView {
    pub extra: Map<Seq<char>, toml::Value>,
    pub ignore: bool,
    pub is_draft: bool,
    pub template: Option<Seq<char>>,
}

impl View for Metadata {
    type V = MetadataView;

    open spec fn view(&self) -> MetadataView {
        MetadataView {
            extra: table_entries(self.extra),
            ignore: self.ignore,
            is_draft: self.is_draft,
            template: match self.template {
                Some(t) => Some(t@),
                None => None,
            },
        }
    }
}

/// The all-defaults metadata of a document without a (usable) block.
pub open spec fn spec_default_meta() -> MetadataView {
    MetadataView { extra: Map::empty(), ignore: false, is_draft: true, template: None }
}

/// The metadata that decoded fields `f` resolve to once defaults are applied.
pub open spec fn spec_meta_view(f: TomlMeta) -> MetadataView {
    MetadataView {
        extra: match f.extra {
            Some(t) => table_entries(t),
            None => Map::empty(),
        },
        ignore: match f.ignore {
            Some(b) => b,
            None => false,
        },
        is_draft: match f.is_draft {
            Some(b) => b,
            None => true,
        },
        template: match f.template {
            Some(t) => Some(t@),
            None => None,
        },
    }
}

impl Default for Metadata {
    /// All-defaults metadata: in particular, an unmarked document is a draft.
    fn default() -> (r: Self)
        ensures
            r@ == spec_default_meta(),
    {
        Metadata {
            extra: new_table(),
            ignore: false,
            is_draft: Metadata::is_draft_default(),
            template: None,
        }
    }
}

/// Why a document's metadata could not be used.
#[derive(Debug)]
pub enum MetadataError {
    /// A start marker with no terminator anywhere after it.
    Unterminated,
    /// The payload between the markers failed to decode.
    Toml(toml::de::Error),
}

/// The literal that opens a metadata block.
pub open spec fn start_marker() -> Seq<char> {
    "<!-- Metadata\n"@
}

/// The literal that closes a metadata block.
pub open spec fn end_marker() -> Seq<char> {
    "\n-->"@
}

/// How a raw document splits into a metadata payload and a body.
pub enum SpecParsed {
    /// No metadata block: the whole text is the body.
    NoBlock,
    /// A start marker with no terminator after it: the whole text is kept.
    Unterminated,
    /// A block: the payload between the markers and the body after them.
    Block { payload: Seq<char>, body: Seq<char> },
}

/// Splits a raw document at its metadata block: the first start marker, then
/// the first terminator after it, bound the payload; the body is everything
/// after the terminator. A text neither starting with the marker nor holding
/// the terminator anywhere is taken whole, as is one without any start marker.
pub open spec fn spec_parse_block(s: Seq<char>) -> SpecParsed {
    if !text::occurs_at(s, start_marker(), 0) && text::spec_find(s, end_marker(), 0) is None {
        SpecParsed::NoBlock
    } else {
        match text::spec_find(s, start_marker(), 0) {
            None => SpecParsed::NoBlock,
            Some(st) => match text::spec_find(s, end_marker(), st + start_marker().len()) {
                None => SpecParsed::Unterminated,
                Some(en) => SpecParsed::Block {
                    payload: s.subrange(st + start_marker().len(), en),
                    body: s.subrange(en + end_marker().len(), s.len() as int),
                },
            },
        }
    }
}

/// The body a raw document keeps once its metadata block (if any) is removed.
pub open spec fn spec_parsed_body(s: Seq<char>) -> Seq<char> {
    match spec_parse_block(s) {
        SpecParsed::NoBlock => s,
        SpecParsed::Unterminated => s,
        SpecParsed::Block { body, .. } => body,
    }
}

/// The metadata a raw document resolves to once the non-fatal default
/// substitution policy is applied.
pub open spec fn spec_metadata_view(s: Seq<char>) -> MetadataView {
    match spec_parse_block(s) {
        SpecParsed::NoBlock => spec_default_meta(),
        SpecParsed::Unterminated => spec_default_meta(),
        SpecParsed::Block { payload, .. } => match toml_meta_of(payload) {
            Some(f) => spec_meta_view(f),
            None => spec_default_meta(),
        },
    }
}

/// Whether a raw document's metadata parses without error.
pub open spec fn spec_metadata_ok(s: Seq<char>) -> bool {
    match spec_parse_block(s) {
        SpecParsed::NoBlock => true,
        SpecParsed::Unterminated => false,
        SpecParsed::Block { payload, .. } => toml_meta_of(payload) is Some,
    }
}

impl Metadata {
    /// Decodes a metadata payload, applying the field defaults.
    pub fn from_toml(source: &str) -> (r: Result<Metadata, MetadataError>)
        ensures
            r is Ok <==> toml_meta_of(source@) is Some,
            r matches Ok(m) ==> toml_meta_of(source@) matches Some(f) && m@ == spec_meta_view(f),
            r matches Err(e) ==> e is Toml,
    {
        match decode_meta_payload(source) {
            Err(e) => Err(MetadataError::Toml(e)),
            Ok(f) => Ok(
                Metadata {
                    extra: match f.extra {
                        Some(t) => t,
                        None => new_table(),
                    },
                    ignore: f.ignore.unwrap_or(false),
                    is_draft: f.is_draft.unwrap_or(true),
                    template: f.template,
                },
            ),
        }
    }

    /// Extracts the metadata block from a raw document. The first component
    /// carries the decoded metadata or the error; the second is the body with
    /// the block stripped (or the untouched text where no block was taken).
    pub fn parse(source: &str) -> (r: (Result<Metadata, MetadataError>, String))
        ensures
            spec_parse_block(source@) is NoBlock ==> (r.0 matches Ok(m) && m@
                == spec_default_meta() && r.1@ == source@),
            spec_parse_block(source@) is Unterminated ==> (r.0 matches Err(e) && e
                is Unterminated && r.1@ == source@),
            spec_parse_block(source@) matches SpecParsed::Block { payload, body } ==> {
                &&& r.1@ == body
                &&& (r.0 is Ok <==> toml_meta_of(payload) is Some)
                &&& (r.0 matches Ok(m) ==> toml_meta_of(payload) matches Some(f) && m@
                    == spec_meta_view(f))
                &&& (r.0 matches Err(e) ==> e is Toml)
            },
            r.1@ == spec_parsed_body(source@),
            r.0 is Ok <==> spec_metadata_ok(source@),
            r.0 matches Ok(m) ==> m@ == spec_metadata_view(source@),
    {
        let s_len = source.unicode_len();
        let has_start = text::starts_with(source, "<!-- Metadata\n");
        let end_anywhere = text::find_str(source, "\n-->", 0);
        if !has_start && end_anywhere.is_none() {
            return (Ok(Metadata::default()), source.to_owned());
        }
        match text::find_str(source, "<!-- Metadata\n", 0) {
            None => (Ok(Metadata::default()), source.to_owned()),
            Some(st) => {
                let after = st + "<!-- Metadata\n".unicode_len();
                match text::find_str(source, "\n-->", after) {
                    None => (Err(MetadataError::Unterminated), source.to_owned()),
                    Some(en) => {
                        let payload = source.substring_char(after, en);
                        let body = source.substring_char(en + "\n-->".unicode_len(), s_len)
                            .to_owned();
                        match Metadata::from_toml(payload) {
                            Ok(m) => (Ok(m), body),
                            Err(e) => (Err(e), body),
                        }
                    },
                }
            },
        }
    }

    pub(crate) fn is_draft_default() -> (r: bool)
        ensures
            r == true,
    {
        true
    }
}

/// A document without a front-matter block keeps its whole text as the body
/// — so it renders exactly as its raw text would — and resolves to the
/// default metadata: a draft in particular.
pub proof fn lemma_no_block_is_raw_draft(s: Seq<char>)
    requires
        spec_parse_block(s) is NoBlock,
    ensures
        spec_parsed_body(s) == s,
        markdown::spec_render_markdown(spec_parsed_body(s)) == markdown::spec_render_markdown(s),
        spec_metadata_view(s) == spec_default_meta(),
        spec_metadata_view(s).is_draft,
{
}

/// Wrapping a metadata payload in the markers, followed by a body, parses
/// back to exactly that payload and that body. The payload must not itself
/// contain the terminator: one holding `\n-->` would end the block early.
pub proof fn lemma_wrap_roundtrip(payload: Seq<char>, body: Seq<char>)
    requires
        forall|j: int| !text::occurs_at(payload, end_marker(), j),
    ensures
        spec_parse_block(start_marker() + payload + end_marker() + body) == (SpecParsed::Block {
            payload,
            body,
        }),
{
    let sm = start_marker();
    let em = end_marker();
    let s = sm + payload + em + body;
    reveal_strlit("<!-- Metadata\n");
    reveal_strlit("\n-->");
    assert(sm.len() == 14);
    assert(em.len() == 4);
    let p0 = (sm.len() + payload.len()) as int;

    // The start marker stands at position 0, so the fast path is not taken
    // and the search finds it there.
    assert(s.subrange(0, sm.len() as int) =~= sm);
    assert(text::occurs_at(s, sm, 0));
    text::lemma_find_first(s, sm, 0, 0);

    // The terminator stands right after the payload ...
    assert(s.subrange(p0, p0 + em.len()) =~= em);
    assert(text::occurs_at(s, em, p0));

    // ... and nowhere earlier (after the start marker): an occurrence inside
    // the payload is ruled out by the requirement, and one straddling the
    // payload's end would need the terminator to repeat its own first
    // character, a newline, among `-->`.
    assert forall|j: int| sm.len() <= j < p0 implies !text::occurs_at(s, em, j) by {
        if text::occurs_at(s, em, j) {
            if j + em.len() <= p0 {
                assert forall|m: int| 0 <= m < em.len() implies payload.subrange(
                    j - sm.len(),
                    j - sm.len() + em.len(),
                )[m] == em[m] by {
                    assert(s.subrange(j, j + em.len())[m] == s[j + m]);
                }
                assert(payload.subrange(j - sm.len(), j - sm.len() + em.len()) =~= em);
                assert(text::occurs_at(payload, em, j - sm.len()));
            } else {
                let k = p0 - j;
                assert(s.subrange(j, j + em.len())[k] == s[j + k]);
                assert(s[p0] == em[0]);
                assert(em[k] == em[0]);
                assert(false);
            }
        }
    }
    text::lemma_find_first(s, em, sm.len() as int, p0);

    // What stands between and after the markers is the payload and the body.
    assert(s.subrange(sm.len() as int, p0) =~= payload);
    assert(s.subrange(p0 + em.len(), s.len() as int) =~= body);
}

/// Why a document's destination path could not be derived.
#[derive(Clone, Copy, Debug, PartialEq, Eq, Structural)]
pub enum DestinationError {
    /// The document's source path does not lie under the source root.
    NotUnderSourceRoot,
}

/// A Markdown document found under a `Launchpad`'s source directory.
#[derive(Debug)]
pub struct Document {
    /// The document's body with the metadata block stripped and the Markdown
    /// rendered to HTML.
    pub content: String,
    /// The parsed metadata.
    pub metadata: Metadata,
    /// The absolute path of the source Markdown file.
    pub source_path: String,
}

impl Document {
    /// Builds the document for one source file: extracts the metadata block,
    /// substituting the defaults (and reporting why) when it cannot be used,
    /// and renders the remaining body to HTML.
    pub fn new(source_path: String, raw: &str) -> (r: (Document, Option<MetadataError>))
        ensures
            r.0.source_path == source_path,
            r.0.content@ == markdown::spec_render_markdown(spec_parsed_body(raw@)),
            r.0.metadata@ == spec_metadata_view(raw@),
            r.1 is None <==> spec_metadata_ok(raw@),
    {
        let (meta_result, body) = Metadata::parse(raw);
        let (metadata, err) = match meta_result {
            Ok(m) => (m, None),
            Err(e) => (Metadata::default(), Some(e)),
        };
        let content = markdown::render_markdown(body.as_str());
        (Document { content, metadata, source_path }, err)
    }

    /// The HTML path this document should be written to: its place under the
    /// source root mirrored into the output root, with the `html` extension.
    pub fn create_destination(&self, launchpad: &Launchpad) -> (r: Result<
        String,
        DestinationError,
    >)
        ensures
            r is Ok <==> paths::spec_destination(
                self.source_path@,
                launchpad.source@,
                launchpad.output@,
            ) is Some,
            r matches Ok(d) ==> paths::spec_destination(
                self.source_path@,
                launchpad.source@,
                launchpad.output@,
            ) == Some(d@),
    {
        match paths::destination_for(
            self.source_path.as_str(),
            launchpad.source.as_str(),
            launchpad.output.as_str(),
        ) {
            Some(d) => Ok(d),
            None => Err(DestinationError::NotUnderSourceRoot),
        }
    }
}

} // verus!
