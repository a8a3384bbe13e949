//! A verified model of the path operations the build pipeline relies on.
//! Paths are separator-normalised strings (`/`), modelled as `Seq<char>`.

use vstd::prelude::*;

use crate::text;

verus! {

/// A path is absolute when it starts with the separator.
pub open spec fn spec_is_absolute(p: Seq<char>) -> bool {
    p.len() > 0 && p[0] == '/'
}

/// Model of joining `p` onto the directory `base`: an absolute right side
/// replaces the left side, and exactly one separator stands between the two.
pub open spec fn spec_join(base: Seq<char>, p: Seq<char>) -> Seq<char> {
    if spec_is_absolute(p) {
        p
    } else if base.len() == 0 {
        p
    } else if base[base.len() - 1] == '/' {
        base + p
    } else {
        base + "/"@ + p
    }
}

/// Joins `path` onto the directory `base`.
pub fn join(base: &str, path: &str) -> (r: String)
    ensures
        r@ == spec_join(base@, path@),
{
    let base_len = base.unicode_len();
    let path_len = path.unicode_len();
    if path_len > 0 && path.get_char(0) == '/' {
        path.to_owned()
    } else if base_len == 0 {
        path.to_owned()
    } else if base.get_char(base_len - 1) == '/' {
        let mut r = base.to_owned();
        r.append(path);
        r
    } else {
        let mut r = base.to_owned();
        r.append("/");
        r.append(path);
        r
    }
}

/// The final component of `p`: everything after the last separator.
pub open spec fn spec_file_name(p: Seq<char>) -> Seq<char> {
    match text::spec_rfind(p, '/') {
        Some(i) => p.subrange(i + 1, p.len() as int),
        None => p,
    }
}

/// The directory part of `p`: everything before the last separator, empty
/// when there is none.
pub open spec fn spec_parent(p: Seq<char>) -> Seq<char> {
    match text::spec_rfind(p, '/') {
        Some(i) => p.take(i),
        None => Seq::empty(),
    }
}

/// The final component of `p`.
pub fn file_name(p: &str) -> (r: String)
    ensures
        r@ == spec_file_name(p@),
{
    let p_len = p.unicode_len();
    match text::rfind_char(p, '/') {
        Some(i) => {
            proof {
                text::lemma_rfind_found(p@, '/', i as int);
            }
            p.substring_char(i + 1, p_len).to_owned()
        },
        None => p.to_owned(),
    }
}

/// The directory part of `p`.
pub fn parent(p: &str) -> (r: String)
    ensures
        r@ == spec_parent(p@),
{
    match text::rfind_char(p, '/') {
        Some(i) => {
            proof {
                text::lemma_rfind_found(p@, '/', i as int);
            }
            p.substring_char(0, i).to_owned()
        },
        None => String::new(),
    }
}

/// Model of `file_stem` on a file name: the part before the last dot, except
/// that a lone leading dot belongs to the stem.
pub open spec fn spec_stem_of_name(name: Seq<char>) -> Seq<char> {
    match text::spec_rfind(name, '.') {
        None => name,
        Some(i) => if i == 0 {
            name
        } else {
            name.take(i)
        },
    }
}

/// Model of swapping a file name's extension for `ext`.
pub open spec fn spec_name_with_extension(name: Seq<char>, ext: Seq<char>) -> Seq<char> {
    spec_stem_of_name(name) + "."@ + ext
}

/// Swaps the extension of the file name `name` for `ext`.
pub fn name_with_extension(name: &str, ext: &str) -> (r: String)
    ensures
        r@ == spec_name_with_extension(name@, ext@),
{
    let mut r = match text::rfind_char(name, '.') {
        Some(i) => {
            proof {
                text::lemma_rfind_found(name@, '.', i as int);
            }
            if i == 0 {
                name.to_owned()
            } else {
                name.substring_char(0, i).to_owned()
            }
        },
        None => name.to_owned(),
    };
    r.append(".");
    r.append(ext);
    r
}

/// `p` relative to the directory `root`: `Some(rest)` when `p` is `root`,
/// then a separator, then `rest`.
pub open spec fn spec_strip_dir(p: Seq<char>, root: Seq<char>) -> Option<Seq<char>> {
    if root.len() < p.len() && text::occurs_at(p, root, 0) && p[root.len() as int] == '/' {
        Some(p.subrange(root.len() as int + 1, p.len() as int))
    } else {
        None
    }
}

/// Strips the directory prefix `root` (and the separator after it) from `p`.
pub fn strip_dir(p: &str, root: &str) -> (r: Option<String>)
    ensures
        r is Some <==> spec_strip_dir(p@, root@) is Some,
        r matches Some(rest) ==> spec_strip_dir(p@, root@) == Some(rest@),
{
    let p_len = p.unicode_len();
    let root_len = root.unicode_len();
    if root_len < p_len && text::starts_with(p, root) && p.get_char(root_len) == '/' {
        Some(p.substring_char(root_len + 1, p_len).to_owned())
    } else {
        None
    }
}

/// Destination of a source document: the source root is stripped, the parent
/// directories are kept under the output root, and the file's stem gets the
/// `html` extension.
pub open spec fn spec_destination(
    source_path: Seq<char>,
    source_root: Seq<char>,
    output_root: Seq<char>,
) -> Option<Seq<char>> {
    match spec_strip_dir(source_path, source_root) {
        None => None,
        Some(rest) => Some(
            spec_join(
                spec_join(output_root, spec_parent(rest)),
                spec_name_with_extension(spec_file_name(rest), "html"@),
            ),
        ),
    }
}

/// Computes the destination path of a source document, `None` when the
/// source path does not lie under the source root.
pub fn destination_for(source_path: &str, source_root: &str, output_root: &str) -> (r: Option<
    String,
>)
    ensures
        r is Some <==> spec_destination(source_path@, source_root@, output_root@) is Some,
        r matches Some(d) ==> spec_destination(source_path@, source_root@, output_root@) == Some(
            d@,
        ),
{
    match strip_dir(source_path, source_root) {
        None => None,
        Some(rest) => {
            let dir = parent(rest.as_str());
            let name = file_name(rest.as_str());
            let html_name = name_with_extension(name.as_str(), "html");
            let out_dir = join(output_root, dir.as_str());
            Some(join(out_dir.as_str(), html_name.as_str()))
        },
    }
}

/// Whether the path names a Markdown document: its extension is exactly `md`.
pub open spec fn spec_is_markdown_path(p: Seq<char>) -> bool {
    let name = spec_file_name(p);
    match text::spec_rfind(name, '.') {
        Some(i) => i > 0 && name.subrange(i + 1, name.len() as int) == "md"@,
        None => false,
    }
}

/// Whether the path names a Markdown document.
pub fn is_markdown_path(p: &str) -> (r: bool)
    ensures
        r == spec_is_markdown_path(p@),
{
    let name = file_name(p);
    let name_str = name.as_str();
    let name_len = name_str.unicode_len();
    let md_len = "md".unicode_len();
    match text::rfind_char(name_str, '.') {
        Some(i) => {
            proof {
                text::lemma_rfind_found(name@, '.', i as int);
            }
            if i > 0 && name_len - (i + 1) == md_len && text::matches_at(name_str, "md", i + 1) {
                proof {
                    assert(name@.subrange(i + 1, name@.len() as int) =~= name@.subrange(
                        i + 1,
                        i + 1 + "md"@.len(),
                    ));
                }
                true
            } else {
                proof {
                    if i > 0 && name@.subrange(i + 1, name@.len() as int) == "md"@ {
                        assert(name@.subrange(i + 1, name@.len() as int).len() == "md"@.len());
                        assert(name@.subrange(i + 1, name@.len() as int) =~= name@.subrange(
                            i + 1,
                            i + 1 + "md"@.len(),
                        ));
                    }
                }
                false
            }
        },
        None => false,
    }
}

} // verus!
