//! What the conversion of a directory tree does with each entry.

use vstd::prelude::*;

use crate::paths::{extension_dot, extension_of, find_extension_dot, same_text};

verus! {

/// What to do with one entry of the input tree.
pub enum EntryAction {
    /// A directory: convert its entries, one level deeper.
    Descend,
    /// A Markdown file: convert it to the HTML file at this path.
    Convert(String),
    /// Any other file, with or without an extension: copy it byte for byte.
    Copy,
}

/// The path of the page for a Markdown file: its extension replaced by
/// `html`.
pub open spec fn html_path_of(p: Seq<char>) -> Seq<char>
    recommends
        extension_dot(p) is Some,
{
    p.subrange(0, extension_dot(p)->0 + 1) + "html"@
}

/// Decides what becomes of the entry at `path`.
pub fn plan_entry(is_dir: bool, path: &str) -> (r: EntryAction)
    ensures
        is_dir ==> r is Descend,
        !is_dir && extension_of(path@) == Some("md"@) ==> (r matches EntryAction::Convert(h) && h@
            == html_path_of(path@)),
        !is_dir && extension_of(path@) != Some("md"@) ==> r is Copy,
{
    if is_dir {
        return EntryAction::Descend;
    }
    match find_extension_dot(path) {
        None => EntryAction::Copy,
        Some(d) => {
            let n = path.unicode_len();
            proof {
                assert(extension_dot(path@) == Some(d as int));
            }
            let ext = path.substring_char(d + 1, n);
            if same_text(ext, "md") {
                let mut h = path.substring_char(0, d + 1).to_owned();
                h.append("html");
                EntryAction::Convert(h)
            } else {
                EntryAction::Copy
            }
        },
    }
}

} // verus!
