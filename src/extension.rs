//! Extension allow-list: which entries keep their size.
use vstd::prelude::*;

use crate::text::compare_text;

verus! {

/// The extension of a path as `std::path::Path::extension` gives it, or the
/// empty text where the path has none.
pub uninterp spec fn extension_of(path: Seq<char>) -> Seq<char>;

/// Relies on `std::path::Path::extension` for the text after the last dot of
/// the path's final component (`None`, taken here as empty, where there is
/// none). A `&str` is valid UTF-8, so the lossy conversion changes nothing.
#[verifier::external_body]
pub(crate) fn path_extension(path: &str) -> (r: String)
    ensures
        r@ == extension_of(path@),
{
    std::path::Path::new(path).extension().unwrap_or_default().to_string_lossy().into_owned()
}

/// `extension` is one of the listed extensions (compared exactly, case included).
pub open spec fn listed(allowed: Seq<String>, extension: Seq<char>) -> bool {
    exists|k: int| 0 <= k < allowed.len() && (#[trigger] allowed[k])@ == extension
}

/// An entry with this extension keeps its size: the list is empty (no
/// filtering) or names the extension.
pub open spec fn counted(allowed: Seq<String>, extension: Seq<char>) -> bool {
    allowed.len() == 0 || listed(allowed, extension)
}

/// Whether an entry whose extension is `extension` keeps its size under the
/// allow-list `filtered_extensions`.
pub fn extension_counted(filtered_extensions: &Vec<String>, extension: &str) -> (r: bool)
    ensures
        r == counted(filtered_extensions@, extension@),
{
    let n = filtered_extensions.len();
    if n == 0 {
        return true;
    }
    let mut k: usize = 0;
    while k < n
        invariant
            n == filtered_extensions@.len(),
            k <= n,
            forall|j: int| 0 <= j < k ==> (#[trigger] filtered_extensions@[j])@ != extension@,
        decreases n - k,
    {
        proof {
            crate::text::lemma_text_cmp_equal(filtered_extensions@[k as int]@, extension@);
        }
        match compare_text(filtered_extensions[k].as_str(), extension) {
            core::cmp::Ordering::Equal => {
                return true;
            },
            _ => {},
        }
        k = k + 1;
    }
    false
}

} // verus!
