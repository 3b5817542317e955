//! What the document loader decides without touching the file system: which
//! files are documents and the logical name of each.
use vstd::prelude::*;
use vstd::string::*;
use crate::text::same_text;

verus! {

pub open spec fn is_spec_extension_spec(ext: Seq<char>) -> bool {
    ext == "yaml"@ || ext == "yml"@ || ext == "json"@
}

/// Whether a file with extension `ext` is a candidate document.
pub fn is_spec_extension(ext: &str) -> (r: bool)
    ensures
        r == is_spec_extension_spec(ext@),
{
    same_text(ext, "yaml") || same_text(ext, "yml") || same_text(ext, "json")
}

/// `s` with every `\` turned into `/`.
pub open spec fn forward_slashes(s: Seq<char>) -> Seq<char> {
    s.map_values(|c: char| if c == '\\' { '/' } else { c })
}

/// `s` without a final `.yaml`, `.yml` or `.json`.
pub open spec fn without_extension(s: Seq<char>) -> Seq<char> {
    if s.len() >= 5 && s.subrange(s.len() - 5, s.len() as int) == ".yaml"@ {
        s.subrange(0, s.len() - 5)
    } else if s.len() >= 4 && s.subrange(s.len() - 4, s.len() as int) == ".yml"@ {
        s.subrange(0, s.len() - 4)
    } else if s.len() >= 5 && s.subrange(s.len() - 5, s.len() as int) == ".json"@ {
        s.subrange(0, s.len() - 5)
    } else {
        s
    }
}

/// The logical name of a document from its path relative to the root:
/// separators normalized to `/`, the extension stripped.
pub fn logical_name(relative: &str) -> (r: String)
    ensures
        r@ == without_extension(forward_slashes(relative@)),
{
    let n = relative.unicode_len();
    let mut out = String::new();
    let mut i: usize = 0;
    while i < n
        invariant
            n == relative@.len(),
            i <= n,
            out@ == forward_slashes(relative@.subrange(0, i as int)),
        decreases n - i,
    {
        proof {
            reveal_strlit("/");
        }
        if relative.get_char(i) == '\\' {
            out.append("/");
        } else {
            out.append(relative.substring_char(i, i + 1));
        }
        i = i + 1;
        assert(out@ =~= forward_slashes(relative@.subrange(0, i as int)));
    }
    assert(relative@.subrange(0, n as int) =~= relative@);
    let m = out.unicode_len();
    let s = out.as_str();
    proof {
        reveal_strlit(".yaml");
        reveal_strlit(".yml");
        reveal_strlit(".json");
    }
    if m >= 5 && same_text(s.substring_char(m - 5, m), ".yaml") {
        return String::from_str(s.substring_char(0, m - 5));
    }
    if m >= 4 && same_text(s.substring_char(m - 4, m), ".yml") {
        return String::from_str(s.substring_char(0, m - 4));
    }
    if m >= 5 && same_text(s.substring_char(m - 5, m), ".json") {
        return String::from_str(s.substring_char(0, m - 5));
    }
    String::from_str(s)
}

} // verus!
