//! Small helpers.

use crate::services::file_service::{join_path, spec_join};
use crate::text::{chars_of, string_of};
use vstd::prelude::*;

verus! {

/// The upper-case form of a character, as `char::to_uppercase` gives it. It
/// may be more than one character long.
pub uninterp spec fn spec_uppercase(c: char) -> Seq<char>;

/// `char::to_uppercase`: the upper-case form of `c` by the Unicode rules,
/// gathered into a string. The contract only gives the result its name.
#[verifier::external_body]
pub(crate) fn uppercase_of(c: char) -> (upper: String)
    ensures
        upper@ == spec_uppercase(c),
{
    c.to_uppercase().collect()
}

/// A text with its first character in upper case.
pub open spec fn spec_capitalize_first(s: Seq<char>) -> Seq<char> {
    if s.len() == 0 {
        s
    } else {
        spec_uppercase(s[0]) + s.skip(1)
    }
}

/// A text with its first character in upper case; the rest stays as it is.
pub fn capitalize_first(s: &str) -> (out: String)
    ensures
        out@ == spec_capitalize_first(s@),
{
    let chars = chars_of(s);
    if chars.len() == 0 {
        return String::new();
    }
    let upper = uppercase_of(chars[0]);
    let mut out = chars_of(upper.as_str());
    let mut i: usize = 1;
    while i < chars.len()
        invariant
            1 <= i <= chars.len(),
            out@ == spec_uppercase(chars@[0]) + chars@.subrange(1, i as int),
        decreases chars.len() - i,
    {
        out.push(chars[i]);
        assert(spec_uppercase(chars@[0]) + chars@.subrange(1, i + 1) =~= (spec_uppercase(
            chars@[0],
        ) + chars@.subrange(1, i as int)).push(chars@[i as int]));
        i += 1;
    }
    assert(chars@.subrange(1, chars@.len() as int) =~= chars@.skip(1));
    string_of(&out)
}

/// The directory of the configuration: `./src/config/` during development,
/// and else the directory `config` beside the program.
pub open spec fn spec_assets_path(exe_dir: Seq<char>, development: bool) -> Seq<char> {
    if development {
        "./src/config/"@
    } else {
        spec_join(exe_dir, "config"@)
    }
}

/// The directory of the configuration.
pub fn get_assets_path(exe_dir: &str, development: bool) -> (path: String)
    ensures
        path@ == spec_assets_path(exe_dir@, development),
{
    if development {
        "./src/config/".to_owned()
    } else {
        join_path(exe_dir, "config")
    }
}

} // verus!
