//! Validation of caller-supplied file paths before the host touches the file
//! system: path traversal is refused outright, and only absolute paths (as a
//! file dialog hands them out) are accepted.

use vstd::prelude::*;
use vstd::string::StrSliceExecFns;

use crate::error::AppError;
use crate::error::AppResult;

verus! {

/// The text holds `..` somewhere.
pub open spec fn has_dotdot(s: Seq<char>) -> bool {
    exists|i: int| 0 <= i && i + 2 <= s.len() && #[trigger] s[i] == '.' && s[i + 1] == '.'
}

fn contains_dotdot(s: &str) -> (r: bool)
    ensures
        r == has_dotdot(s@),
{
    let n = s.unicode_len();
    if n < 2 {
        return false;
    }
    let mut i: usize = 0;
    while i < n - 1
        invariant
            2 <= n == s@.len(),
            0 <= i,
            i + 1 <= n,
            forall|j: int| 0 <= j && j + 2 <= i + 1 ==> !(#[trigger] s@[j] == '.' && s@[j + 1] == '.'),
        decreases n - i,
    {
        if s.get_char(i) == '.' && s.get_char(i + 1) == '.' {
            return true;
        }
        i += 1;
    }
    false
}

/// Relies on std's `Path::is_absolute` for the platform's notion of an
/// absolute path; nothing is assumed about its verdict.
#[verifier::external_body]
fn path_is_absolute(path: &str) -> bool {
    std::path::Path::new(path).is_absolute()
}

/// The verdict on a path, given the two facts that decide it: traversal is
/// refused first, then a relative path; everything else passes.
pub fn classify_path(dotdot: bool, absolute: bool) -> (r: AppResult<()>)
    ensures
        dotdot <==> (r matches Err(e) && e is Validation && e.spec_message()
            == "Path traversal not allowed"@),
        (!dotdot && !absolute) <==> (r matches Err(e) && e is Validation && e.spec_message()
            == "Absolute path required"@),
        (!dotdot && absolute) <==> r is Ok,
{
    proof {
        reveal_strlit("Path traversal not allowed");
        reveal_strlit("Absolute path required");
        assert("Path traversal not allowed"@.len() != "Absolute path required"@.len());
    }
    if dotdot {
        Err(AppError::Validation(String::from_str("Path traversal not allowed")))
    } else if !absolute {
        Err(AppError::Validation(String::from_str("Absolute path required")))
    } else {
        Ok(())
    }
}

/// Accepts a path only when it holds no `..` and the platform calls it
/// absolute.  The traversal check is decided here in full; the absoluteness
/// verdict comes from the platform, so of it the contract promises only that
/// a rejection carries the right error.
pub fn validate_file_path(path: &str) -> (r: AppResult<()>)
    ensures
        has_dotdot(path@) <==> (r matches Err(e) && e is Validation && e.spec_message()
            == "Path traversal not allowed"@),
        r matches Err(e) ==> e is Validation,
{
    let dotdot = contains_dotdot(path);
    let absolute = path_is_absolute(path);
    classify_path(dotdot, absolute)
}

} // verus!
