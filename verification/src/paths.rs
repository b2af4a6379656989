//! Unix file-system paths held as text.

use vstd::prelude::*;
use crate::text::{concat2, concat3, ends_with, has_prefix, has_suffix, owned, starts_with};

verus! {

/// `base` extended by `part` as `PathBuf::push` does on Unix: an absolute `part`
/// replaces the path, an empty `base` becomes `part`, and otherwise one `/` separates
/// them unless `base` already ends with one.
pub open spec fn join_seq(base: Seq<char>, part: Seq<char>) -> Seq<char> {
    if has_prefix(part, "/"@) {
        part
    } else if base.len() == 0 {
        part
    } else if has_suffix(base, "/"@) {
        base + part
    } else {
        base + "/"@ + part
    }
}

/// `base` extended by `part` (`Path::join` on Unix).
pub fn path_join(base: &str, part: &str) -> (r: String)
    ensures
        r@ == join_seq(base@, part@),
{
    if starts_with(part, "/") {
        owned(part)
    } else if base.is_empty() {
        owned(part)
    } else if ends_with(base, "/") {
        concat2(base, part)
    } else {
        concat3(base, "/", part)
    }
}

/// `base` extended by two parts in turn.
pub fn path_join2(base: &str, a: &str, b: &str) -> (r: String)
    ensures
        r@ == join_seq(join_seq(base@, a@), b@),
{
    let first = path_join(base, a);
    path_join(first.as_str(), b)
}

} // verus!
