use vstd::prelude::*;
use crate::text::{last_index_exec, last_index_of};

verus! {

/// The last '/'-separated segment of a URL path (all of it when it holds no '/').
pub open spec fn last_segment(path: Seq<char>) -> Seq<char> {
    path.subrange(last_index_of(path, '/') + 1, path.len() as int)
}

/// Strict lexicographic order by code point, which for UTF-8 text is the
/// order of the bytes.
pub open spec fn text_greater(a: Seq<char>, b: Seq<char>) -> bool
    decreases a.len(),
{
    if a.len() == 0 {
        false
    } else if b.len() == 0 {
        true
    } else if a[0] != b[0] {
        (a[0] as u32) > (b[0] as u32)
    } else {
        text_greater(a.drop_first(), b.drop_first())
    }
}

/// Whether the release that a URL path names is newer than `current_version`:
/// its last segment is greater as text, as string comparison orders it.
pub fn is_newer_release(url_path: &str, current_version: &str) -> (r: bool)
    ensures
        r == text_greater(last_segment(url_path@), current_version@),
{
    let n = url_path.unicode_len();
    let start: usize = match last_index_exec(url_path, '/') {
        Some(k) => k + 1,
        None => 0,
    };
    let remote = url_path.substring_char(start, n);
    let m = current_version.unicode_len();
    let len = remote.unicode_len();
    let mut i: usize = 0;
    assert(remote@.subrange(0, len as int) =~= remote@);
    assert(current_version@.subrange(0, m as int) =~= current_version@);
    while i < len && i < m
        invariant
            len == remote@.len(),
            m == current_version@.len(),
            remote@ == last_segment(url_path@),
            i <= len,
            i <= m,
            forall|k: int| 0 <= k < i ==> remote@[k] == current_version@[k],
            text_greater(remote@, current_version@) == text_greater(
                remote@.subrange(i as int, len as int),
                current_version@.subrange(i as int, m as int),
            ),
        decreases len - i,
    {
        let a = remote.get_char(i);
        let b = current_version.get_char(i);
        let ghost ra = remote@.subrange(i as int, len as int);
        let ghost rb = current_version@.subrange(i as int, m as int);
        assert(ra[0] == a && rb[0] == b);
        if a != b {
            return (a as u32) > (b as u32);
        }
        assert(ra.drop_first() =~= remote@.subrange(i + 1, len as int));
        assert(rb.drop_first() =~= current_version@.subrange(i + 1, m as int));
        i += 1;
    }
    i < len
}

} // verus!
