//! Names that are safe to use as one component of a path.

use vstd::prelude::*;
use vstd::string::*;

verus! {

/// `s` holds two dots in a row.
pub open spec fn has_dot_dot(s: Seq<char>) -> bool {
    exists|i: int| 0 <= i < s.len() - 1 && #[trigger] s[i] == '.' && s[i + 1] == '.'
}

/// A name is usable as a single path component when it holds no `..`,
/// no path separator and no NUL.
pub open spec fn is_valid_filename(s: Seq<char>) -> bool {
    !has_dot_dot(s) && !s.contains('/') && !s.contains('\0')
}

/// Whether `name` can serve as one component of a path.
pub fn valid_filename(name: &str) -> (ok: bool)
    ensures
        ok == is_valid_filename(name@),
{
    let n: usize = name.unicode_len();
    let mut i: usize = 0;
    let mut dot: bool = false;
    while i < n
        invariant
            i <= n,
            n == name@.len(),
            dot == (i > 0 && name@[i - 1] == '.'),
            forall|j: int| 0 <= j < i ==> #[trigger] name@[j] != '/' && name@[j] != '\0',
            forall|j: int| 0 <= j < i - 1 ==> !(#[trigger] name@[j] == '.' && name@[j + 1] == '.'),
        decreases n - i,
    {
        let c: char = name.get_char(i);
        if c == '/' || c == '\0' {
            return false;
        }
        if c == '.' && dot {
            assert(name@[i - 1] == '.' && name@[i - 1 + 1] == '.');
            return false;
        }
        dot = c == '.';
        i = i + 1;
    }
    true
}

/// The directory under which the kernel shows the process `pid` while it lives.
pub fn proc_path(pid: u32) -> (path: String)
    ensures
        path@ == "/proc/"@ + crate::text::decimal(pid as nat),
{
    let mut path = String::from_str("/proc/");
    crate::text::push_decimal(&mut path, pid as u64);
    path
}

} // verus!
