//! Entry names as relative paths: separators, directory markers and parents.

use crate::text::chars_of;
use vstd::prelude::*;
use vstd::string::StrSliceExecFns;

verus! {

/// A path separator: a forward or a backward slash.
pub open spec fn is_separator(c: char) -> bool {
    c == '/' || c == '\\'
}

/// A name that denotes a directory: one that ends in a separator.
pub open spec fn is_directory_marker(name: Seq<char>) -> bool {
    name.len() > 0 && is_separator(name.last())
}

/// The number of characters of `name` that are left when its trailing
/// separators are taken off.
pub open spec fn trimmed_len(name: Seq<char>) -> nat
    decreases name.len(),
{
    if name.len() > 0 && is_separator(name.last()) {
        trimmed_len(name.drop_last())
    } else {
        name.len()
    }
}

/// `name` without its trailing separators.
pub open spec fn trimmed(name: Seq<char>) -> Seq<char> {
    name.take(trimmed_len(name) as int)
}

/// The position of the last separator in `name`, or -1 where it has none.
pub open spec fn last_separator(name: Seq<char>) -> int
    decreases name.len(),
{
    if name.len() == 0 {
        -1
    } else if is_separator(name.last()) {
        name.len() - 1
    } else {
        last_separator(name.drop_last())
    }
}

/// The directory that holds `name`: what stands before its last separator,
/// without trailing separators. It is empty for a name without a separator,
/// which lies directly under the root.
pub open spec fn parent_of(name: Seq<char>) -> Seq<char> {
    if last_separator(name) < 0 {
        Seq::<char>::empty()
    } else {
        trimmed(name.take(last_separator(name)))
    }
}

/// `trimmed_len(name)` is where the trailing run of separators begins.
pub proof fn lemma_trimmed_len(name: Seq<char>)
    ensures
        trimmed_len(name) <= name.len(),
        trimmed_len(name) > 0 ==> !is_separator(name[trimmed_len(name) - 1]),
        forall|j: int| trimmed_len(name) <= j < name.len() ==> is_separator(#[trigger] name[j]),
    decreases name.len(),
{
    if name.len() > 0 && is_separator(name.last()) {
        lemma_trimmed_len(name.drop_last());
        assert forall|j: int| trimmed_len(name) <= j < name.len() implies is_separator(
            #[trigger] name[j],
        ) by {
            if j < name.len() - 1 {
                assert(name.drop_last()[j] == name[j]);
            }
        }
    }
}

/// `last_separator(name)` is a separator of `name`, and none follows it.
pub proof fn lemma_last_separator(name: Seq<char>)
    ensures
        -1 <= last_separator(name) < name.len(),
        last_separator(name) >= 0 ==> is_separator(name[last_separator(name)]),
        forall|j: int| last_separator(name) < j < name.len() ==> !is_separator(#[trigger] name[j]),
    decreases name.len(),
{
    if name.len() > 0 && !is_separator(name.last()) {
        lemma_last_separator(name.drop_last());
        assert forall|j: int| last_separator(name) < j < name.len() implies !is_separator(
            #[trigger] name[j],
        ) by {
            if j < name.len() - 1 {
                assert(name.drop_last()[j] == name[j]);
            }
        }
    }
}

/// Trimming leaves no directory marker, and changes nothing where there is
/// none.
pub proof fn lemma_trimmed_is_plain(name: Seq<char>)
    ensures
        !is_directory_marker(trimmed(name)),
        !is_directory_marker(name) ==> trimmed(name) == name,
        trimmed(trimmed(name)) == trimmed(name),
{
    lemma_trimmed_len(name);
}

/// The parent of a name is a beginning of the name, shorter than the name
/// unless the name is empty, and it ends in no separator.
pub proof fn lemma_parent_is_above(name: Seq<char>)
    ensures
        parent_of(name).len() <= name.len(),
        name.len() > 0 ==> parent_of(name).len() < name.len(),
        parent_of(name) == name.take(parent_of(name).len() as int),
        !is_directory_marker(parent_of(name)),
{
    lemma_last_separator(name);
    let at = last_separator(name);
    if at >= 0 {
        lemma_trimmed_len(name.take(at));
        lemma_trimmed_is_plain(name.take(at));
    }
}

/// Whether `c` is a path separator.
pub fn separator(c: char) -> (yes: bool)
    ensures
        yes == is_separator(c),
{
    c == '/' || c == '\\'
}

/// Whether `name` denotes a directory.
pub fn directory_marker(name: &str) -> (yes: bool)
    ensures
        yes == is_directory_marker(name@),
{
    let chars = chars_of(name);
    chars.len() > 0 && separator(chars[chars.len() - 1])
}

/// The length of the first `len` characters of `chars` without their
/// trailing separators.
fn trim_end(chars: &Vec<char>, len: usize) -> (kept: usize)
    requires
        len <= chars.len(),
    ensures
        kept == trimmed_len(chars@.take(len as int)),
{
    let mut kept: usize = len;
    while kept > 0 && separator(chars[kept - 1])
        invariant
            kept <= len <= chars.len(),
            trimmed_len(chars@.take(len as int)) == trimmed_len(chars@.take(kept as int)),
        decreases kept,
    {
        assert(chars@.take(kept as int).drop_last() =~= chars@.take(kept - 1));
        kept -= 1;
    }
    kept
}

/// `name` without its trailing separators.
pub fn trim_separators(name: &str) -> (out: String)
    ensures
        out@ == trimmed(name@),
{
    let chars = chars_of(name);
    assert(chars@.take(chars.len() as int) =~= chars@);
    let kept = trim_end(&chars, chars.len());
    proof {
        lemma_trimmed_len(name@);
    }
    name.substring_char(0, kept).to_owned()
}

/// The directory that holds `name`.
pub fn parent(name: &str) -> (out: String)
    ensures
        out@ == parent_of(name@),
{
    let chars = chars_of(name);
    let mut end: usize = chars.len();
    assert(chars@.take(chars.len() as int) =~= chars@);
    while end > 0 && !separator(chars[end - 1])
        invariant
            end <= chars.len(),
            last_separator(chars@) == last_separator(chars@.take(end as int)),
        decreases end,
    {
        assert(chars@.take(end as int).drop_last() =~= chars@.take(end - 1));
        end -= 1;
    }
    if end == 0 {
        return String::new();
    }
    let kept = trim_end(&chars, end - 1);
    proof {
        lemma_trimmed_len(chars@.take(end - 1));
    }
    name.substring_char(0, kept).to_owned()
}

} // verus!
