//! Character sequences: suffix and substring tests, and lowercase folding.

use vstd::prelude::*;

verus! {

/// `s` ends with `suffix`.
pub open spec fn has_suffix(s: Seq<char>, suffix: Seq<char>) -> bool {
    suffix.len() <= s.len() && s.subrange(s.len() - suffix.len(), s.len() as int) == suffix
}

/// `pattern` occurs in `s` starting at position `at`.
pub open spec fn occurs_at(s: Seq<char>, pattern: Seq<char>, at: int) -> bool {
    0 <= at && at + pattern.len() <= s.len() && s.subrange(at, at + pattern.len()) == pattern
}

/// `pattern` occurs somewhere in `s`.
pub open spec fn has_infix(s: Seq<char>, pattern: Seq<char>) -> bool {
    exists|at: int| occurs_at(s, pattern, at)
}

/// Some member of `table` is a suffix of `s`.
pub open spec fn any_suffix(s: Seq<char>, table: Seq<Seq<char>>) -> bool {
    exists|k: int| 0 <= k < table.len() && has_suffix(s, #[trigger] table[k])
}

/// Some member of `table` occurs in `s`.
pub open spec fn any_infix(s: Seq<char>, table: Seq<Seq<char>>) -> bool {
    exists|k: int| 0 <= k < table.len() && has_infix(s, #[trigger] table[k])
}

/// The characters of `s`, in order.
pub fn chars_of(s: &str) -> (out: Vec<char>)
    ensures
        out@ == s@,
{
    let mut out: Vec<char> = Vec::new();
    for c in it: s.chars()
        invariant
            out@ == it.seq().take(it.index()),
            it.seq() == s@,
    {
        proof {
            it.seq().lemma_take_succ_push(it.index());
        }
        out.push(c);
    }
    out
}

/// Whether `pattern` occurs in `s` at `at`.
pub fn matches_at(s: &Vec<char>, pattern: &Vec<char>, at: usize) -> (found: bool)
    ensures
        found == occurs_at(s@, pattern@, at as int),
{
    let n: usize = pattern.len();
    if n > s.len() || at > s.len() - n {
        return false;
    }
    let mut k: usize = 0;
    while k < n
        invariant
            n == pattern.len(),
            at + n <= s.len(),
            k <= n,
            forall|j: int| 0 <= j < k ==> s@[at + j] == pattern@[j],
        decreases n - k,
    {
        if s[at + k] != pattern[k] {
            return false;
        }
        k += 1;
    }
    assert(s@.subrange(at as int, at + n) =~= pattern@);
    true
}

/// Whether `s` ends with `suffix`.
pub fn ends_with(s: &Vec<char>, suffix: &Vec<char>) -> (found: bool)
    ensures
        found == has_suffix(s@, suffix@),
{
    if suffix.len() > s.len() {
        return false;
    }
    matches_at(s, suffix, s.len() - suffix.len())
}

/// Whether `pattern` occurs anywhere in `s`.
pub fn contains(s: &Vec<char>, pattern: &Vec<char>) -> (found: bool)
    ensures
        found == has_infix(s@, pattern@),
{
    if pattern.len() > s.len() {
        return false;
    }
    let last: usize = s.len() - pattern.len();
    let mut at: usize = 0;
    loop
        invariant
            last == s.len() - pattern.len(),
            at <= last,
            forall|j: int| 0 <= j < at ==> !occurs_at(s@, pattern@, j),
        decreases last - at,
    {
        if matches_at(s, pattern, at) {
            return true;
        }
        if at == last {
            return false;
        }
        at += 1;
    }
}

/// Whether some member of `table` is a suffix of `s`.
pub fn ends_with_any(s: &Vec<char>, table: &Vec<Vec<char>>) -> (found: bool)
    ensures
        found == any_suffix(s@, table.deep_view()),
{
    let mut k: usize = 0;
    while k < table.len()
        invariant
            k <= table.len(),
            forall|j: int| 0 <= j < k ==> !has_suffix(s@, #[trigger] table.deep_view()[j]),
        decreases table.len() - k,
    {
        assert(table.deep_view()[k as int] == table@[k as int]@);
        if ends_with(s, &table[k]) {
            return true;
        }
        k += 1;
    }
    false
}

/// Whether some member of `table` occurs in `s`.
pub fn contains_any(s: &Vec<char>, table: &Vec<Vec<char>>) -> (found: bool)
    ensures
        found == any_infix(s@, table.deep_view()),
{
    let mut k: usize = 0;
    while k < table.len()
        invariant
            k <= table.len(),
            forall|j: int| 0 <= j < k ==> !has_infix(s@, #[trigger] table.deep_view()[j]),
        decreases table.len() - k,
    {
        assert(table.deep_view()[k as int] == table@[k as int]@);
        if contains(s, &table[k]) {
            return true;
        }
        k += 1;
    }
    false
}

/// The lowercase form of a string, as `str::to_lowercase` computes it from
/// the Unicode case tables.
pub uninterp spec fn lowercase(s: Seq<char>) -> Seq<char>;

/// Calls `str::to_lowercase`. The result is a function of the characters of
/// `s` alone; it is given the name [`lowercase`] and nothing else is claimed
/// of it.
#[verifier::external_body]
fn to_lowercase(s: &str) -> (lowered: String)
    ensures
        lowered@ == lowercase(s@),
{
    s.to_lowercase()
}

/// The characters of the lowercase form of `s`.
pub fn lowercase_chars(s: &str) -> (out: Vec<char>)
    ensures
        out@ == lowercase(s@),
{
    let lowered = to_lowercase(s);
    chars_of(lowered.as_str())
}

} // verus!
