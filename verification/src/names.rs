//! Node names: the prefix that marks a collider, the segment that names the
//! node to hand the shape to, and comparison up to surrounding whitespace.

use vstd::prelude::*;
use vstd::string::*;

verus! {

/// Whether `text` starts with `prefix`.
pub open spec fn has_prefix(text: Seq<char>, prefix: Seq<char>) -> bool {
    prefix.len() <= text.len() && text.subrange(0, prefix.len() as int) == prefix
}

/// Whether `pattern` stands in `text` at the place `at`.
pub open spec fn occurs_at(text: Seq<char>, pattern: Seq<char>, at: int) -> bool {
    0 <= at && at + pattern.len() <= text.len() && text.subrange(at, at + pattern.len())
        == pattern
}

/// The last place at or before `bound` where `pattern` stands in `text`.
pub open spec fn occurrence_before(text: Seq<char>, pattern: Seq<char>, bound: int) -> Option<int>
    decreases bound + 1,
{
    if bound < 0 {
        None
    } else if occurs_at(text, pattern, bound) {
        Some(bound)
    } else {
        occurrence_before(text, pattern, bound - 1)
    }
}

/// The last place where `pattern` stands in `text`.
pub open spec fn last_occurrence(text: Seq<char>, pattern: Seq<char>) -> Option<int> {
    occurrence_before(text, pattern, text.len() - pattern.len())
}

/// What follows the last occurrence of `pattern` in `text`; `None` where
/// `pattern` does not occur.
pub open spec fn after_last(text: Seq<char>, pattern: Seq<char>) -> Option<Seq<char>> {
    match last_occurrence(text, pattern) {
        Some(at) => Some(text.skip(at + pattern.len())),
        None => None,
    }
}

/// What `occurrence_before` finds is an occurrence, and no later one lies at
/// or before the bound.
pub proof fn lemma_occurrence_before(text: Seq<char>, pattern: Seq<char>, bound: int)
    ensures
        match occurrence_before(text, pattern, bound) {
            Some(at) => 0 <= at <= bound && occurs_at(text, pattern, at) && forall|later: int|
                at < later <= bound ==> !occurs_at(text, pattern, later),
            None => forall|at: int| 0 <= at <= bound ==> !occurs_at(text, pattern, at),
        },
    decreases bound + 1,
{
    if bound >= 0 && !occurs_at(text, pattern, bound) {
        lemma_occurrence_before(text, pattern, bound - 1);
    }
}

/// Whether `c` is whitespace: a character with the Unicode property
/// `White_Space`.
pub open spec fn is_whitespace(c: char) -> bool {
    let n = c as u32;
    (0x09 <= n <= 0x0D) || n == 0x20 || n == 0x85 || n == 0xA0 || n == 0x1680 || (0x2000 <= n
        <= 0x200A) || n == 0x2028 || n == 0x2029 || n == 0x202F || n == 0x205F || n == 0x3000
}

/// `text` without the whitespace at its start.
pub open spec fn trim_start(text: Seq<char>) -> Seq<char>
    decreases text.len(),
{
    if text.len() > 0 && is_whitespace(text[0]) {
        trim_start(text.drop_first())
    } else {
        text
    }
}

/// `text` without the whitespace at its end.
pub open spec fn trim_end(text: Seq<char>) -> Seq<char>
    decreases text.len(),
{
    if text.len() > 0 && is_whitespace(text.last()) {
        trim_end(text.drop_last())
    } else {
        text
    }
}

/// `text` without the whitespace at its start and at its end.
pub open spec fn trimmed(text: Seq<char>) -> Seq<char> {
    trim_end(trim_start(text))
}

/// Whether a character is whitespace.
pub fn char_is_whitespace(c: char) -> (r: bool)
    ensures
        r == is_whitespace(c),
{
    let n: u32 = c as u32;
    (0x09 <= n && n <= 0x0D) || n == 0x20 || n == 0x85 || n == 0xA0 || n == 0x1680 || (0x2000 <= n
        && n <= 0x200A) || n == 0x2028 || n == 0x2029 || n == 0x202F || n == 0x205F || n
        == 0x3000
}

/// The characters of a piece of text.
pub fn chars_of(text: &str) -> (chars: Vec<char>)
    ensures
        chars@ == text@,
{
    let len = text.unicode_len();
    let mut chars: Vec<char> = Vec::new();
    let mut i: usize = 0;
    while i < len
        invariant
            i <= len,
            len == text@.len(),
            chars@ == text@.take(i as int),
        decreases len - i,
    {
        chars.push(text.get_char(i));
        i += 1;
    }
    chars
}

/// Whether `pattern` stands in `text` at the place `at`.
fn matches_at(text: &Vec<char>, pattern: &Vec<char>, at: usize) -> (r: bool)
    requires
        at + pattern.len() <= text.len(),
    ensures
        r == occurs_at(text@, pattern@, at as int),
{
    let mut i: usize = 0;
    while i < pattern.len()
        invariant
            i <= pattern.len(),
            at + pattern.len() <= text.len(),
            forall|k: int| 0 <= k < i ==> text@[at + k] == pattern@[k],
        decreases pattern.len() - i,
    {
        if text[at + i] != pattern[i] {
            return false;
        }
        i += 1;
    }
    assert(text@.subrange(at as int, at + pattern.len()) =~= pattern@);
    true
}

/// Whether `text` starts with `prefix`.
pub fn starts_with(text: &Vec<char>, prefix: &Vec<char>) -> (r: bool)
    ensures
        r == has_prefix(text@, prefix@),
{
    if prefix.len() > text.len() {
        return false;
    }
    matches_at(text, prefix, 0)
}

/// The place behind the last occurrence of `pattern` in `text`.
pub fn end_of_last_occurrence(text: &Vec<char>, pattern: &Vec<char>) -> (r: Option<usize>)
    ensures
        match r {
            Some(from) => {
                &&& pattern.len() <= from <= text.len()
                &&& after_last(text@, pattern@) == Some(text@.skip(from as int))
                &&& occurs_at(text@, pattern@, from - pattern.len())
                &&& forall|later: int|
                    from - pattern.len() < later ==> !occurs_at(text@, pattern@, later)
            },
            None => {
                &&& after_last(text@, pattern@) is None
                &&& forall|at: int| !occurs_at(text@, pattern@, at)
            },
        },
{
    if pattern.len() > text.len() {
        return None;
    }
    let mut bound: usize = text.len() - pattern.len();
    loop
        invariant
            bound + pattern.len() <= text.len(),
            last_occurrence(text@, pattern@) == occurrence_before(text@, pattern@, bound as int),
        decreases bound,
    {
        proof {
            lemma_occurrence_before(text@, pattern@, text@.len() - pattern@.len());
        }
        if matches_at(text, pattern, bound) {
            return Some(bound + pattern.len());
        }
        if bound == 0 {
            assert(occurrence_before(text@, pattern@, -1) is None);
            return None;
        }
        bound -= 1;
    }
}

proof fn lemma_trim_start_skip(text: Seq<char>, count: int)
    requires
        0 <= count <= text.len(),
        forall|k: int| 0 <= k < count ==> is_whitespace(text[k]),
    ensures
        trim_start(text) == trim_start(text.skip(count)),
    decreases count,
{
    if count > 0 {
        lemma_trim_start_skip(text, count - 1);
        assert(text.skip(count - 1).drop_first() == text.skip(count));
    } else {
        assert(text.skip(0) == text);
    }
}

proof fn lemma_trim_end_take(text: Seq<char>, count: int)
    requires
        0 <= count <= text.len(),
        forall|k: int| count <= k < text.len() ==> is_whitespace(text[k]),
    ensures
        trim_end(text) == trim_end(text.take(count)),
    decreases text.len() - count,
{
    if count < text.len() {
        lemma_trim_end_take(text, count + 1);
        assert(text.take(count + 1).drop_last() == text.take(count));
    } else {
        assert(text.take(count) == text);
    }
}

/// The bounds of `text[from..]` without the whitespace round it.
fn trimmed_bounds(text: &Vec<char>, from: usize) -> (r: (usize, usize))
    requires
        from <= text.len(),
    ensures
        from <= r.0 <= r.1 <= text.len(),
        text@.subrange(r.0 as int, r.1 as int) == trimmed(text@.skip(from as int)),
{
    let ghost whole = text@.skip(from as int);
    let mut start: usize = from;
    while start < text.len() && char_is_whitespace(text[start])
        invariant
            from <= start <= text.len(),
            whole == text@.skip(from as int),
            forall|k: int| 0 <= k < start - from ==> is_whitespace(whole[k]),
        decreases text.len() - start,
    {
        start += 1;
    }
    proof {
        lemma_trim_start_skip(whole, start - from);
        assert(whole.skip(start - from) == text@.skip(start as int));
    }
    let ghost front = text@.skip(start as int);
    let mut end: usize = text.len();
    while end > start && char_is_whitespace(text[end - 1])
        invariant
            start <= end <= text.len(),
            front == text@.skip(start as int),
            forall|k: int| end - start <= k < front.len() ==> is_whitespace(front[k]),
        decreases end,
    {
        end -= 1;
    }
    proof {
        lemma_trim_end_take(front, end - start);
    }
    (start, end)
}

/// Whether two texts are the same once the whitespace round each is taken
/// off.
pub fn same_trimmed(a: &Vec<char>, b: &Vec<char>) -> (r: bool)
    ensures
        r == (trimmed(a@) == trimmed(b@)),
{
    assert(a@.skip(0) == a@);
    assert(b@.skip(0) == b@);
    same_trimmed_from(a, 0, b, 0)
}

/// Whether `a[a_from..]` and `b[b_from..]` are the same once the whitespace
/// round each is taken off.
pub(crate) fn same_trimmed_from(
    a: &Vec<char>,
    a_from: usize,
    b: &Vec<char>,
    b_from: usize,
) -> (r: bool)
    requires
        a_from <= a.len(),
        b_from <= b.len(),
    ensures
        r == (trimmed(a@.skip(a_from as int)) == trimmed(b@.skip(b_from as int))),
{
    let (a_start, a_end) = trimmed_bounds(a, a_from);
    let (b_start, b_end) = trimmed_bounds(b, b_from);
    let ghost left = a@.subrange(a_start as int, a_end as int);
    let ghost right = b@.subrange(b_start as int, b_end as int);
    if a_end - a_start != b_end - b_start {
        assert(left.len() != right.len());
        return false;
    }
    let len: usize = a_end - a_start;
    let mut i: usize = 0;
    while i < len
        invariant
            i <= len,
            len == a_end - a_start,
            len == b_end - b_start,
            a_end <= a.len(),
            b_end <= b.len(),
            left == a@.subrange(a_start as int, a_end as int),
            right == b@.subrange(b_start as int, b_end as int),
            left == trimmed(a@.skip(a_from as int)),
            right == trimmed(b@.skip(b_from as int)),
            forall|k: int| 0 <= k < i ==> left[k] == right[k],
        decreases len - i,
    {
        if a[a_start + i] != b[b_start + i] {
            assert(left[i as int] != right[i as int]);
            return false;
        }
        i += 1;
    }
    assert(left =~= right);
    true
}

} // verus!
