//! The path of the function that encloses a call site.
//!
//! A compiler names a closure after the function it is written in, followed
//! by a marker. A name taken from inside closures therefore ends in one
//! marker for each level of nesting. The enclosing scope of such a name is
//! what is left when all of them are taken off the end.

use vstd::prelude::*;

verus! {

/// The text that a compiler appends to a path for each closure: `::{{closure}}`.
pub open spec fn closure_marker() -> Seq<char> {
    seq![':', ':', '{', '{', 'c', 'l', 'o', 's', 'u', 'r', 'e', '}', '}']
}

/// Whether `text` ends in `tail`.
pub open spec fn has_suffix(text: Seq<char>, tail: Seq<char>) -> bool {
    tail.len() <= text.len() && text.subrange(text.len() - tail.len(), text.len() as int) == tail
}

/// Whether `part` stands somewhere in `text`.
pub open spec fn occurs_in(part: Seq<char>, text: Seq<char>) -> bool {
    exists|at: int|
        0 <= at && at + part.len() <= text.len() && #[trigger] text.subrange(
            at,
            at + part.len(),
        ) == part
}

/// `raw` without the closure markers at its end.
pub open spec fn enclosing_scope(raw: Seq<char>) -> Seq<char>
    decreases raw.len(),
{
    if has_suffix(raw, closure_marker()) {
        enclosing_scope(raw.subrange(0, raw.len() - closure_marker().len()))
    } else {
        raw
    }
}

/// `path` as it is seen from inside `depth` closures.
pub open spec fn nested(path: Seq<char>, depth: nat) -> Seq<char>
    decreases depth,
{
    if depth == 0 {
        path
    } else {
        nested(path, (depth - 1) as nat) + closure_marker()
    }
}

/// A name that does not end in a closing brace has no closure marker at
/// its end: it is its own enclosing scope.
pub proof fn lemma_scope_of_plain_name(raw: Seq<char>)
    requires
        raw.len() == 0 || raw.last() != '}',
    ensures
        enclosing_scope(raw) == raw,
{
    if has_suffix(raw, closure_marker()) {
        let width = closure_marker().len();
        assert(raw.subrange(raw.len() - width, raw.len() as int)[width - 1] == raw.last());
    }
}

/// The enclosing scope ends in no closure marker.
pub proof fn lemma_scope_is_bare(raw: Seq<char>)
    ensures
        !has_suffix(enclosing_scope(raw), closure_marker()),
    decreases raw.len(),
{
    if has_suffix(raw, closure_marker()) {
        lemma_scope_is_bare(raw.subrange(0, raw.len() - closure_marker().len()));
    }
}

/// Taking the enclosing scope a second time changes nothing.
pub proof fn lemma_scope_is_fixed(raw: Seq<char>)
    ensures
        enclosing_scope(enclosing_scope(raw)) == enclosing_scope(raw),
{
    lemma_scope_is_bare(raw);
}

/// A name is its enclosing scope seen from inside some number of closures.
pub proof fn lemma_scope_depth(raw: Seq<char>) -> (depth: nat)
    ensures
        raw == nested(enclosing_scope(raw), depth),
    decreases raw.len(),
{
    if has_suffix(raw, closure_marker()) {
        let head = raw.subrange(0, raw.len() - closure_marker().len());
        let inner = lemma_scope_depth(head);
        assert(raw =~= head + closure_marker());
        inner + 1
    } else {
        0
    }
}

/// From inside any number of closures, the enclosing scope of a path that
/// ends in no marker is that path.
pub proof fn lemma_scope_of_nested(path: Seq<char>, depth: nat)
    requires
        !has_suffix(path, closure_marker()),
    ensures
        enclosing_scope(nested(path, depth)) == path,
    decreases depth,
{
    if depth > 0 {
        let inner = nested(path, (depth - 1) as nat);
        let whole = inner + closure_marker();
        assert(whole.subrange(whole.len() - closure_marker().len(), whole.len() as int)
            =~= closure_marker());
        assert(whole.subrange(0, whole.len() - closure_marker().len()) =~= inner);
        lemma_scope_of_nested(path, (depth - 1) as nat);
    }
}

/// Where the path of a function holds no closure marker, neither does the
/// enclosing scope of a name taken inside closures in it.
pub proof fn lemma_scope_holds_no_marker(path: Seq<char>, depth: nat)
    requires
        !occurs_in(closure_marker(), path),
    ensures
        enclosing_scope(nested(path, depth)) == path,
        !occurs_in(closure_marker(), enclosing_scope(nested(path, depth))),
{
    if has_suffix(path, closure_marker()) {
        let at = path.len() - closure_marker().len();
        assert(path.subrange(at, at + closure_marker().len()) == closure_marker());
    }
    lemma_scope_of_nested(path, depth);
}

/// Whether the first `end` characters of `text` end in `tail`.
fn ends_with_at(text: &str, end: usize, tail: &str) -> (found: bool)
    requires
        end <= text@.len(),
    ensures
        found == has_suffix(text@.subrange(0, end as int), tail@),
{
    let width: usize = tail.unicode_len();
    if width > end {
        return false;
    }
    let start: usize = end - width;
    let ghost head = text@.subrange(0, end as int);
    let ghost window = head.subrange(head.len() - tail@.len(), head.len() as int);
    let mut i: usize = 0;
    while i < width
        invariant
            i <= width,
            width == tail@.len(),
            start + width == end,
            end <= text@.len(),
            head == text@.subrange(0, end as int),
            window == head.subrange(head.len() - tail@.len(), head.len() as int),
            forall|k: int| 0 <= k < i ==> window[k] == tail@[k],
        decreases width - i,
    {
        let seen: char = text.get_char(start + i);
        let wanted: char = tail.get_char(i);
        assert(window[i as int] == text@[start + i]);
        if seen != wanted {
            assert(window != tail@);
            return false;
        }
        i = i + 1;
    }
    assert(window =~= tail@);
    true
}

/// The path of the function that encloses the place where `raw` was taken:
/// `raw` without the closure markers at its end.
pub fn scope_of(raw: &str) -> (path: String)
    ensures
        path@ == enclosing_scope(raw@),
{
    let marker: &str = "::{{closure}}";
    proof {
        reveal_strlit("::{{closure}}");
        assert(marker@ =~= closure_marker());
    }
    let width: usize = marker.unicode_len();
    let mut end: usize = raw.unicode_len();
    assert(raw@.subrange(0, end as int) =~= raw@);
    while ends_with_at(raw, end, marker)
        invariant
            end <= raw@.len(),
            marker@ == closure_marker(),
            width == closure_marker().len(),
            enclosing_scope(raw@) == enclosing_scope(raw@.subrange(0, end as int)),
        decreases end,
    {
        let ghost head = raw@.subrange(0, end as int);
        assert(head.subrange(0, head.len() - closure_marker().len()) =~= raw@.subrange(
            0,
            end - width,
        ));
        end = end - width;
    }
    String::from_str(raw.substring_char(0, end))
}

} // verus!
