//! Character-level text operations over `Seq<char>` models.
use vstd::prelude::*;
use vstd::string::StringExecFns;

verus! {

/// `pattern` occurs in `text` starting at index `at`.
pub open spec fn occurs_at(text: Seq<char>, pattern: Seq<char>, at: int) -> bool {
    &&& 0 <= at
    &&& at + pattern.len() <= text.len()
    &&& text.subrange(at, at + pattern.len()) == pattern
}

/// Index of the leftmost occurrence of `pattern` in `text` at or after `from`.
pub open spec fn first_occurrence_from(text: Seq<char>, pattern: Seq<char>, from: int) -> Option<int>
    decreases text.len() + 1 - from,
{
    if from < 0 || from + pattern.len() > text.len() {
        None
    } else if occurs_at(text, pattern, from) {
        Some(from)
    } else {
        first_occurrence_from(text, pattern, from + 1)
    }
}

/// Index of the leftmost occurrence of `pattern` in `text`.
pub open spec fn first_occurrence(text: Seq<char>, pattern: Seq<char>) -> Option<int> {
    first_occurrence_from(text, pattern, 0)
}

/// `text` with the leftmost occurrence of `pattern` replaced by `with`
/// (unchanged when `pattern` does not occur).
pub open spec fn replace_first_spec(text: Seq<char>, pattern: Seq<char>, with: Seq<char>) -> Seq<char> {
    match first_occurrence(text, pattern) {
        Some(i) => text.take(i) + with + text.skip(i + pattern.len()),
        None => text,
    }
}

/// `text` with every `from` character replaced by `to`.
pub open spec fn replace_char_spec(text: Seq<char>, from: char, to: char) -> Seq<char> {
    text.map_values(|c: char| if c == from { to } else { c })
}

/// `text` begins with `prefix`.
pub open spec fn has_prefix(text: Seq<char>, prefix: Seq<char>) -> bool {
    occurs_at(text, prefix, 0)
}

/// The leftmost occurrence at or after `from` is an occurrence, and no
/// earlier position from `from` on is one.
pub proof fn lemma_first_occurrence_from(text: Seq<char>, pattern: Seq<char>, from: int)
    requires
        0 <= from,
    ensures
        match first_occurrence_from(text, pattern, from) {
            Some(i) => {
                &&& from <= i
                &&& occurs_at(text, pattern, i)
                &&& forall|j: int| from <= j < i ==> !occurs_at(text, pattern, j)
            },
            None => forall|j: int| from <= j ==> !occurs_at(text, pattern, j),
        },
    decreases text.len() + 1 - from,
{
    if from + pattern.len() > text.len() {
    } else if occurs_at(text, pattern, from) {
    } else {
        lemma_first_occurrence_from(text, pattern, from + 1);
    }
}

/// Replacing the leftmost occurrence of a pattern in `p + pattern + q`,
/// where `p` holds no character that starts the pattern, gives `p + with + q`.
pub proof fn lemma_replace_first_after_plain_prefix(p: Seq<char>, pattern: Seq<char>, q: Seq<char>, with: Seq<char>)
    requires
        pattern.len() > 0,
        forall|k: int| 0 <= k < p.len() ==> p[k] != pattern[0],
    ensures
        replace_first_spec(p + pattern + q, pattern, with) == p + with + q,
{
    let t = p + pattern + q;
    let at = p.len() as int;
    assert(t.subrange(at, at + pattern.len()) =~= pattern);
    assert(occurs_at(t, pattern, at));
    assert forall|j: int| 0 <= j < at implies !occurs_at(t, pattern, j) by {
        if occurs_at(t, pattern, j) {
            assert(t.subrange(j, j + pattern.len())[0] == t[j]);
            assert(t[j] == p[j]);
        }
    }
    lemma_first_occurrence_from(t, pattern, 0);
    assert(first_occurrence(t, pattern) == Some(at));
    assert(t.take(at) =~= p);
    assert(t.skip(at + pattern.len()) =~= q);
}

/// Appends `c` to `s` through `String::push`. The contract claims what the
/// standard library documents: afterwards the string is the old one followed by `c`.
#[verifier::external_body]
fn push_char(s: &mut String, c: char)
    ensures
        final(s)@ == old(s)@.push(c),
{
    s.push(c);
}

/// The characters of `s`, in order.
pub fn chars_of(s: &str) -> (v: Vec<char>)
    ensures
        v@ == s@,
{
    broadcast use vstd::string::axiom_spec_iter;
    let mut v: Vec<char> = Vec::new();
    for c in it: s.chars()
        invariant
            it.seq() == s@,
            v@ == it.seq().take(it.index() as int),
    {
        v.push(c);
    }
    v
}

/// The string made of the characters `v`.
pub fn string_from_chars(v: &Vec<char>) -> (s: String)
    ensures
        s@ == v@,
{
    let mut s = String::new();
    let mut i: usize = 0;
    while i < v.len()
        invariant
            i <= v.len(),
            s@ == v@.take(i as int),
        decreases v.len() - i,
    {
        push_char(&mut s, v[i]);
        i = i + 1;
        assert(s@ == v@.take(i as int));
    }
    assert(v@.take(v.len() as int) == v@);
    s
}

/// Whether `pattern` occurs in `text` at index `at`.
fn occurs_at_index(text: &Vec<char>, pattern: &Vec<char>, at: usize) -> (b: bool)
    ensures
        b == occurs_at(text@, pattern@, at as int),
{
    if at > text.len() || pattern.len() > text.len() - at {
        return false;
    }
    let mut k: usize = 0;
    while k < pattern.len()
        invariant
            at + pattern.len() <= text.len(),
            k <= pattern.len(),
            forall|j: int| 0 <= j < k ==> text@[at + j] == pattern@[j],
        decreases pattern.len() - k,
    {
        if text[at + k] != pattern[k] {
            assert(text@.subrange(at as int, at + pattern.len())[k as int] != pattern@[k as int]);
            return false;
        }
        k = k + 1;
    }
    assert(text@.subrange(at as int, at + pattern.len()) =~= pattern@);
    true
}

/// Index of the leftmost occurrence of `pattern` in `text`.
pub fn find_first(text: &Vec<char>, pattern: &Vec<char>) -> (r: Option<usize>)
    ensures
        match first_occurrence(text@, pattern@) {
            Some(i) => r == Some(i as usize),
            None => r is None,
        },
{
    if pattern.len() > text.len() {
        return None;
    }
    let last = text.len() - pattern.len();
    let mut at: usize = 0;
    loop
        invariant
            last + pattern.len() == text.len(),
            at <= last,
            first_occurrence(text@, pattern@) == first_occurrence_from(text@, pattern@, at as int),
        decreases last - at,
    {
        if occurs_at_index(text, pattern, at) {
            return Some(at);
        }
        if at == last {
            assert(first_occurrence_from(text@, pattern@, at + 1) is None);
            return None;
        }
        at = at + 1;
    }
}


/// Appends `src[from..to]` to `out`.
fn extend_from_range(out: &mut Vec<char>, src: &Vec<char>, from: usize, to: usize)
    requires
        from <= to <= src.len(),
    ensures
        final(out)@ == old(out)@ + src@.subrange(from as int, to as int),
{
    let ghost start = out@;
    let mut k: usize = from;
    while k < to
        invariant
            from <= k <= to <= src.len(),
            out@ == start + src@.subrange(from as int, k as int),
        decreases to - k,
    {
        out.push(src[k]);
        k = k + 1;
        assert(out@ == start + src@.subrange(from as int, k as int));
    }
}

/// `text` with its leftmost occurrence of `pattern` replaced by `with`; the
/// text is returned unchanged when `pattern` does not occur in it.
pub fn replace_first(text: &str, pattern: &str, with: &str) -> (r: String)
    ensures
        r@ == replace_first_spec(text@, pattern@, with@),
{
    let t = chars_of(text);
    let p = chars_of(pattern);
    proof {
        lemma_first_occurrence_from(t@, p@, 0);
    }
    match find_first(&t, &p) {
        None => String::from_str(text),
        Some(i) => {
            assert(i + p@.len() <= t@.len());
            let w = chars_of(with);
            let mut out: Vec<char> = Vec::new();
            extend_from_range(&mut out, &t, 0, i);
            extend_from_range(&mut out, &w, 0, w.len());
            extend_from_range(&mut out, &t, i + p.len(), t.len());
            assert(w@.subrange(0, w@.len() as int) == w@);
            assert(out@ == t@.take(i as int) + w@ + t@.skip(i + p@.len()));
            string_from_chars(&out)
        },
    }
}

/// `text` with every `from` character replaced by `to`.
pub fn replace_char(text: &str, from: char, to: char) -> (r: String)
    ensures
        r@ == replace_char_spec(text@, from, to),
{
    let t = chars_of(text);
    let mut out: Vec<char> = Vec::with_capacity(t.len());
    let mut k: usize = 0;
    while k < t.len()
        invariant
            k <= t.len(),
            out@ == replace_char_spec(t@.take(k as int), from, to),
        decreases t.len() - k,
    {
        let c = t[k];
        if c == from {
            out.push(to);
        } else {
            out.push(c);
        }
        k = k + 1;
        assert(out@ =~= replace_char_spec(t@.take(k as int), from, to));
    }
    assert(t@.take(t.len() as int) == t@);
    string_from_chars(&out)
}

/// Whether `text` begins with `prefix`.
pub fn starts_with(text: &str, prefix: &str) -> (b: bool)
    ensures
        b == has_prefix(text@, prefix@),
{
    let t = chars_of(text);
    let p = chars_of(prefix);
    occurs_at_index(&t, &p, 0)
}

/// Whether `a` and `b` hold the same characters.
pub fn same_text(a: &str, b: &str) -> (r: bool)
    ensures
        r == (a@ == b@),
{
    let x = chars_of(a);
    let y = chars_of(b);
    if x.len() != y.len() {
        return false;
    }
    let mut k: usize = 0;
    while k < x.len()
        invariant
            x@ == a@,
            y@ == b@,
            x.len() == y.len(),
            k <= x.len(),
            forall|j: int| 0 <= j < k ==> x@[j] == y@[j],
        decreases x.len() - k,
    {
        if x[k] != y[k] {
            assert(x@[k as int] != y@[k as int]);
            return false;
        }
        k = k + 1;
    }
    assert(x@ =~= y@);
    true
}

} // verus!
