//! Text helpers over `&str`, specified on the character sequence of the text.

use vstd::prelude::*;

verus! {

/// The text before the first `sep`, or all of `s` when `sep` does not occur.
pub open spec fn before_first(s: Seq<char>, sep: char) -> Seq<char> {
    match s.index_of_first(sep) {
        Some(i) => s.take(i),
        None => s,
    }
}

/// The text after the last `sep`, or all of `s` when `sep` does not occur.
pub open spec fn after_last(s: Seq<char>, sep: char) -> Seq<char> {
    match s.index_of_last(sep) {
        Some(i) => s.skip(i + 1),
        None => s,
    }
}

/// `s` without its trailing run of `c`.
pub open spec fn trim_end(s: Seq<char>, c: char) -> Seq<char>
    decreases s.len(),
{
    if s.len() > 0 && s.last() == c {
        trim_end(s.drop_last(), c)
    } else {
        s
    }
}

/// The view of a list of texts.
pub open spec fn texts(list: Seq<String>) -> Seq<Seq<char>> {
    list.map_values(|s: String| s@)
}

/// The view of an optional text.
pub open spec fn text_opt(o: Option<String>) -> Option<Seq<char>> {
    match o {
        Some(s) => Some(s@),
        None => None,
    }
}

/// The view of an optional text slice.
pub open spec fn str_opt(o: Option<&str>) -> Option<Seq<char>> {
    match o {
        Some(s) => Some(s@),
        None => None,
    }
}

/// A copy of an optional text.
pub fn copy_text_opt(o: &Option<String>) -> (out: Option<String>)
    ensures
        text_opt(out) == text_opt(*o),
{
    match o {
        Some(s) => Some(s.clone()),
        None => None,
    }
}

/// `std`'s equality on string slices compares their contents.
pub assume_specification[ <str as PartialEq>::eq ](a: &str, b: &str) -> (same: bool)
    ensures
        same == (a@ == b@),
;

/// Whether `a` and `b` hold the same text.
pub fn same_text(a: &str, b: &str) -> (same: bool)
    ensures
        same == (a@ == b@),
{
    *a == *b
}

/// The characters of `s`, in order.
pub fn chars_of(s: &str) -> (out: Vec<char>)
    ensures
        out@ == s@,
{
    let mut out: Vec<char> = Vec::new();
    for ch in it: s.chars()
        invariant
            it.seq() == s@,
            out@ == s@.take(it.index() as int),
    {
        out.push(ch);
        assert(s@.take(it.index() + 1) =~= s@.take(it.index() as int).push(ch));
    }
    assert(s@.take(s@.len() as int) =~= s@);
    out
}

/// Whether `s` begins with `prefix`.
pub fn has_prefix(s: &str, prefix: &str) -> (yes: bool)
    ensures
        yes == prefix@.is_prefix_of(s@),
{
    let text = chars_of(s);
    let head = chars_of(prefix);
    if head.len() > text.len() {
        return false;
    }
    let mut i: usize = 0;
    while i < head.len()
        invariant
            i <= head.len() <= text.len(),
            head@ == prefix@,
            text@ == s@,
            forall|j: int| 0 <= j < i ==> head@[j] == text@[j],
        decreases head.len() - i,
    {
        if head[i] != text[i] {
            assert(prefix@[i as int] != s@.subrange(0, prefix@.len() as int)[i as int]);
            return false;
        }
        i = i + 1;
    }
    assert(prefix@ =~= s@.subrange(0, prefix@.len() as int));
    true
}

/// Position of the first `sep` in `s`.
pub fn find_first(s: &str, sep: char) -> (at: Option<usize>)
    ensures
        at is Some <==> s@.contains(sep),
        at matches Some(i) ==> i < s@.len() && s@.index_of_first(sep) == Some(i as int),
        at is None ==> s@.index_of_first(sep) is None,
{
    let text = chars_of(s);
    let mut i: usize = 0;
    while i < text.len()
        invariant
            i <= text.len(),
            text@ == s@,
            forall|j: int| 0 <= j < i ==> s@[j] != sep,
        decreases text.len() - i,
    {
        if text[i] == sep {
            proof {
                s@.index_of_first_ensures(sep);
                let k = s@.index_of_first(sep).unwrap();
                assert(s@[i as int] == sep);
                assert(k == i);
            }
            return Some(i);
        }
        i = i + 1;
    }
    proof {
        s@.index_of_first_ensures(sep);
    }
    None
}

/// Position of the last `sep` in `s`.
pub fn find_last(s: &str, sep: char) -> (at: Option<usize>)
    ensures
        at is Some <==> s@.contains(sep),
        at matches Some(i) ==> i < s@.len() && s@.index_of_last(sep) == Some(i as int),
        at is None ==> s@.index_of_last(sep) is None,
{
    let text = chars_of(s);
    let mut i: usize = text.len();
    while i > 0
        invariant
            i <= text.len(),
            text@ == s@,
            forall|j: int| i <= j < s@.len() ==> s@[j] != sep,
        decreases i,
    {
        i = i - 1;
        if text[i] == sep {
            proof {
                s@.index_of_last_ensures(sep);
                let k = s@.index_of_last(sep).unwrap();
                assert(s@[i as int] == sep);
                assert(k == i);
            }
            return Some(i);
        }
    }
    proof {
        s@.index_of_last_ensures(sep);
    }
    None
}

/// The part of `s` before its first `sep`; all of `s` when there is none.
pub fn head_before<'a>(s: &'a str, sep: char) -> (head: &'a str)
    ensures
        head@ == before_first(s@, sep),
{
    match find_first(s, sep) {
        Some(i) => s.substring_char(0, i),
        None => s,
    }
}

/// The part of `s` after its last `sep`; all of `s` when there is none.
pub fn tail_after<'a>(s: &'a str, sep: char) -> (tail: &'a str)
    ensures
        tail@ == after_last(s@, sep),
{
    match find_last(s, sep) {
        Some(i) => {
            let n = s.unicode_len();
            s.substring_char(i + 1, n)
        },
        None => s,
    }
}

/// `s` with every trailing `c` removed.
pub fn without_trailing<'a>(s: &'a str, c: char) -> (kept: &'a str)
    ensures
        kept@ == trim_end(s@, c),
{
    let text = chars_of(s);
    let mut end: usize = text.len();
    assert(s@.take(end as int) =~= s@);
    while end > 0 && text[end - 1] == c
        invariant
            end <= text.len(),
            text@ == s@,
            trim_end(s@, c) == trim_end(s@.take(end as int), c),
        decreases end,
    {
        assert(s@.take(end as int).drop_last() =~= s@.take(end - 1));
        end = end - 1;
    }
    s.substring_char(0, end)
}

/// `a` followed by `b`.
pub fn join2(a: &str, b: &str) -> (out: String)
    ensures
        out@ == a@ + b@,
{
    let mut out = String::from_str(a);
    out.append(b);
    out
}

/// `a`, `b` and `c` in a row.
pub fn join3(a: &str, b: &str, c: &str) -> (out: String)
    ensures
        out@ == a@ + b@ + c@,
{
    let mut out = String::from_str(a);
    out.append(b);
    out.append(c);
    out
}

/// Whether `list` holds `name`.
pub fn holds(list: &[String], name: &str) -> (found: bool)
    ensures
        found == texts(list@).contains(name@),
{
    let mut i: usize = 0;
    while i < list.len()
        invariant
            i <= list.len(),
            forall|j: int| 0 <= j < i ==> texts(list@)[j] != name@,
        decreases list.len() - i,
    {
        if same_text(list[i].as_str(), name) {
            assert(texts(list@)[i as int] == name@);
            return true;
        }
        i = i + 1;
    }
    false
}

} // verus!
