//! Character-level text operations: conversions between strings and character
//! vectors, substring search, replacement, and case handling.
use vstd::prelude::*;

verus! {

/// `String::push` appends the character to the end of the string.
pub assume_specification[ String::push ](s: &mut String, ch: char)
    ensures
        final(s)@ == old(s)@.push(ch),
;

/// What `str::to_lowercase` returns for a text: its Unicode lower-case form.
pub uninterp spec fn lowercase(text: Seq<char>) -> Seq<char>;

/// The lower-case form of an ASCII upper-case letter; every other character
/// is left as it is.
pub open spec fn fold_char(c: char) -> char {
    if 'A' <= c && c <= 'Z' {
        ((c as u8 + 32) as u8) as char
    } else {
        c
    }
}

/// A text with each ASCII upper-case letter replaced by its lower-case form.
pub open spec fn fold_ascii(text: Seq<char>) -> Seq<char> {
    Seq::new(text.len(), |i: int| fold_char(text[i]))
}

/// Two texts are equal up to the case of their ASCII letters.
pub open spec fn same_ignoring_ascii_case(a: Seq<char>, b: Seq<char>) -> bool {
    fold_ascii(a) == fold_ascii(b)
}

/// `needle` stands in `hay` at position `at`.
pub open spec fn occurs_at(hay: Seq<char>, needle: Seq<char>, at: int) -> bool {
    &&& 0 <= at
    &&& at + needle.len() <= hay.len()
    &&& hay.subrange(at, at + needle.len()) == needle
}

/// The first position at or after `from` where `needle` stands in `hay`.
pub open spec fn find_from(hay: Seq<char>, needle: Seq<char>, from: int) -> Option<int>
    decreases hay.len() - from,
{
    if from < 0 || from + needle.len() > hay.len() {
        None
    } else if needle.len() == 0 || occurs_at(hay, needle, from) {
        Some(from)
    } else {
        find_from(hay, needle, from + 1)
    }
}

/// `hay` from position `at` on, with every occurrence of `needle` replaced by
/// `token`. Occurrences are taken from left to right and do not overlap. An
/// empty `needle` occurs before every character and at the end.
pub open spec fn replace_from(hay: Seq<char>, needle: Seq<char>, token: Seq<char>, at: int) -> Seq<
    char,
>
    decreases hay.len() - at,
{
    if at < 0 || at + needle.len() > hay.len() {
        hay.skip(at)
    } else if needle.len() == 0 {
        if at == hay.len() {
            token
        } else {
            token + seq![hay[at]] + replace_from(hay, needle, token, at + 1)
        }
    } else if occurs_at(hay, needle, at) {
        token + replace_from(hay, needle, token, at + needle.len())
    } else {
        seq![hay[at]] + replace_from(hay, needle, token, at + 1)
    }
}

/// `hay` with every occurrence of `needle` replaced by `token`.
pub open spec fn replace_all(hay: Seq<char>, needle: Seq<char>, token: Seq<char>) -> Seq<char> {
    replace_from(hay, needle, token, 0)
}

/// `text` without `suffix` at its end; `text` itself where it does not end so.
pub open spec fn without_suffix(text: Seq<char>, suffix: Seq<char>) -> Seq<char> {
    if occurs_at(text, suffix, text.len() - suffix.len()) {
        text.take(text.len() - suffix.len())
    } else {
        text
    }
}

/// The views of a sequence of strings.
pub open spec fn texts(items: Seq<String>) -> Seq<Seq<char>> {
    Seq::new(items.len(), |i: int| items[i]@)
}

/// The views of a sequence with one more string are the views of the
/// sequence with one more view.
pub proof fn lemma_texts_push(items: Seq<String>, item: String)
    ensures
        texts(items.push(item)) == texts(items).push(item@),
{
    assert(texts(items.push(item)) =~= texts(items).push(item@));
}

/// Wraps `str::to_lowercase`. The result is named, not described: it is the
/// Unicode lower-case mapping of the whole text.
#[verifier::external_body]
pub(crate) fn to_lowercase(text: &str) -> (out: String)
    ensures
        out@ == lowercase(text@),
{
    text.to_lowercase()
}

/// Wraps `str::eq_ignore_ascii_case`, which std documents as comparing the
/// two texts after mapping the letters `A` to `Z` to `a` to `z`.
#[verifier::external_body]
pub(crate) fn eq_ignore_ascii_case(a: &str, b: &str) -> (same: bool)
    ensures
        same == same_ignoring_ascii_case(a@, b@),
{
    a.eq_ignore_ascii_case(b)
}

/// The characters of a string.
pub fn chars_of(text: &str) -> (out: Vec<char>)
    ensures
        out@ == text@,
{
    let mut out: Vec<char> = Vec::new();
    for c in it: text.chars()
        invariant
            out@ == it.seq().take(it.index()),
            it.seq() == text@,
    {
        out.push(c);
    }
    out
}

/// The string made of the characters `chars[from..to]`.
pub fn string_of(chars: &Vec<char>, from: usize, to: usize) -> (out: String)
    requires
        from <= to <= chars.len(),
    ensures
        out@ == chars@.subrange(from as int, to as int),
{
    let mut out = String::new();
    let mut i: usize = from;
    while i < to
        invariant
            from <= i <= to <= chars.len(),
            out@ == chars@.subrange(from as int, i as int),
        decreases to - i,
    {
        out.push(chars[i]);
        i += 1;
    }
    out
}

/// Tells whether `needle` stands in `hay` at position `at`.
pub fn matches_at(hay: &Vec<char>, needle: &Vec<char>, at: usize) -> (found: bool)
    ensures
        found == occurs_at(hay@, needle@, at as int),
{
    if needle.len() > hay.len() || at > hay.len() - needle.len() {
        return false;
    }
    let mut k: usize = 0;
    while k < needle.len()
        invariant
            k <= needle.len(),
            at + needle.len() <= hay.len(),
            forall|j: int| 0 <= j < k ==> hay@[at + j] == needle@[j],
        decreases needle.len() - k,
    {
        if hay[at + k] != needle[k] {
            proof {
                let part = hay@.subrange(at as int, at + needle.len());
                assert(part[k as int] == hay@[at + k]);
            }
            return false;
        }
        k += 1;
    }
    assert(hay@.subrange(at as int, at + needle.len()) =~= needle@);
    true
}

/// What `find_from` returns is the first occurrence at or after `from`.
pub proof fn lemma_find_from(hay: Seq<char>, needle: Seq<char>, from: int)
    requires
        0 <= from,
    ensures
        match find_from(hay, needle, from) {
            Some(at) => from <= at && occurs_at(hay, needle, at) && forall|j: int|
                from <= j < at ==> !occurs_at(hay, needle, j),
            None => forall|j: int| from <= j ==> !occurs_at(hay, needle, j),
        },
    decreases hay.len() - from,
{
    if from + needle.len() > hay.len() {
    } else if needle.len() == 0 {
        assert(hay.subrange(from, from + needle.len()) =~= needle);
    } else if occurs_at(hay, needle, from) {
    } else {
        lemma_find_from(hay, needle, from + 1);
    }
}

/// Finds the first occurrence of `needle` in `hay` at or after `from`.
pub fn find(hay: &Vec<char>, needle: &Vec<char>, from: usize) -> (found: Option<usize>)
    ensures
        match found {
            Some(at) => find_from(hay@, needle@, from as int) == Some(at as int),
            None => find_from(hay@, needle@, from as int) is None,
        },
{
    if needle.len() > hay.len() {
        return None;
    }
    let last: usize = hay.len() - needle.len();
    let mut i: usize = from;
    while i <= last
        invariant
            from <= i,
            last == hay.len() - needle.len(),
            find_from(hay@, needle@, from as int) == find_from(hay@, needle@, i as int),
        decreases last + 1 - i,
    {
        assert(needle@.len() == 0 ==> hay@.subrange(i as int, i as int) =~= needle@);
        if matches_at(hay, needle, i) {
            return Some(i);
        }
        if i == last {
            assert(find_from(hay@, needle@, i + 1) is None);
            return None;
        }
        i += 1;
    }
    None
}

/// Appends the characters of `items` to `out`.
pub fn push_all(out: &mut Vec<char>, items: &Vec<char>)
    ensures
        final(out)@ == old(out)@ + items@,
{
    let mut k: usize = 0;
    while k < items.len()
        invariant
            k <= items.len(),
            out@ == old(out)@ + items@.take(k as int),
        decreases items.len() - k,
    {
        out.push(items[k]);
        k += 1;
    }
}

/// Replaces every occurrence of `needle` in `hay` by `token`.
pub fn replace_chars(hay: &Vec<char>, needle: &Vec<char>, token: &Vec<char>) -> (out: Vec<char>)
    ensures
        out@ == replace_all(hay@, needle@, token@),
{
    let mut out: Vec<char> = Vec::new();
    let mut i: usize = 0;
    while i < hay.len()
        invariant
            i <= hay.len(),
            out@ + replace_from(hay@, needle@, token@, i as int) == replace_all(
                hay@,
                needle@,
                token@,
            ),
        decreases hay.len() - i,
    {
        let ghost before = out@;
        let ghost at = i as int;
        assert(needle@.len() == 0 ==> hay@.subrange(at, at) =~= needle@);
        if matches_at(hay, needle, i) {
            push_all(&mut out, token);
            if needle.len() > 0 {
                i += needle.len();
            } else {
                out.push(hay[i]);
                i += 1;
            }
        } else {
            proof {
                if at + needle.len() > hay.len() {
                    assert(hay@.skip(at) =~= seq![hay@[at]] + hay@.skip(at + 1));
                }
            }
            out.push(hay[i]);
            i += 1;
        }
        assert(out@ + replace_from(hay@, needle@, token@, i as int) =~= before + replace_from(
            hay@,
            needle@,
            token@,
            at,
        ));
    }
    if needle.len() == 0 {
        push_all(&mut out, token);
    }
    assert(out@ =~= replace_all(hay@, needle@, token@));
    out
}

} // verus!
