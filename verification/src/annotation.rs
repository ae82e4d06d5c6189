//! Removal of a parenthetical annotation such as ` (US)` from a text.
use regex::Regex;
use vstd::prelude::*;

verus! {

/// The pattern of an annotation: a space, an opening parenthesis, as many
/// characters of the same line as possible, a closing parenthesis.
pub const ANNOTATION_PATTERN: &'static str = " \\(.*\\)";

/// `text[start..=end]` is a space, an opening parenthesis, characters of one
/// line, and a closing parenthesis.
pub open spec fn annotation_at(text: Seq<char>, start: int, end: int) -> bool {
    &&& 0 <= start
    &&& start + 2 <= end < text.len()
    &&& text[start] == ' '
    &&& text[start + 1] == '('
    &&& text[end] == ')'
    &&& forall|k: int| start + 2 <= k < end ==> text[k] != '\n'
}

/// Some part of `text` is an annotation.
pub open spec fn has_annotation(text: Seq<char>) -> bool {
    exists|start: int, end: int| annotation_at(text, start, end)
}

/// `text[start..=end]` is the annotation that begins first, taken as long as
/// it can be.
pub open spec fn first_annotation(text: Seq<char>, start: int, end: int) -> bool {
    &&& annotation_at(text, start, end)
    &&& forall|s: int, e: int| annotation_at(text, s, e) ==> start <= s
    &&& forall|e: int| annotation_at(text, start, e) ==> e <= end
}

/// `out` is `text` without its first annotation; a text that holds none is
/// left as it is.
pub open spec fn stripped(text: Seq<char>, out: Seq<char>) -> bool {
    if has_annotation(text) {
        exists|start: int, end: int|
            first_annotation(text, start, end) && out == text.subrange(0, start) + text.subrange(
                end + 1,
                text.len() as int,
            )
    } else {
        out == text
    }
}

/// No annotation of `text` begins behind the end of its first one.
pub open spec fn annotations_overlap(text: Seq<char>) -> bool {
    forall|start: int, end: int, s: int, e: int|
        #[trigger] first_annotation(text, start, end) && #[trigger] annotation_at(text, s, e) ==> s
            <= end
}

/// Wraps `Regex::new` and `Regex::replace` of the regex crate, called with an
/// empty replacement. The contract is stated for the annotation pattern alone
/// and rests on the crate's documented matching rules: the match that begins
/// leftmost is taken, `.*` takes as much as it can, `.` matches every
/// character but a line feed, and only that one match is replaced.
#[verifier::external_body]
fn remove_first_match(pattern: &str, text: &str) -> (out: String)
    requires
        pattern@ == ANNOTATION_PATTERN@,
    ensures
        stripped(text@, out@),
{
    Regex::new(pattern).unwrap().replace(text, "").into_owned()
}

/// Removes the first annotation from `text`.
pub fn strip_annotation(text: &str) -> (out: String)
    ensures
        stripped(text@, out@),
{
    remove_first_match(ANNOTATION_PATTERN, text)
}

/// What `stripped` allows is one text only.
pub proof fn lemma_stripped_is_unique(text: Seq<char>, a: Seq<char>, b: Seq<char>)
    requires
        stripped(text, a),
        stripped(text, b),
    ensures
        a == b,
{
    if has_annotation(text) {
        let (s1, e1) = choose|s: int, e: int|
            first_annotation(text, s, e) && a == text.subrange(0, s) + text.subrange(
                e + 1,
                text.len() as int,
            );
        let (s2, e2) = choose|s: int, e: int|
            first_annotation(text, s, e) && b == text.subrange(0, s) + text.subrange(
                e + 1,
                text.len() as int,
            );
        assert(s1 == s2);
        assert(e1 == e2);
    }
}

/// A stripped text holds no annotation, provided that no annotation of the
/// text began behind the end of the one that was removed.
pub proof fn lemma_stripped_is_clean(text: Seq<char>, out: Seq<char>)
    requires
        stripped(text, out),
        annotations_overlap(text),
    ensures
        !has_annotation(out),
{
    if has_annotation(text) {
        let (i, j) = choose|s: int, e: int|
            first_annotation(text, s, e) && out == text.subrange(0, s) + text.subrange(
                e + 1,
                text.len() as int,
            );
        let cut = j + 1 - i;
        assert(forall|x: int| 0 <= x < i ==> out[x] == text[x]);
        assert(forall|x: int| i <= x < out.len() ==> out[x] == text[x + cut]);
        assert forall|a: int, b: int| !annotation_at(out, a, b) by {
            if annotation_at(out, a, b) {
                if b < i {
                    assert(annotation_at(text, a, b));
                } else if a + 1 < i {
                    assert forall|k: int| a + 2 <= k < b + cut implies text[k] != '\n' by {
                        if k < i {
                            assert(out[k] == text[k]);
                        } else if k > j {
                            assert(out[k - cut] == text[k]);
                        }
                    }
                    assert(annotation_at(text, a, b + cut));
                } else if a + 1 == i {
                    assert forall|k: int| i + 2 <= k < b + cut implies text[k] != '\n' by {
                        if k > j + 1 {
                            assert(out[k - cut] == text[k]);
                        } else if k == j + 1 {
                            assert(out[i] == text[j + 1]);
                        }
                    }
                    assert(annotation_at(text, i, b + cut));
                } else {
                    assert forall|k: int| a + cut + 2 <= k < b + cut implies text[k] != '\n' by {
                        assert(out[k - cut] == text[k]);
                    }
                    assert(annotation_at(text, a + cut, b + cut));
                }
            }
        }
    } else {
        assert(out == text);
    }
}

/// A text of one line is such that no annotation begins behind its first one.
pub proof fn lemma_one_line_annotations_overlap(text: Seq<char>)
    requires
        forall|k: int| 0 <= k < text.len() ==> text[k] != '\n',
    ensures
        annotations_overlap(text),
{
    assert forall|start: int, end: int, s: int, e: int|
        #[trigger] first_annotation(text, start, end) && #[trigger] annotation_at(
            text,
            s,
            e,
        ) implies s <= end by {
        assert(annotation_at(text, start, e));
    }
}

} // verus!
