//! Answer sets: the candidates offered for one record, in shuffled order,
//! with the position of the right one.
use crate::record::Data;
use crate::text::{
    eq_ignore_ascii_case, lemma_texts_push, lowercase, same_ignoring_ascii_case, texts,
    to_lowercase,
};
use rand::rngs::StdRng;
use rand::seq::SliceRandom;
use vstd::prelude::*;
use vstd::seq_lib::group_to_multiset_ensures;

verus! {

/// The standard generator of the rand crate, carried through to the
/// shuffle; nothing is said of what it yields.
#[verifier::external_type_specification]
#[verifier::external_body]
pub struct ExStdRng(StdRng);

/// The index that stands for "no candidate is the answer". No vector has an
/// element at it.
pub const NO_ANSWER: usize = usize::MAX;

/// The candidates of one record and the position of the right one.
#[derive(Clone, Debug, PartialEq, Eq)]
pub struct AnswerSet {
    pub candidates: Vec<String>,
    pub correct_index: usize,
}

/// Why no answer set was built.
#[derive(Clone, Debug, PartialEq, Eq)]
pub enum BuildError {
    /// The dictionary knows fewer definitions of the abbreviation than the
    /// answer set is to hold.
    InsufficientAnswers { abbreviation: String, found: usize },
}

/// `candidate` is the answer `target`, whatever the case of its ASCII letters.
pub open spec fn is_answer(candidate: Seq<char>, target: Seq<char>) -> bool {
    same_ignoring_ascii_case(candidate, target)
}

/// One of `candidates` is the answer.
pub open spec fn holds_answer(candidates: Seq<Seq<char>>, target: Seq<char>) -> bool {
    exists|i: int| 0 <= i < candidates.len() && is_answer(#[trigger] candidates[i], target)
}

/// `index` is where the answer first stands among `candidates`, or
/// `NO_ANSWER` where it stands nowhere.
pub open spec fn locates_answer(candidates: Seq<Seq<char>>, target: Seq<char>, index: usize) -> bool {
    if holds_answer(candidates, target) {
        &&& index < candidates.len()
        &&& is_answer(candidates[index as int], target)
        &&& forall|j: int| 0 <= j < index ==> !is_answer(#[trigger] candidates[j], target)
    } else {
        index == NO_ANSWER
    }
}

/// Exactly one of `candidates` is the answer.
pub open spec fn holds_answer_once(candidates: Seq<Seq<char>>, target: Seq<char>) -> bool {
    exists|i: int|
        {
            &&& 0 <= i < candidates.len()
            &&& is_answer(#[trigger] candidates[i], target)
            &&& forall|j: int|
                0 <= j < candidates.len() && is_answer(#[trigger] candidates[j], target) ==> j == i
        }
}

/// At most one of `candidates` is the answer.
pub open spec fn holds_answer_at_most_once(candidates: Seq<Seq<char>>, target: Seq<char>) -> bool {
    forall|i: int, j: int|
        0 <= i < candidates.len() && 0 <= j < candidates.len() && is_answer(
            #[trigger] candidates[i],
            target,
        ) && is_answer(#[trigger] candidates[j], target) ==> i == j
}

/// Each text in its lower-case form.
pub open spec fn lowered(items: Seq<Seq<char>>) -> Seq<Seq<char>> {
    Seq::new(items.len(), |i: int| lowercase(items[i]))
}

/// The candidates before shuffling: the first `size` fetched definitions in
/// lower case; where none of them is the answer, the last one gives way to
/// `target`.
pub open spec fn assembled(fetched: Seq<Seq<char>>, target: Seq<char>, size: int) -> Seq<
    Seq<char>,
> {
    let kept = lowered(fetched).take(size);
    if holds_answer(kept, target) {
        kept
    } else {
        kept.drop_last().push(target)
    }
}

/// `set` is an answer set of `size` candidates for `target`, made of the
/// definitions `fetched`: its candidates are the assembled ones in some
/// order, and its index is where the answer first stands among them.
pub open spec fn is_answer_set_of(
    fetched: Seq<Seq<char>>,
    target: Seq<char>,
    size: int,
    set: AnswerSet,
) -> bool {
    &&& texts(set.candidates@).to_multiset() == assembled(fetched, target, size).to_multiset()
    &&& set.candidates.len() == size
    &&& set.correct_index < size
    &&& locates_answer(texts(set.candidates@), target, set.correct_index)
}

/// Wraps `SliceRandom::shuffle` of the rand crate, which swaps elements of
/// the slice in place. Whatever the generator yields, the vector holds the
/// same strings as before, each as often as before.
#[verifier::external_body]
fn shuffle(items: &mut Vec<String>, rng: &mut StdRng)
    ensures
        texts(final(items)@).to_multiset() == texts(old(items)@).to_multiset(),
{
    items.shuffle(rng);
}

/// The assembled candidates are `size` many and hold the answer.
pub proof fn lemma_assembled(fetched: Seq<Seq<char>>, target: Seq<char>, size: int)
    requires
        1 <= size <= fetched.len(),
    ensures
        assembled(fetched, target, size).len() == size,
        holds_answer(assembled(fetched, target, size), target),
{
    let kept = lowered(fetched).take(size);
    if !holds_answer(kept, target) {
        let out = kept.drop_last().push(target);
        assert(is_answer(out[size - 1], target));
    }
}

/// A sequence with one more candidate holds the answer where the sequence
/// held it or the candidate is it.
pub proof fn lemma_holds_answer_push(
    candidates: Seq<Seq<char>>,
    candidate: Seq<char>,
    target: Seq<char>,
)
    ensures
        holds_answer(candidates.push(candidate), target) == (holds_answer(candidates, target)
            || is_answer(candidate, target)),
{
    let longer = candidates.push(candidate);
    if holds_answer(candidates, target) {
        let i = choose|i: int| 0 <= i < candidates.len() && is_answer(#[trigger] candidates[i], target);
        assert(is_answer(longer[i], target));
    }
    if is_answer(candidate, target) {
        assert(is_answer(longer[candidates.len() as int], target));
    }
    if holds_answer(longer, target) {
        let i = choose|i: int| 0 <= i < longer.len() && is_answer(#[trigger] longer[i], target);
        if i < candidates.len() {
            assert(is_answer(candidates[i], target));
        }
    }
}

/// Two sequences with the same elements hold the answer together or not at
/// all.
pub proof fn lemma_reordering_keeps_answer(a: Seq<Seq<char>>, b: Seq<Seq<char>>, target: Seq<char>)
    requires
        a.to_multiset() == b.to_multiset(),
        holds_answer(a, target),
    ensures
        holds_answer(b, target),
        a.len() == b.len(),
{
    broadcast use group_to_multiset_ensures;

    let i = choose|i: int| 0 <= i < a.len() && is_answer(#[trigger] a[i], target);
    assert(a.contains(a[i]));
    assert(b.to_multiset().count(a[i]) > 0);
    assert(b.contains(a[i]));
    let j = choose|j: int| 0 <= j < b.len() && b[j] == a[i];
    assert(is_answer(b[j], target));
    assert(a.to_multiset().len() == a.len());
    assert(b.to_multiset().len() == b.len());
}

/// Two sequences with the same elements hold the answer exactly once
/// together or not at all.
pub proof fn lemma_reordering_keeps_single_answer(
    a: Seq<Seq<char>>,
    b: Seq<Seq<char>>,
    target: Seq<char>,
)
    requires
        a.to_multiset() == b.to_multiset(),
        holds_answer_once(a, target),
    ensures
        holds_answer_once(b, target),
{
    broadcast use group_to_multiset_ensures;

    let i = choose|i: int|
        {
            &&& 0 <= i < a.len()
            &&& is_answer(#[trigger] a[i], target)
            &&& forall|j: int| 0 <= j < a.len() && is_answer(#[trigger] a[j], target) ==> j == i
        };
    assert(a.contains(a[i]));
    assert(b.to_multiset().count(a[i]) > 0);
    assert(b.contains(a[i]));
    let j = choose|j: int| 0 <= j < b.len() && b[j] == a[i];
    let rest_a = a.remove(i);
    let rest_b = b.remove(j);
    assert(rest_a.to_multiset() == rest_b.to_multiset());
    assert forall|m: int| 0 <= m < b.len() && is_answer(#[trigger] b[m], target) implies m == j by {
        if m != j {
            let at = if m < j {
                m
            } else {
                m - 1
            };
            assert(rest_b[at] == b[m]);
            assert(rest_b.contains(b[m]));
            assert(rest_a.to_multiset().count(b[m]) > 0);
            assert(rest_a.contains(b[m]));
            let k = choose|k: int| 0 <= k < rest_a.len() && rest_a[k] == b[m];
            let back = if k < i {
                k
            } else {
                k + 1
            };
            assert(a[back] == rest_a[k]);
            assert(is_answer(a[back], target));
        }
    }
    assert(is_answer(b[j], target));
}

/// An answer set holds the answer exactly once, provided that the fetched
/// definitions it was made of held it at most once.
pub proof fn lemma_answer_set_holds_answer_once(
    fetched: Seq<Seq<char>>,
    target: Seq<char>,
    size: int,
    set: AnswerSet,
)
    requires
        1 <= size <= fetched.len(),
        is_answer_set_of(fetched, target, size, set),
        holds_answer_at_most_once(lowered(fetched).take(size), target),
    ensures
        set.candidates.len() == size,
        holds_answer_once(texts(set.candidates@), target),
        set.correct_index < size,
        is_answer(set.candidates[set.correct_index as int]@, target),
{
    let kept = lowered(fetched).take(size);
    let made = assembled(fetched, target, size);
    if holds_answer(kept, target) {
        let i = choose|i: int| 0 <= i < kept.len() && is_answer(#[trigger] kept[i], target);
        assert(is_answer(made[i], target));
    } else {
        assert(is_answer(made[size - 1], target));
        assert forall|j: int| 0 <= j < made.len() && is_answer(
            #[trigger] made[j],
            target,
        ) implies j == size - 1 by {
            if j < size - 1 {
                assert(is_answer(kept[j], target));
            }
        }
    }
    assert(holds_answer_once(made, target));
    lemma_reordering_keeps_single_answer(made, texts(set.candidates@), target);
    lemma_assembled(fetched, target, size);
    lemma_reordering_keeps_answer(made, texts(set.candidates@), target);
}

/// Finds where the answer first stands among `candidates`.
pub fn locate_answer(candidates: &Vec<String>, target: &str) -> (index: usize)
    ensures
        locates_answer(texts(candidates@), target@, index),
{
    let mut i: usize = 0;
    while i < candidates.len()
        invariant
            i <= candidates.len(),
            forall|j: int| 0 <= j < i ==> !is_answer(#[trigger] texts(candidates@)[j], target@),
        decreases candidates.len() - i,
    {
        if eq_ignore_ascii_case(candidates[i].as_str(), target) {
            assert(is_answer(texts(candidates@)[i as int], target@));
            return i;
        }
        i += 1;
    }
    NO_ANSWER
}

/// Makes the answer set of candidates that stand in their final order.
pub fn answer_set_from(candidates: Vec<String>, target: &str) -> (set: AnswerSet)
    ensures
        set.candidates == candidates,
        locates_answer(texts(candidates@), target@, set.correct_index),
{
    let correct_index = locate_answer(&candidates, target);
    AnswerSet { candidates, correct_index }
}

/// Takes the first `size` fetched definitions in lower case and makes sure
/// that the answer is among them.
pub fn assemble_candidates(fetched: &Vec<String>, target: &str, size: usize) -> (out: Vec<String>)
    requires
        1 <= size <= fetched.len(),
    ensures
        texts(out@) == assembled(texts(fetched@), target@, size as int),
{
    let mut out: Vec<String> = Vec::new();
    let mut found = false;
    let mut i: usize = 0;
    let ghost kept = lowered(texts(fetched@)).take(size as int);
    assert(texts(out@) =~= kept.take(0));
    while i < size
        invariant
            i <= size <= fetched.len(),
            kept == lowered(texts(fetched@)).take(size as int),
            texts(out@) == kept.take(i as int),
            found == holds_answer(kept.take(i as int), target@),
        decreases size - i,
    {
        let lower = to_lowercase(fetched[i].as_str());
        let hit = eq_ignore_ascii_case(lower.as_str(), target);
        proof {
            lemma_texts_push(out@, lower);
            lemma_holds_answer_push(kept.take(i as int), lower@, target@);
            assert(kept.take(i + 1) =~= kept.take(i as int).push(lower@));
        }
        out.push(lower);
        found = found || hit;
        i += 1;
    }
    assert(kept.take(size as int) =~= kept);
    if !found {
        let answer = target.to_owned();
        proof {
            lemma_texts_push(out@.drop_last(), answer);
            assert(texts(out@.drop_last()) =~= kept.drop_last());
        }
        out.pop();
        out.push(answer);
    }
    out
}

/// Builds the answer set of a record from the definitions that the
/// dictionary gave for its abbreviation. It fails exactly where these are
/// fewer than `num_answers`.
pub fn build_answer_set(record: &Data, fetched: &Vec<String>, num_answers: usize, rng: &mut StdRng) -> (outcome:
    Result<AnswerSet, BuildError>)
    requires
        num_answers >= 1,
    ensures
        outcome is Err <==> fetched.len() < num_answers,
        match outcome {
            Ok(set) => is_answer_set_of(
                texts(fetched@),
                lowercase(record.definition@),
                num_answers as int,
                set,
            ),
            Err(BuildError::InsufficientAnswers { abbreviation, found }) => {
                &&& abbreviation@ == record.abbr@
                &&& found == fetched.len()
            },
        },
{
    if fetched.len() < num_answers {
        return Err(
            BuildError::InsufficientAnswers {
                abbreviation: record.abbr.clone(),
                found: fetched.len(),
            },
        );
    }
    let target = to_lowercase(record.definition.as_str());
    let mut candidates = assemble_candidates(fetched, target.as_str(), num_answers);
    let ghost before = texts(candidates@);
    shuffle(&mut candidates, rng);
    proof {
        lemma_assembled(texts(fetched@), target@, num_answers as int);
        lemma_reordering_keeps_answer(before, texts(candidates@), target@);
    }
    Ok(answer_set_from(candidates, target.as_str()))
}

} // verus!
