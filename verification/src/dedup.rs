//! The abbreviations that a run has taken up already.
use crate::text::texts;
use vstd::prelude::*;

verus! {

/// The set of abbreviations claimed so far in one run.
pub struct DedupTracker {
    seen: Vec<String>,
}

/// What one claim does to the set of claimed abbreviations, and whether it
/// is granted: it is granted where the abbreviation was not in the set, and
/// the abbreviation is in the set afterwards.
pub open spec fn claim(seen: Set<Seq<char>>, abbreviation: Seq<char>) -> (Set<Seq<char>>, bool) {
    (seen.insert(abbreviation), !seen.contains(abbreviation))
}

/// How many of `attempts` claims of one abbreviation, made one after the
/// other, are granted.
pub open spec fn grants(seen: Set<Seq<char>>, abbreviation: Seq<char>, attempts: nat) -> nat
    decreases attempts,
{
    if attempts == 0 {
        0
    } else {
        let (next, granted) = claim(seen, abbreviation);
        (if granted {
            1nat
        } else {
            0nat
        }) + grants(next, abbreviation, (attempts - 1) as nat)
    }
}

/// Of any number of claims of an abbreviation that is in the set, none is
/// granted.
pub proof fn lemma_no_grant_once_claimed(
    seen: Set<Seq<char>>,
    abbreviation: Seq<char>,
    attempts: nat,
)
    requires
        seen.contains(abbreviation),
    ensures
        grants(seen, abbreviation, attempts) == 0,
    decreases attempts,
{
    if attempts > 0 {
        assert(seen.insert(abbreviation) =~= seen);
        lemma_no_grant_once_claimed(seen, abbreviation, (attempts - 1) as nat);
    }
}

/// Of one or more claims of an abbreviation that is not in the set, exactly
/// one is granted: the first.
pub proof fn lemma_exactly_one_grant(seen: Set<Seq<char>>, abbreviation: Seq<char>, attempts: nat)
    requires
        attempts >= 1,
        !seen.contains(abbreviation),
    ensures
        claim(seen, abbreviation).1,
        grants(seen, abbreviation, attempts) == 1,
{
    lemma_no_grant_once_claimed(seen.insert(abbreviation), abbreviation, (attempts - 1) as nat);
}

impl DedupTracker {
    /// The abbreviations claimed so far.
    pub closed spec fn view(&self) -> Set<Seq<char>> {
        texts(self.seen@).to_set()
    }

    #[verifier::type_invariant]
    spec fn distinct(&self) -> bool {
        texts(self.seen@).no_duplicates()
    }

    /// A tracker with nothing claimed.
    pub fn new() -> (tracker: Self)
        ensures
            tracker@ == Set::<Seq<char>>::empty(),
    {
        let tracker = DedupTracker { seen: Vec::new() };
        assert(texts(tracker.seen@).to_set() =~= Set::<Seq<char>>::empty());
        tracker
    }

    /// Tells whether the abbreviation was claimed.
    pub fn contains(&self, abbreviation: &str) -> (found: bool)
        ensures
            found == self@.contains(abbreviation@),
    {
        let wanted = abbreviation.to_owned();
        let mut i: usize = 0;
        while i < self.seen.len()
            invariant
                i <= self.seen.len(),
                wanted@ == abbreviation@,
                forall|j: int| 0 <= j < i ==> texts(self.seen@)[j] != abbreviation@,
            decreases self.seen.len() - i,
        {
            if self.seen[i] == wanted {
                assert(texts(self.seen@)[i as int] == abbreviation@);
                return true;
            }
            i += 1;
        }
        false
    }

    /// The number of abbreviations claimed.
    pub fn len(&self) -> (count: usize)
        ensures
            count == self@.len(),
    {
        proof {
            use_type_invariant(self);
            texts(self.seen@).unique_seq_to_set();
        }
        self.seen.len()
    }

    /// Claims the abbreviation. The claim is granted where nobody claimed
    /// the abbreviation before; afterwards it counts as claimed either way.
    pub fn try_claim(&mut self, abbreviation: &str) -> (granted: bool)
        ensures
            (final(self)@, granted) == claim(old(self)@, abbreviation@),
    {
        proof {
            use_type_invariant(&*self);
        }
        if self.contains(abbreviation) {
            assert(self@.insert(abbreviation@) =~= self@);
            false
        } else {
            let mut taken = DedupTracker { seen: Vec::new() };
            core::mem::swap(self, &mut taken);
            let mut seen = taken.seen;
            let ghost before = texts(seen@);
            seen.push(abbreviation.to_owned());
            proof {
                assert(texts(seen@) =~= before.push(abbreviation@));
                before.lemma_push_to_set_commute(abbreviation@);
            }
            *self = DedupTracker { seen };
            true
        }
    }
}

} // verus!
