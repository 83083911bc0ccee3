//! Sampling of probe identifiers: each draw yields a 16-bit identifier that
//! no earlier draw of the same run has yielded.

use crate::text::{append_decimal, decimal};
use std::collections::HashSet;
use vstd::prelude::*;
use vstd::set_lib::{lemma_int_range, lemma_len_subset, lemma_map_size, set_int_range};
use vstd::std_specs::hash::*;
use vstd::string::*;

verus! {

broadcast use group_hash_axioms;

/// The number of identifiers there are to draw from.
pub const ID_SPACE: usize = 65536;

/// Random draws that one call makes before it gives up on chance.
pub const DRAW_BUDGET: u64 = 0xffff_ffff_ffff_ffff;

/// One draw: `id` was not among the identifiers seen before and is the one
/// identifier that has been added to them.
pub open spec fn drawn(before: Set<u16>, id: u16, after: Set<u16>) -> bool {
    !before.contains(id) && after == before.insert(id)
}

/// The address of the repository listing that starts after identifier `id`.
pub open spec fn probe_url(id: u16) -> Seq<char> {
    "https://api.github.com/repositories"@ + "?since="@ + decimal(id as nat)
}

/// `rand::random::<u16>()`: some 16-bit value. Nothing is claimed of which.
#[verifier::external_body]
fn draw_identifier() -> u16 {
    rand::random::<u16>()
}

/// There are exactly `ID_SPACE` identifiers, so a set of fewer leaves one
/// out.
pub proof fn lemma_some_identifier_is_unseen(seen: Set<u16>)
    requires
        seen.finite(),
        seen.len() < ID_SPACE,
    ensures
        exists|id: u16| !seen.contains(id),
{
    if forall|id: u16| seen.contains(id) {
        let all = Set::<u16>::new(|id: u16| true);
        let numbers = set_int_range(0, 65536);
        let narrow = |i: int| i as u16;
        lemma_int_range(0, 65536);
        assert(numbers.map(narrow) =~= all) by {
            assert forall|id: u16| numbers.map(narrow).contains(id) by {
                assert(numbers.contains(id as int));
                assert(narrow(id as int) == id);
            }
        }
        assert(vstd::relations::injective_on(narrow, numbers));
        lemma_map_size(numbers, all, narrow);
        assert(all.subset_of(seen));
        lemma_len_subset(all, seen);
    }
}

/// The identifiers that the draws of one run have yielded so far.
pub struct SeenIds {
    ids: HashSet<u16>,
}

impl View for SeenIds {
    type V = Set<u16>;

    closed spec fn view(&self) -> Set<u16> {
        self.ids@
    }
}

impl SeenIds {
    #[verifier::type_invariant]
    spec fn finite(self) -> bool {
        self.ids@.finite()
    }

    /// No identifier seen yet.
    pub fn new() -> (s: Self)
        ensures
            s@ == Set::<u16>::empty(),
    {
        SeenIds { ids: HashSet::new() }
    }

    /// How many identifiers have been seen.
    pub fn len(&self) -> (n: usize)
        ensures
            self@.finite(),
            n == self@.len(),
    {
        proof {
            use_type_invariant(self);
        }
        self.ids.len()
    }

    /// Whether `id` has been seen.
    pub fn contains(&self, id: u16) -> (b: bool)
        ensures
            b == self@.contains(id),
    {
        self.ids.contains(&id)
    }

    /// Whether every identifier has been seen, so that none is left to draw.
    pub fn is_exhausted(&self) -> (b: bool)
        ensures
            b == (self@.len() >= ID_SPACE),
            !b ==> exists|id: u16| !self@.contains(id),
    {
        proof {
            use_type_invariant(self);
            if self@.len() < ID_SPACE {
                lemma_some_identifier_is_unseen(self@);
            }
        }
        self.ids.len() >= ID_SPACE
    }

    /// Takes `candidate` as seen. Returns whether it was new.
    pub fn offer(&mut self, candidate: u16) -> (fresh: bool)
        ensures
            fresh == !old(self)@.contains(candidate),
            final(self)@ == old(self)@.insert(candidate),
    {
        proof {
            use_type_invariant(&*self);
        }
        let mut taken = SeenIds { ids: HashSet::new() };
        core::mem::swap(self, &mut taken);
        let mut ids: HashSet<u16> = taken.ids;
        let fresh: bool = ids.insert(candidate);
        *self = SeenIds { ids };
        fresh
    }

    /// Takes the smallest identifier not yet seen as seen, and returns it.
    pub fn take_smallest_unseen(&mut self) -> (id: u16)
        requires
            old(self)@.len() < ID_SPACE,
        ensures
            drawn(old(self)@, id, final(self)@),
            forall|smaller: u16| smaller < id ==> old(self)@.contains(smaller),
    {
        proof {
            use_type_invariant(&*self);
            lemma_some_identifier_is_unseen(self@);
        }
        let mut candidate: u16 = 0;
        while candidate < 0xffff && self.contains(candidate)
            invariant
                self@ == old(self)@,
                forall|id: u16| id < candidate ==> self@.contains(id),
                exists|id: u16| !self@.contains(id),
            decreases 0xffff - candidate,
        {
            candidate = candidate + 1;
        }
        let fresh: bool = self.offer(candidate);
        assert(fresh);
        candidate
    }

    /// Draws an identifier that has not been seen and takes it as seen.
    ///
    /// Identifiers are drawn at random and those already seen are rejected,
    /// `budget` times at most. Once the budget is used up the smallest unseen
    /// identifier is taken, so that the call returns whatever chance does.
    pub fn next_within(&mut self, budget: u64) -> (id: u16)
        requires
            old(self)@.len() < ID_SPACE,
        ensures
            drawn(old(self)@, id, final(self)@),
            budget == 0 ==> forall|smaller: u16| smaller < id ==> old(self)@.contains(smaller),
    {
        let mut left: u64 = budget;
        while left > 0
            invariant
                self@ == old(self)@,
                left <= budget,
            decreases left,
        {
            let candidate: u16 = draw_identifier();
            if self.offer(candidate) {
                return candidate;
            }
            assert(self@ =~= old(self)@);
            left = left - 1;
        }
        self.take_smallest_unseen()
    }

    /// Draws an identifier that has not been seen and takes it as seen.
    ///
    /// Chance alone sets no bound on the number of rejected draws. The draw
    /// budget does: `DRAW_BUDGET` draws, more than any run makes.
    pub fn next(&mut self) -> (id: u16)
        requires
            old(self)@.len() < ID_SPACE,
        ensures
            drawn(old(self)@, id, final(self)@),
    {
        self.next_within(DRAW_BUDGET)
    }
}

/// Draws an unseen identifier and gives the address of the repository
/// listing that starts after it.
pub fn get_random_repo_url(seen_ids: &mut SeenIds) -> (url: String)
    requires
        old(seen_ids)@.len() < ID_SPACE,
    ensures
        exists|id: u16| drawn(old(seen_ids)@, id, final(seen_ids)@) && url@ == probe_url(id),
{
    let id: u16 = seen_ids.next();
    let mut url: String = String::from_str("https://api.github.com/repositories");
    url.append("?since=");
    append_decimal(&mut url, id as u64);
    assert(url@ =~= probe_url(id));
    url
}

/// However many draws are made, no identifier comes twice, and afterwards
/// the seen identifiers are those seen before together with the drawn ones,
/// each counted once. `sets[k]` is what was seen before draw `k`, and
/// `sets[k + 1]` what was seen after it.
pub proof fn lemma_draws_are_distinct(sets: Seq<Set<u16>>, ids: Seq<u16>)
    requires
        sets.len() == ids.len() + 1,
        sets[0].finite(),
        forall|k: int| 0 <= k < ids.len() ==> drawn(sets[k], #[trigger] ids[k], sets[k + 1]),
    ensures
        ids.no_duplicates(),
        forall|k: int| 0 <= k < ids.len() ==> !sets[0].contains(#[trigger] ids[k]),
        sets.last() == sets[0].union(ids.to_set()),
        sets.last().finite(),
        sets.last().len() == sets[0].len() + ids.len(),
    decreases ids.len(),
{
    if ids.len() == 0 {
        assert(ids.to_set() =~= Set::<u16>::empty());
        assert(sets[0].union(ids.to_set()) =~= sets[0]);
    } else {
        let n = ids.len() - 1;
        let head_sets = sets.drop_last();
        let head_ids = ids.drop_last();
        assert forall|k: int| 0 <= k < head_ids.len() implies drawn(
            head_sets[k],
            #[trigger] head_ids[k],
            head_sets[k + 1],
        ) by {
            assert(drawn(sets[k], ids[k], sets[k + 1]));
        }
        lemma_draws_are_distinct(head_sets, head_ids);
        assert(head_sets.last() == sets[n]);
        assert(drawn(sets[n], ids[n], sets[n + 1]));
        assert(ids =~= head_ids.push(ids[n]));
        head_ids.lemma_push_to_set_commute(ids[n]);
        assert(sets.last() =~= sets[0].union(ids.to_set()));
        assert forall|i: int, j: int| 0 <= i < ids.len() && 0 <= j < ids.len() && i != j implies ids[i]
            != ids[j] by {
            if i < n && j < n {
                assert(head_ids[i] != head_ids[j]);
            } else if i < n {
                assert(head_ids[i] == ids[i]);
                assert(head_ids.to_set().contains(ids[i]));
            } else {
                assert(head_ids[j] == ids[j]);
                assert(head_ids.to_set().contains(ids[j]));
            }
        }
        assert(!sets[0].contains(ids[n]));
    }
}

/// Starting with nothing seen, fewer than `ID_SPACE` draws never find the
/// identifiers used up: before draw `k` exactly `k` identifiers are seen.
pub proof fn lemma_draws_never_exhaust(sets: Seq<Set<u16>>, ids: Seq<u16>)
    requires
        sets.len() == ids.len() + 1,
        sets[0] == Set::<u16>::empty(),
        ids.len() < ID_SPACE,
        forall|k: int| 0 <= k < ids.len() ==> drawn(sets[k], #[trigger] ids[k], sets[k + 1]),
    ensures
        forall|k: int| 0 <= k <= ids.len() ==> (#[trigger] sets[k]).finite() && sets[k].len() == k,
{
    assert forall|k: int| 0 <= k <= ids.len() implies (#[trigger] sets[k]).finite() && sets[k].len()
        == k by {
        let some_sets = sets.take(k + 1);
        let some_ids = ids.take(k);
        assert forall|i: int| 0 <= i < some_ids.len() implies drawn(
            some_sets[i],
            #[trigger] some_ids[i],
            some_sets[i + 1],
        ) by {
            assert(drawn(sets[i], ids[i], sets[i + 1]));
        }
        lemma_draws_are_distinct(some_sets, some_ids);
        assert(some_sets.last() == sets[k]);
    }
}

} // verus!
