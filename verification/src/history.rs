//! The records of past exchanges, as a render needs them: only ever added
//! to, and looked up by profile and recipe, the most recent first.

use vstd::prelude::*;
use vstd::string::*;
use crate::http::{opt_string_view, RequestRecord};
use crate::text::str_eq;

verus! {

/// The record belongs to the recipe, sent under the profile.
pub open spec fn is_for(record: RequestRecord, profile: Option<Seq<char>>, recipe: Seq<char>)
    -> bool {
    opt_string_view(record.request.profile_id) == profile && record.request.recipe_id@ == recipe
}

/// The record for the profile and the recipe that was started last; of
/// several started at the same time, the one added last.
pub open spec fn latest_of(
    records: Seq<RequestRecord>,
    profile: Option<Seq<char>>,
    recipe: Seq<char>,
) -> Option<RequestRecord>
    decreases records.len(),
{
    if records.len() == 0 {
        None
    } else {
        let last = records.last();
        match latest_of(records.drop_last(), profile, recipe) {
            Some(best) => if is_for(last, profile, recipe) && last.start_time >= best.start_time {
                Some(last)
            } else {
                Some(best)
            },
            None => if is_for(last, profile, recipe) {
                Some(last)
            } else {
                None
            },
        }
    }
}

/// What `latest_of` gives is one of the records, is for the profile and the
/// recipe, and no record for them was started later; it gives nothing only
/// where no record is for them.
pub proof fn lemma_latest_of(
    records: Seq<RequestRecord>,
    profile: Option<Seq<char>>,
    recipe: Seq<char>,
)
    ensures
        latest_of(records, profile, recipe) matches Some(best) ==> records.contains(best) && is_for(
            best,
            profile,
            recipe,
        ) && forall|i: int|
            0 <= i < records.len() && is_for(#[trigger] records[i], profile, recipe)
                ==> records[i].start_time <= best.start_time,
        latest_of(records, profile, recipe) is None ==> forall|i: int|
            0 <= i < records.len() ==> !is_for(#[trigger] records[i], profile, recipe),
    decreases records.len(),
{
    if records.len() > 0 {
        let front = records.drop_last();
        lemma_latest_of(front, profile, recipe);
        assert forall|i: int| 0 <= i < front.len() implies front[i] == records[i] by {}
        match latest_of(front, profile, recipe) {
            Some(best) => {
                let i = choose|i: int| 0 <= i < front.len() && front[i] == best;
                assert(records[i] == best);
            },
            None => {},
        }
        assert(records[records.len() - 1] == records.last());
    }
}

/// A record that is added and was started no earlier than any other for
/// its profile and recipe is the latest from then on.
pub proof fn lemma_added_is_latest(records: Seq<RequestRecord>, record: RequestRecord)
    requires
        forall|i: int|
            0 <= i < records.len() && is_for(
                #[trigger] records[i],
                opt_string_view(record.request.profile_id),
                record.request.recipe_id@,
            ) ==> records[i].start_time <= record.start_time,
    ensures
        latest_of(
            records.push(record),
            opt_string_view(record.request.profile_id),
            record.request.recipe_id@,
        ) == Some(record),
{
    let profile = opt_string_view(record.request.profile_id);
    let recipe = record.request.recipe_id@;
    let all = records.push(record);
    assert(all.drop_last() =~= records);
    assert(all.last() == record);
    lemma_latest_of(records, profile, recipe);
    match latest_of(records, profile, recipe) {
        Some(best) => {
            let i = choose|i: int| 0 <= i < records.len() && records[i] == best;
            assert(is_for(records[i], profile, recipe));
        },
        None => {},
    }
}

/// History that lives in memory.
#[derive(Debug, PartialEq, Eq)]
pub struct History {
    records: Vec<RequestRecord>,
}

fn same_profile(a: &Option<String>, b: &Option<String>) -> (r: bool)
    ensures
        r == (opt_string_view(*a) == opt_string_view(*b)),
{
    match (a, b) {
        (Some(x), Some(y)) => str_eq(x.as_str(), y.as_str()),
        (None, None) => true,
        _ => false,
    }
}

impl History {
    /// The records, in the order in which they were added.
    pub closed spec fn records(&self) -> Seq<RequestRecord> {
        self.records@
    }

    /// History without records.
    pub fn new() -> (h: Self)
        ensures
            h.records() == Seq::<RequestRecord>::empty(),
    {
        History { records: Vec::new() }
    }

    /// Adds a record. Those that are there stay as they are.
    pub fn put(&mut self, record: RequestRecord)
        ensures
            final(self).records() == old(self).records().push(record),
    {
        self.records.push(record);
    }

    /// How many records there are.
    pub fn len(&self) -> (n: usize)
        ensures
            n == self.records().len(),
    {
        self.records.len()
    }

    /// The most recent record for a recipe under a profile.
    pub fn get_latest(&self, profile: &Option<String>, recipe: &str) -> (r: Option<&RequestRecord>)
        ensures
            (match r {
                Some(x) => Some(*x),
                None => None,
            }) == latest_of(self.records(), opt_string_view(*profile), recipe@),
    {
        let ghost p = opt_string_view(*profile);
        let mut best: Option<usize> = None;
        let mut i: usize = 0;
        assert(self.records@.subrange(0, 0) =~= Seq::<RequestRecord>::empty());
        while i < self.records.len()
            invariant
                i <= self.records.len(),
                p == opt_string_view(*profile),
                best matches Some(b) ==> b < i,
                (match best {
                    Some(b) => Some(self.records@[b as int]),
                    None => None,
                }) == latest_of(self.records@.subrange(0, i as int), p, recipe@),
            decreases self.records.len() - i,
        {
            let ghost upto = self.records@.subrange(0, i + 1);
            assert(upto.drop_last() =~= self.records@.subrange(0, i as int));
            assert(upto.last() == self.records@[i as int]);
            let record = &self.records[i];
            if same_profile(&record.request.profile_id, profile) && str_eq(
                record.request.recipe_id.as_str(),
                recipe,
            ) {
                match best {
                    Some(b) => {
                        if record.start_time >= self.records[b].start_time {
                            best = Some(i);
                        }
                    },
                    None => {
                        best = Some(i);
                    },
                }
            }
            i += 1;
        }
        assert(self.records@.subrange(0, i as int) =~= self.records@);
        match best {
            Some(b) => Some(&self.records[b]),
            None => None,
        }
    }
}

} // verus!
