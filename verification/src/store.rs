//! The in-memory store: one value holding every campaign-scoped record,
//! together with its well-formedness invariant.
//!
//! Every command of the library is a method on [`Store`].  The embedding
//! application persists the store after each successful mutation and
//! broadcasts the refreshed collections that the methods return, so the
//! "read → apply rule → write → broadcast" sequence of each command is
//! atomic with respect to other commands as long as access to the store
//! value is serialized.

use vstd::prelude::*;

use crate::campaign::{Campaign, CampaignNote};
use crate::countdown::CountdownTracker;
use crate::dice::DiceRoll;
use crate::entity::Entity;
use crate::player_character::PlayerCharacter;

verus! {

/// The whole dashboard state.
///
/// Collection order is meaningful: `campaigns`, `notes` and `dice_rolls`
/// are kept newest-first (for notes, most-recently-updated first), which
/// is the order the listing commands hand out.  The `current_campaign`
/// selector is the process-wide pointer to the active campaign.
pub struct Store {
    pub campaigns: Vec<Campaign>,
    pub current_campaign: Option<String>,
    pub entities: Vec<Entity>,
    pub trackers: Vec<CountdownTracker>,
    pub notes: Vec<CampaignNote>,
    pub dice_rolls: Vec<DiceRoll>,
    pub player_characters: Vec<PlayerCharacter>,
}

// ------------------------------------------------------------------
// Lookup by id, in spec and in exec form
// ------------------------------------------------------------------

pub open spec fn has_campaign_id(s: Seq<Campaign>, id: Seq<char>) -> bool {
    exists|i: int| 0 <= i < s.len() && (#[trigger] s[i]).id@ == id
}

pub open spec fn campaign_idx_of(s: Seq<Campaign>, id: Seq<char>) -> int {
    choose|i: int| 0 <= i < s.len() && (#[trigger] s[i]).id@ == id
}

pub open spec fn has_entity_id(s: Seq<Entity>, id: Seq<char>) -> bool {
    exists|i: int| 0 <= i < s.len() && (#[trigger] s[i]).id@ == id
}

pub open spec fn entity_idx_of(s: Seq<Entity>, id: Seq<char>) -> int {
    choose|i: int| 0 <= i < s.len() && (#[trigger] s[i]).id@ == id
}

pub open spec fn has_tracker_id(s: Seq<CountdownTracker>, id: Seq<char>) -> bool {
    exists|i: int| 0 <= i < s.len() && (#[trigger] s[i]).id@ == id
}

pub open spec fn tracker_idx_of(s: Seq<CountdownTracker>, id: Seq<char>) -> int {
    choose|i: int| 0 <= i < s.len() && (#[trigger] s[i]).id@ == id
}

pub open spec fn has_note_id(s: Seq<CampaignNote>, id: Seq<char>) -> bool {
    exists|i: int| 0 <= i < s.len() && (#[trigger] s[i]).id@ == id
}

pub open spec fn note_idx_of(s: Seq<CampaignNote>, id: Seq<char>) -> int {
    choose|i: int| 0 <= i < s.len() && (#[trigger] s[i]).id@ == id
}

pub open spec fn has_roll_id(s: Seq<DiceRoll>, id: Seq<char>) -> bool {
    exists|i: int| 0 <= i < s.len() && (#[trigger] s[i]).id@ == id
}

pub open spec fn roll_idx_of(s: Seq<DiceRoll>, id: Seq<char>) -> int {
    choose|i: int| 0 <= i < s.len() && (#[trigger] s[i]).id@ == id
}

pub open spec fn has_pc_id(s: Seq<PlayerCharacter>, id: Seq<char>) -> bool {
    exists|i: int| 0 <= i < s.len() && (#[trigger] s[i]).id@ == id
}

pub open spec fn pc_idx_of(s: Seq<PlayerCharacter>, id: Seq<char>) -> int {
    choose|i: int| 0 <= i < s.len() && (#[trigger] s[i]).id@ == id
}

pub(crate) fn find_campaign(s: &Vec<Campaign>, id: &String) -> (r: Option<usize>)
    ensures
        r is Some <==> has_campaign_id(s@, id@),
        match r {
            Some(i) => i < s.len() && s@[i as int].id@ == id@,
            None => true,
        },
{
    let mut i: usize = 0;
    while i < s.len()
        invariant
            i <= s.len(),
            forall|k: int| 0 <= k < i ==> (#[trigger] s@[k]).id@ != id@,
        decreases s.len() - i,
    {
        if s[i].id == *id {
            return Some(i);
        }
        i = i + 1;
    }
    None
}

pub(crate) fn find_entity(s: &Vec<Entity>, id: &String) -> (r: Option<usize>)
    ensures
        r is Some <==> has_entity_id(s@, id@),
        match r {
            Some(i) => i < s.len() && s@[i as int].id@ == id@,
            None => true,
        },
{
    let mut i: usize = 0;
    while i < s.len()
        invariant
            i <= s.len(),
            forall|k: int| 0 <= k < i ==> (#[trigger] s@[k]).id@ != id@,
        decreases s.len() - i,
    {
        if s[i].id == *id {
            return Some(i);
        }
        i = i + 1;
    }
    None
}

pub(crate) fn find_tracker(s: &Vec<CountdownTracker>, id: &String) -> (r: Option<usize>)
    ensures
        r is Some <==> has_tracker_id(s@, id@),
        match r {
            Some(i) => i < s.len() && s@[i as int].id@ == id@,
            None => true,
        },
{
    let mut i: usize = 0;
    while i < s.len()
        invariant
            i <= s.len(),
            forall|k: int| 0 <= k < i ==> (#[trigger] s@[k]).id@ != id@,
        decreases s.len() - i,
    {
        if s[i].id == *id {
            return Some(i);
        }
        i = i + 1;
    }
    None
}

pub(crate) fn find_note(s: &Vec<CampaignNote>, id: &String) -> (r: Option<usize>)
    ensures
        r is Some <==> has_note_id(s@, id@),
        match r {
            Some(i) => i < s.len() && s@[i as int].id@ == id@,
            None => true,
        },
{
    let mut i: usize = 0;
    while i < s.len()
        invariant
            i <= s.len(),
            forall|k: int| 0 <= k < i ==> (#[trigger] s@[k]).id@ != id@,
        decreases s.len() - i,
    {
        if s[i].id == *id {
            return Some(i);
        }
        i = i + 1;
    }
    None
}

pub(crate) fn find_roll(s: &Vec<DiceRoll>, id: &String) -> (r: Option<usize>)
    ensures
        r is Some <==> has_roll_id(s@, id@),
        match r {
            Some(i) => i < s.len() && s@[i as int].id@ == id@,
            None => true,
        },
{
    let mut i: usize = 0;
    while i < s.len()
        invariant
            i <= s.len(),
            forall|k: int| 0 <= k < i ==> (#[trigger] s@[k]).id@ != id@,
        decreases s.len() - i,
    {
        if s[i].id == *id {
            return Some(i);
        }
        i = i + 1;
    }
    None
}

pub(crate) fn find_pc(s: &Vec<PlayerCharacter>, id: &String) -> (r: Option<usize>)
    ensures
        r is Some <==> has_pc_id(s@, id@),
        match r {
            Some(i) => i < s.len() && s@[i as int].id@ == id@,
            None => true,
        },
{
    let mut i: usize = 0;
    while i < s.len()
        invariant
            i <= s.len(),
            forall|k: int| 0 <= k < i ==> (#[trigger] s@[k]).id@ != id@,
        decreases s.len() - i,
    {
        if s[i].id == *id {
            return Some(i);
        }
        i = i + 1;
    }
    None
}

// ------------------------------------------------------------------
// Well-formedness
// ------------------------------------------------------------------

impl Store {
    /// The id of the currently selected campaign, as a spec value.
    pub open spec fn current_id(self) -> Option<Seq<char>> {
        match self.current_campaign {
            Some(id) => Some(id@),
            None => None,
        }
    }

    pub open spec fn has_campaign(self, id: Seq<char>) -> bool {
        has_campaign_id(self.campaigns@, id)
    }

    /// The campaign with the given id (meaningful when `has_campaign`).
    pub open spec fn campaign_at(self, id: Seq<char>) -> Campaign {
        self.campaigns@[campaign_idx_of(self.campaigns@, id)]
    }

    pub open spec fn has_entity(self, id: Seq<char>) -> bool {
        has_entity_id(self.entities@, id)
    }

    pub open spec fn entity_at(self, id: Seq<char>) -> Entity {
        self.entities@[entity_idx_of(self.entities@, id)]
    }

    pub open spec fn has_tracker(self, id: Seq<char>) -> bool {
        has_tracker_id(self.trackers@, id)
    }

    pub open spec fn tracker_at(self, id: Seq<char>) -> CountdownTracker {
        self.trackers@[tracker_idx_of(self.trackers@, id)]
    }

    pub open spec fn has_note(self, id: Seq<char>) -> bool {
        has_note_id(self.notes@, id)
    }

    pub open spec fn note_at(self, id: Seq<char>) -> CampaignNote {
        self.notes@[note_idx_of(self.notes@, id)]
    }

    pub open spec fn has_roll(self, id: Seq<char>) -> bool {
        has_roll_id(self.dice_rolls@, id)
    }

    pub open spec fn has_pc(self, id: Seq<char>) -> bool {
        has_pc_id(self.player_characters@, id)
    }

    pub open spec fn pc_at(self, id: Seq<char>) -> PlayerCharacter {
        self.player_characters@[pc_idx_of(self.player_characters@, id)]
    }

    pub open spec fn campaigns_wf(self) -> bool {
        &&& forall|i: int, j: int|
            0 <= i < j < self.campaigns@.len() ==> (#[trigger] self.campaigns@[i]).id@ != (
            #[trigger] self.campaigns@[j]).id@
        &&& forall|i: int|
            0 <= i < self.campaigns@.len() ==> (#[trigger] self.campaigns@[i]).wf()
    }

    /// The selector names an existing campaign, or nothing.
    pub open spec fn selector_wf(self) -> bool {
        match self.current_campaign {
            Some(id) => self.has_campaign(id@),
            None => true,
        }
    }

    pub open spec fn entities_wf(self) -> bool {
        &&& forall|i: int, j: int|
            0 <= i < j < self.entities@.len() ==> (#[trigger] self.entities@[i]).id@ != (
            #[trigger] self.entities@[j]).id@
        &&& forall|i: int|
            0 <= i < self.entities@.len() ==> (#[trigger] self.entities@[i]).wf()
        &&& forall|i: int|
            0 <= i < self.entities@.len() ==> self.has_campaign(
                (#[trigger] self.entities@[i]).campaign_id@,
            )
    }

    pub open spec fn trackers_wf(self) -> bool {
        &&& forall|i: int, j: int|
            0 <= i < j < self.trackers@.len() ==> (#[trigger] self.trackers@[i]).id@ != (
            #[trigger] self.trackers@[j]).id@
        &&& forall|i: int|
            0 <= i < self.trackers@.len() ==> (#[trigger] self.trackers@[i]).wf()
        &&& forall|i: int|
            0 <= i < self.trackers@.len() ==> self.has_campaign(
                (#[trigger] self.trackers@[i]).campaign_id@,
            )
    }

    pub open spec fn notes_wf(self) -> bool {
        &&& forall|i: int, j: int|
            0 <= i < j < self.notes@.len() ==> (#[trigger] self.notes@[i]).id@ != (
            #[trigger] self.notes@[j]).id@
        &&& forall|i: int|
            0 <= i < self.notes@.len() ==> self.has_campaign(
                (#[trigger] self.notes@[i]).campaign_id@,
            )
    }

    pub open spec fn rolls_wf(self) -> bool {
        &&& forall|i: int, j: int|
            0 <= i < j < self.dice_rolls@.len() ==> (#[trigger] self.dice_rolls@[i]).id@ != (
            #[trigger] self.dice_rolls@[j]).id@
        &&& forall|i: int|
            0 <= i < self.dice_rolls@.len() ==> self.has_campaign(
                (#[trigger] self.dice_rolls@[i]).campaign_id@,
            )
    }

    pub open spec fn pcs_wf(self) -> bool {
        &&& forall|i: int, j: int|
            0 <= i < j < self.player_characters@.len() ==> (
            #[trigger] self.player_characters@[i]).id@ != (
            #[trigger] self.player_characters@[j]).id@
        &&& forall|i: int|
            0 <= i < self.player_characters@.len() ==> self.has_campaign(
                (#[trigger] self.player_characters@[i]).campaign_id@,
            )
    }

    /// The store invariant: ids are unique per collection, every record's
    /// ranges hold, every scoped record is owned by an existing campaign,
    /// and the selector is valid.  Every command requires and preserves it.
    pub open spec fn wf(self) -> bool {
        &&& self.campaigns_wf()
        &&& self.selector_wf()
        &&& self.entities_wf()
        &&& self.trackers_wf()
        &&& self.notes_wf()
        &&& self.rolls_wf()
        &&& self.pcs_wf()
    }

    /// Equal to `o` on every field but `campaigns`.
    pub open spec fn agrees_except_campaigns(self, o: Store) -> bool {
        &&& self.current_campaign == o.current_campaign
        &&& self.entities == o.entities
        &&& self.trackers == o.trackers
        &&& self.notes == o.notes
        &&& self.dice_rolls == o.dice_rolls
        &&& self.player_characters == o.player_characters
    }

    /// Equal to `o` on every field but the current-campaign selector.
    pub open spec fn agrees_except_selector(self, o: Store) -> bool {
        &&& self.campaigns == o.campaigns
        &&& self.entities == o.entities
        &&& self.trackers == o.trackers
        &&& self.notes == o.notes
        &&& self.dice_rolls == o.dice_rolls
        &&& self.player_characters == o.player_characters
    }

    /// Equal to `o` on every field but `campaigns` and the selector.
    pub open spec fn agrees_except_campaigns_and_selector(self, o: Store) -> bool {
        &&& self.entities == o.entities
        &&& self.trackers == o.trackers
        &&& self.notes == o.notes
        &&& self.dice_rolls == o.dice_rolls
        &&& self.player_characters == o.player_characters
    }

    /// Equal to `o` on every field but `entities`.
    pub open spec fn agrees_except_entities(self, o: Store) -> bool {
        &&& self.campaigns == o.campaigns
        &&& self.current_campaign == o.current_campaign
        &&& self.trackers == o.trackers
        &&& self.notes == o.notes
        &&& self.dice_rolls == o.dice_rolls
        &&& self.player_characters == o.player_characters
    }

    /// Equal to `o` on every field but `trackers`.
    pub open spec fn agrees_except_trackers(self, o: Store) -> bool {
        &&& self.campaigns == o.campaigns
        &&& self.current_campaign == o.current_campaign
        &&& self.entities == o.entities
        &&& self.notes == o.notes
        &&& self.dice_rolls == o.dice_rolls
        &&& self.player_characters == o.player_characters
    }

    /// Equal to `o` on every field but `notes`.
    pub open spec fn agrees_except_notes(self, o: Store) -> bool {
        &&& self.campaigns == o.campaigns
        &&& self.current_campaign == o.current_campaign
        &&& self.entities == o.entities
        &&& self.trackers == o.trackers
        &&& self.dice_rolls == o.dice_rolls
        &&& self.player_characters == o.player_characters
    }

    /// Equal to `o` on every field but `dice_rolls`.
    pub open spec fn agrees_except_rolls(self, o: Store) -> bool {
        &&& self.campaigns == o.campaigns
        &&& self.current_campaign == o.current_campaign
        &&& self.entities == o.entities
        &&& self.trackers == o.trackers
        &&& self.notes == o.notes
        &&& self.player_characters == o.player_characters
    }

    /// Equal to `o` on every field but `player_characters`.
    pub open spec fn agrees_except_pcs(self, o: Store) -> bool {
        &&& self.campaigns == o.campaigns
        &&& self.current_campaign == o.current_campaign
        &&& self.entities == o.entities
        &&& self.trackers == o.trackers
        &&& self.notes == o.notes
        &&& self.dice_rolls == o.dice_rolls
    }

    /// An empty store: no campaigns, nothing selected.
    pub fn new() -> (r: Store)
        ensures
            r.wf(),
            r.campaigns@.len() == 0,
            r.current_campaign is None,
            r.entities@.len() == 0,
            r.trackers@.len() == 0,
            r.notes@.len() == 0,
            r.dice_rolls@.len() == 0,
            r.player_characters@.len() == 0,
    {
        Store {
            campaigns: Vec::new(),
            current_campaign: None,
            entities: Vec::new(),
            trackers: Vec::new(),
            notes: Vec::new(),
            dice_rolls: Vec::new(),
            player_characters: Vec::new(),
        }
    }
}

// ------------------------------------------------------------------
// General sequence lemmas used by the listing and cascade operations
// ------------------------------------------------------------------

/// Extending a prefix by one element.
pub proof fn lemma_take_step<A>(s: Seq<A>, i: int)
    requires
        0 <= i < s.len(),
    ensures
        s.take(i + 1) == s.take(i).push(s[i]),
{
    assert(s.take(i + 1) =~= s.take(i).push(s[i]));
}

/// How a filtered prefix grows when the prefix is extended by one element.
pub proof fn lemma_filter_take_step<A>(s: Seq<A>, i: int, pred: spec_fn(A) -> bool)
    requires
        0 <= i < s.len(),
    ensures
        s.take(i + 1).filter(pred) == (if pred(s[i]) {
            s.take(i).filter(pred).push(s[i])
        } else {
            s.take(i).filter(pred)
        }),
{
    lemma_take_step(s, i);
    assert(s.take(i).push(s[i]) =~= s.take(i) + seq![s[i]]);
    Seq::filter_distributes_over_add(s.take(i), seq![s[i]], pred);
    reveal_with_fuel(Seq::filter, 2);
    assert(seq![s[i]].drop_last() =~= Seq::<A>::empty());
    if pred(s[i]) {
        assert(s.take(i).filter(pred) + seq![s[i]] =~= s.take(i).filter(pred).push(s[i]));
    } else {
        assert(s.take(i).filter(pred) + Seq::<A>::empty() =~= s.take(i).filter(pred));
    }
}

/// Every element of a filtered sequence occurs in the original.
pub proof fn lemma_filter_subset<A>(s: Seq<A>, pred: spec_fn(A) -> bool)
    ensures
        forall|i: int|
            0 <= i < s.filter(pred).len() ==> s.contains(#[trigger] s.filter(pred)[i]),
    decreases s.len(),
{
    reveal(Seq::filter);
    if s.len() != 0 {
        lemma_filter_subset(s.drop_last(), pred);
        assert forall|i: int|
            0 <= i < s.filter(pred).len() implies s.contains(#[trigger] s.filter(pred)[i]) by {
            let f = s.filter(pred);
            let fd = s.drop_last().filter(pred);
            if i < fd.len() {
                assert(fd[i] == f[i]);
                assert(s.drop_last().contains(fd[i]));
                let w = choose|w: int| 0 <= w < s.drop_last().len() && s.drop_last()[w] == fd[i];
                assert(s[w] == fd[i]);
            } else {
                assert(f[i] == s.last());
                assert(s[s.len() - 1] == s.last());
            }
        }
    }
}

/// A sequence whose first element passes the filter keeps it as the first
/// element of the filtered sequence.
pub proof fn lemma_filter_first<A>(s: Seq<A>, pred: spec_fn(A) -> bool)
    requires
        s.len() > 0,
        pred(s[0]),
    ensures
        s.filter(pred).len() > 0,
        s.filter(pred)[0] == s[0],
    decreases s.len(),
{
    reveal(Seq::filter);
    if s.len() == 1 {
        assert(s.drop_last() =~= Seq::<A>::empty());
        assert(s.last() == s[0]);
    } else {
        assert(s.drop_last()[0] == s[0]);
        lemma_filter_first(s.drop_last(), pred);
    }
}

/// Pairwise-distinct keys survive prepending an element whose key is new.
pub proof fn lemma_unique_prepend<A>(s: Seq<A>, x: A, key: spec_fn(A) -> Seq<char>)
    requires
        forall|i: int, j: int| 0 <= i < j < s.len() ==> key(s[i]) != key(s[j]),
        forall|i: int| 0 <= i < s.len() ==> key(s[i]) != key(x),
    ensures
        forall|i: int, j: int|
            0 <= i < j < (seq![x] + s).len() ==> key((seq![x] + s)[i]) != key((seq![x] + s)[j]),
{
    let t = seq![x] + s;
    assert forall|i: int, j: int| 0 <= i < j < t.len() implies key(t[i]) != key(t[j]) by {
        if i == 0 {
            assert(t[j] == s[j - 1]);
        } else {
            assert(t[i] == s[i - 1]);
            assert(t[j] == s[j - 1]);
        }
    }
}

/// Pairwise-distinct keys survive removing an element.
pub proof fn lemma_unique_remove<A>(s: Seq<A>, idx: int, key: spec_fn(A) -> Seq<char>)
    requires
        0 <= idx < s.len(),
        forall|i: int, j: int| 0 <= i < j < s.len() ==> key(s[i]) != key(s[j]),
    ensures
        forall|i: int, j: int|
            0 <= i < j < s.remove(idx).len() ==> key(s.remove(idx)[i]) != key(s.remove(idx)[j]),
{
    let t = s.remove(idx);
    assert forall|i: int, j: int| 0 <= i < j < t.len() implies key(t[i]) != key(t[j]) by {
        let i0 = if i < idx { i } else { i + 1 };
        let j0 = if j < idx { j } else { j + 1 };
        assert(t[i] == s[i0]);
        assert(t[j] == s[j0]);
    }
}

/// Pairwise-distinct keys survive replacing an element by one with the
/// same key.
pub proof fn lemma_unique_update<A>(s: Seq<A>, idx: int, x: A, key: spec_fn(A) -> Seq<char>)
    requires
        0 <= idx < s.len(),
        key(x) == key(s[idx]),
        forall|i: int, j: int| 0 <= i < j < s.len() ==> key(s[i]) != key(s[j]),
    ensures
        forall|i: int, j: int|
            0 <= i < j < s.update(idx, x).len() ==> key(s.update(idx, x)[i]) != key(
                s.update(idx, x)[j],
            ),
{
}

/// Pairwise-distinct keys survive filtering.
pub proof fn lemma_filter_unique_keys<A>(s: Seq<A>, pred: spec_fn(A) -> bool, key: spec_fn(A) -> Seq<char>)
    requires
        forall|i: int, j: int| 0 <= i < j < s.len() ==> key(s[i]) != key(s[j]),
    ensures
        forall|i: int, j: int|
            0 <= i < j < s.filter(pred).len() ==> key(s.filter(pred)[i]) != key(s.filter(pred)[j]),
    decreases s.len(),
{
    reveal(Seq::filter);
    if s.len() != 0 {
        lemma_filter_unique_keys(s.drop_last(), pred, key);
        lemma_filter_subset(s.drop_last(), pred);
        let f = s.filter(pred);
        let fd = s.drop_last().filter(pred);
        assert forall|i: int, j: int| 0 <= i < j < f.len() implies key(f[i]) != key(f[j]) by {
            if j < fd.len() {
                assert(f[i] == fd[i]);
                assert(f[j] == fd[j]);
            } else {
                assert(pred(s.last()) && f == fd.push(s.last()));
                assert(f[j] == s.last());
                assert(f[i] == fd[i]);
                assert(s.drop_last().contains(fd[i]));
                let w = choose|w: int|
                    0 <= w < s.drop_last().len() && s.drop_last()[w] == fd[i];
                assert(s[w] == fd[i]);
                assert(key(s[w]) != key(s[s.len() - 1]));
            }
        }
    }
}

/// With pairwise-distinct ids, a position holding the wanted id is the
/// chosen index.
pub proof fn lemma_campaign_idx(s: Seq<Campaign>, id: Seq<char>, i: int)
    requires
        forall|a: int, b: int| 0 <= a < b < s.len() ==> (#[trigger] s[a]).id@ != (#[trigger] s[b]).id@,
        0 <= i < s.len(),
        s[i].id@ == id,
    ensures
        has_campaign_id(s, id),
        campaign_idx_of(s, id) == i,
{
    assert(has_campaign_id(s, id));
    let j = campaign_idx_of(s, id);
    if i < j {
        assert(s[i].id@ != s[j].id@);
    } else if j < i {
        assert(s[j].id@ != s[i].id@);
    }
}

/// With pairwise-distinct ids, a position holding the wanted id is the
/// chosen index.
pub proof fn lemma_entity_idx(s: Seq<Entity>, id: Seq<char>, i: int)
    requires
        forall|a: int, b: int| 0 <= a < b < s.len() ==> (#[trigger] s[a]).id@ != (#[trigger] s[b]).id@,
        0 <= i < s.len(),
        s[i].id@ == id,
    ensures
        has_entity_id(s, id),
        entity_idx_of(s, id) == i,
{
    assert(has_entity_id(s, id));
    let j = entity_idx_of(s, id);
    if i < j {
        assert(s[i].id@ != s[j].id@);
    } else if j < i {
        assert(s[j].id@ != s[i].id@);
    }
}

/// With pairwise-distinct ids, a position holding the wanted id is the
/// chosen index.
pub proof fn lemma_tracker_idx(s: Seq<CountdownTracker>, id: Seq<char>, i: int)
    requires
        forall|a: int, b: int| 0 <= a < b < s.len() ==> (#[trigger] s[a]).id@ != (#[trigger] s[b]).id@,
        0 <= i < s.len(),
        s[i].id@ == id,
    ensures
        has_tracker_id(s, id),
        tracker_idx_of(s, id) == i,
{
    assert(has_tracker_id(s, id));
    let j = tracker_idx_of(s, id);
    if i < j {
        assert(s[i].id@ != s[j].id@);
    } else if j < i {
        assert(s[j].id@ != s[i].id@);
    }
}

/// With pairwise-distinct ids, a position holding the wanted id is the
/// chosen index.
pub proof fn lemma_note_idx(s: Seq<CampaignNote>, id: Seq<char>, i: int)
    requires
        forall|a: int, b: int| 0 <= a < b < s.len() ==> (#[trigger] s[a]).id@ != (#[trigger] s[b]).id@,
        0 <= i < s.len(),
        s[i].id@ == id,
    ensures
        has_note_id(s, id),
        note_idx_of(s, id) == i,
{
    assert(has_note_id(s, id));
    let j = note_idx_of(s, id);
    if i < j {
        assert(s[i].id@ != s[j].id@);
    } else if j < i {
        assert(s[j].id@ != s[i].id@);
    }
}

/// With pairwise-distinct ids, a position holding the wanted id is the
/// chosen index.
pub proof fn lemma_roll_idx(s: Seq<DiceRoll>, id: Seq<char>, i: int)
    requires
        forall|a: int, b: int| 0 <= a < b < s.len() ==> (#[trigger] s[a]).id@ != (#[trigger] s[b]).id@,
        0 <= i < s.len(),
        s[i].id@ == id,
    ensures
        has_roll_id(s, id),
        roll_idx_of(s, id) == i,
{
    assert(has_roll_id(s, id));
    let j = roll_idx_of(s, id);
    if i < j {
        assert(s[i].id@ != s[j].id@);
    } else if j < i {
        assert(s[j].id@ != s[i].id@);
    }
}

/// With pairwise-distinct ids, a position holding the wanted id is the
/// chosen index.
pub proof fn lemma_pc_idx(s: Seq<PlayerCharacter>, id: Seq<char>, i: int)
    requires
        forall|a: int, b: int| 0 <= a < b < s.len() ==> (#[trigger] s[a]).id@ != (#[trigger] s[b]).id@,
        0 <= i < s.len(),
        s[i].id@ == id,
    ensures
        has_pc_id(s, id),
        pc_idx_of(s, id) == i,
{
    assert(has_pc_id(s, id));
    let j = pc_idx_of(s, id);
    if i < j {
        assert(s[i].id@ != s[j].id@);
    } else if j < i {
        assert(s[j].id@ != s[i].id@);
    }
}

/// A just-created entity is read back exactly: in a well-formed store,
/// looking up the id of the entity at the front of the list — where every
/// creation command puts the new record — yields that entity, with every
/// field as the creation contract pinned it.
pub proof fn lemma_front_entity_read_back(s: Store)
    requires
        s.wf(),
        s.entities@.len() > 0,
    ensures
        s.has_entity(s.entities@[0].id@),
        s.entity_at(s.entities@[0].id@) == s.entities@[0],
{
    lemma_entity_idx(s.entities@, s.entities@[0].id@, 0);
}

/// A just-created tracker is read back exactly, as for entities.
pub proof fn lemma_front_tracker_read_back(s: Store)
    requires
        s.wf(),
        s.trackers@.len() > 0,
    ensures
        s.has_tracker(s.trackers@[0].id@),
        s.tracker_at(s.trackers@[0].id@) == s.trackers@[0],
{
    lemma_tracker_idx(s.trackers@, s.trackers@[0].id@, 0);
}

/// A just-created player character is read back exactly, as for entities.
pub proof fn lemma_front_pc_read_back(s: Store)
    requires
        s.wf(),
        s.player_characters@.len() > 0,
    ensures
        s.has_pc(s.player_characters@[0].id@),
        s.pc_at(s.player_characters@[0].id@) == s.player_characters@[0],
{
    lemma_pc_idx(s.player_characters@, s.player_characters@[0].id@, 0);
}

/// Membership of campaign ids after prepending a campaign.
pub proof fn lemma_has_campaign_prepend(s: Seq<Campaign>, c: Campaign)
    ensures
        forall|x: Seq<char>|
            #[trigger] has_campaign_id(seq![c] + s, x) <==> (x == c.id@ || has_campaign_id(s, x)),
{
    let t = seq![c] + s;
    assert forall|x: Seq<char>|
        #[trigger] has_campaign_id(t, x) <==> (x == c.id@ || has_campaign_id(s, x)) by {
        if has_campaign_id(t, x) {
            let i = choose|i: int| 0 <= i < t.len() && t[i].id@ == x;
            if i == 0 {
                assert(t[0] == c);
            } else {
                assert(t[i] == s[i - 1]);
                assert(has_campaign_id(s, x));
            }
        }
        if x == c.id@ {
            assert(t[0] == c);
            assert(has_campaign_id(t, x));
        }
        if has_campaign_id(s, x) {
            let i = choose|i: int| 0 <= i < s.len() && s[i].id@ == x;
            assert(t[i + 1] == s[i]);
            assert(has_campaign_id(t, x));
        }
    }
}

/// Membership of campaign ids after removing a campaign, given that ids
/// are pairwise distinct.
pub proof fn lemma_has_campaign_remove(s: Seq<Campaign>, idx: int)
    requires
        0 <= idx < s.len(),
        forall|i: int, j: int| 0 <= i < j < s.len() ==> (#[trigger] s[i]).id@ != (#[trigger] s[j]).id@,
    ensures
        forall|x: Seq<char>|
            #[trigger] has_campaign_id(s.remove(idx), x) <==> (has_campaign_id(s, x) && x != s[idx].id@),
{
    let t = s.remove(idx);
    assert forall|x: Seq<char>|
        #[trigger] has_campaign_id(t, x) <==> (has_campaign_id(s, x) && x != s[idx].id@) by {
        if has_campaign_id(t, x) {
            let i = choose|i: int| 0 <= i < t.len() && t[i].id@ == x;
            let i0 = if i < idx { i } else { i + 1 };
            assert(t[i] == s[i0]);
            assert(has_campaign_id(s, x));
            if i0 < idx {
                assert(s[i0].id@ != s[idx].id@);
            } else {
                assert(s[idx].id@ != s[i0].id@);
            }
        }
        if has_campaign_id(s, x) && x != s[idx].id@ {
            let i = choose|i: int| 0 <= i < s.len() && s[i].id@ == x;
            let i1 = if i < idx { i } else { i - 1 };
            assert(t[i1] == s[i]);
            assert(has_campaign_id(t, x));
        }
    }
}

/// Membership of campaign ids after replacing a campaign by one with the
/// same id.
pub proof fn lemma_has_campaign_update(s: Seq<Campaign>, idx: int, c: Campaign)
    requires
        0 <= idx < s.len(),
        c.id@ == s[idx].id@,
    ensures
        forall|x: Seq<char>|
            #[trigger] has_campaign_id(s.update(idx, c), x) <==> has_campaign_id(s, x),
{
    let t = s.update(idx, c);
    assert forall|x: Seq<char>|
        #[trigger] has_campaign_id(t, x) <==> has_campaign_id(s, x) by {
        if has_campaign_id(t, x) {
            let i = choose|i: int| 0 <= i < t.len() && t[i].id@ == x;
            if i == idx {
                assert(s[idx].id@ == x);
            } else {
                assert(t[i] == s[i]);
            }
            assert(has_campaign_id(s, x));
        }
        if has_campaign_id(s, x) {
            let i = choose|i: int| 0 <= i < s.len() && s[i].id@ == x;
            if i == idx {
                assert(t[idx].id@ == x);
            } else {
                assert(t[i] == s[i]);
            }
            assert(has_campaign_id(t, x));
        }
    }
}

} // verus!
