//! Countdown trackers: clamped up/down counters, optionally annotated
//! with per-tick labels.

use vstd::prelude::*;

use crate::entity::clamped;
use crate::error::AppError;
use crate::idgen::fresh_id;
use crate::store::{
    find_tracker, has_tracker_id, lemma_filter_take_step, lemma_tracker_idx, lemma_unique_prepend,
    lemma_unique_remove, lemma_unique_update, tracker_idx_of, Store,
};

verus! {

/// A plain counter ("simple") or one that may carry tick labels ("complex").
#[derive(Clone, Copy, Debug, PartialEq, Eq, Structural)]
pub enum TrackerType {
    Simple,
    Complex,
}

impl TrackerType {
    /// The wire name of this tracker type.
    pub fn as_str(&self) -> (r: &'static str)
        ensures
            self is Simple ==> r@ == "simple"@,
            self is Complex ==> r@ == "complex"@,
    {
        match self {
            TrackerType::Simple => "simple",
            TrackerType::Complex => "complex",
        }
    }

    /// Parses a wire name; anything but "complex" is a simple tracker.
    pub fn from_str(s: &str) -> (r: Self)
        ensures
            r == (if s@ == "complex"@ { TrackerType::Complex } else { TrackerType::Simple }),
    {
        if s.to_owned() == "complex".to_owned() {
            TrackerType::Complex
        } else {
            TrackerType::Simple
        }
    }
}

/// One annotated tick of a complex tracker.
#[derive(Debug)]
pub struct TickLabel {
    pub tick: i32,
    pub label: String,
}

impl Clone for TickLabel {
    fn clone(&self) -> (r: Self)
        ensures
            r == *self,
    {
        TickLabel { tick: self.tick, label: self.label.clone() }
    }
}

/// The label stored for `tick`, if any.  Later entries win, though a
/// well-formed label list never repeats a tick.
pub open spec fn label_of(s: Seq<TickLabel>, tick: int) -> Option<Seq<char>>
    decreases s.len(),
{
    if s.len() == 0 {
        None
    } else if s.last().tick == tick {
        Some(s.last().label@)
    } else {
        label_of(s.drop_last(), tick)
    }
}

/// Well-formed label list for a tracker of the given `max`: no tick is
/// repeated and every tick lies in `[0, max]`.
pub open spec fn labels_wf(s: Seq<TickLabel>, max: int) -> bool {
    &&& forall|i: int, j: int| 0 <= i < j < s.len() ==> s[i].tick != s[j].tick
    &&& forall|i: int| 0 <= i < s.len() ==> 0 <= (#[trigger] s[i]).tick <= max
}

/// The trackers a listing with the given campaign and visibility filter
/// keeps.
pub open spec fn tracker_listed(cid: Seq<char>, visible_only: bool) -> spec_fn(
    CountdownTracker,
) -> bool {
    |t: CountdownTracker| t.campaign_id@ == cid && (!visible_only || t.visible_to_players)
}

/// The trackers that survive deleting the campaign `cid`.
pub open spec fn tracker_kept(cid: Seq<char>) -> spec_fn(CountdownTracker) -> bool {
    |t: CountdownTracker| t.campaign_id@ != cid
}

/// A just-created tracker comes back through the listing: the creation
/// commands prepend the new record, so when the tracker at the front of
/// the store belongs to the campaign `cid`, the unfiltered listing of
/// `cid` (what `get_trackers(false)` reproduces up to `tracker_like`)
/// starts with exactly that record — value at `max` and the
/// simple/complex label shape included.
pub proof fn lemma_front_tracker_listed(s: Store, cid: Seq<char>)
    requires
        s.trackers@.len() > 0,
        s.trackers@[0].campaign_id@ == cid,
    ensures
        s.trackers@.filter(tracker_listed(cid, false)).len() > 0,
        s.trackers@.filter(tracker_listed(cid, false))[0] == s.trackers@[0],
{
    crate::store::lemma_filter_first(s.trackers@, tracker_listed(cid, false));
}

/// An up/down counter clamped to `[0, max]`.  Only complex trackers carry
/// a tick-label list; simple trackers never expose one.
#[derive(Debug)]
pub struct CountdownTracker {
    pub id: String,
    pub campaign_id: String,
    pub name: String,
    pub current: i32,
    pub max: i32,
    pub visible_to_players: bool,
    pub hide_name_from_players: bool,
    pub tracker_type: TrackerType,
    pub tick_labels: Option<Vec<TickLabel>>,
}

/// Same label contents, whether or not the two lists are the same vector.
pub open spec fn same_labels(a: Option<Vec<TickLabel>>, b: Option<Vec<TickLabel>>) -> bool {
    match (a, b) {
        (Some(x), Some(y)) => x@ == y@,
        (None, None) => true,
        _ => false,
    }
}

/// Clones a label list, preserving its contents exactly.
pub fn clone_labels(v: &Vec<TickLabel>) -> (r: Vec<TickLabel>)
    ensures
        r@ == v@,
{
    let mut r: Vec<TickLabel> = Vec::new();
    let mut i: usize = 0;
    while i < v.len()
        invariant
            i <= v.len(),
            r@ == v@.take(i as int),
        decreases v.len() - i,
    {
        r.push(v[i].clone());
        proof {
            assert(v@.take(i + 1 as int) == v@.take(i as int).push(v@[i as int]));
        }
        i = i + 1;
    }
    proof {
        assert(v@.take(v@.len() as int) == v@);
    }
    r
}

/// Fieldwise equality of two trackers, comparing label lists by contents.
/// A freshly cloned tracker is `tracker_like` its original even though the
/// two label vectors are distinct values.
pub open spec fn tracker_like(a: CountdownTracker, b: CountdownTracker) -> bool {
    &&& a.id == b.id
    &&& a.campaign_id == b.campaign_id
    &&& a.name == b.name
    &&& a.current == b.current
    &&& a.max == b.max
    &&& a.visible_to_players == b.visible_to_players
    &&& a.hide_name_from_players == b.hide_name_from_players
    &&& a.tracker_type == b.tracker_type
    &&& same_labels(a.tick_labels, b.tick_labels)
}

impl Clone for CountdownTracker {
    fn clone(&self) -> (r: Self)
        ensures
            tracker_like(r, *self),
    {
        CountdownTracker {
            id: self.id.clone(),
            campaign_id: self.campaign_id.clone(),
            name: self.name.clone(),
            current: self.current,
            max: self.max,
            visible_to_players: self.visible_to_players,
            hide_name_from_players: self.hide_name_from_players,
            tracker_type: self.tracker_type,
            tick_labels: match &self.tick_labels {
                Some(v) => Some(clone_labels(v)),
                None => None,
            },
        }
    }
}

impl CountdownTracker {
    /// The tracker invariants: the value stays in `[0, max]`, and a label
    /// list exists exactly for complex trackers, well-formed for this `max`.
    pub open spec fn wf(self) -> bool {
        &&& 0 <= self.current <= self.max
        &&& match self.tick_labels {
            Some(l) => self.tracker_type is Complex && labels_wf(l@, self.max as int),
            None => self.tracker_type is Simple,
        }
    }
}

/// Pointwise `tracker_like` between two tracker lists.
pub open spec fn trackers_like(a: Seq<CountdownTracker>, b: Seq<CountdownTracker>) -> bool {
    &&& a.len() == b.len()
    &&& forall|i: int| 0 <= i < a.len() ==> tracker_like(#[trigger] a[i], b[i])
}

/// A tick that occurs nowhere in the list has no label.
pub proof fn lemma_label_of_absent(s: Seq<TickLabel>, t: int)
    requires
        forall|k: int| 0 <= k < s.len() ==> (#[trigger] s[k]).tick != t,
    ensures
        label_of(s, t) is None,
    decreases s.len(),
{
    if s.len() > 0 {
        assert(s[s.len() - 1] == s.last());
        lemma_label_of_absent(s.drop_last(), t);
    }
}

/// Appending a fresh label behaves as an upsert on `label_of`.
pub proof fn lemma_label_of_push(s: Seq<TickLabel>, x: TickLabel, t: int)
    ensures
        label_of(s.push(x), t) == (if x.tick == t {
            Some(x.label@)
        } else {
            label_of(s, t)
        }),
{
    assert(s.push(x).drop_last() =~= s);
    assert(s.push(x).last() == x);
}

/// Replacing the label at a position with one for the same tick behaves
/// as an upsert on `label_of`, provided ticks are pairwise distinct.
pub proof fn lemma_label_of_update(s: Seq<TickLabel>, j: int, x: TickLabel, t: int)
    requires
        0 <= j < s.len(),
        s[j].tick == x.tick,
        forall|a: int, b: int| 0 <= a < b < s.len() ==> (#[trigger] s[a]).tick != (#[trigger] s[b]).tick,
    ensures
        label_of(s.update(j, x), t) == (if x.tick == t {
            Some(x.label@)
        } else {
            label_of(s, t)
        }),
    decreases s.len(),
{
    let u = s.update(j, x);
    if j == s.len() - 1 {
        assert(u.last() == x);
        assert(u.drop_last() =~= s.drop_last());
    } else {
        assert(u.last() == s.last());
        assert(u.drop_last() =~= s.drop_last().update(j, x));
        assert(s[j].tick != s[s.len() - 1].tick);
        lemma_label_of_update(s.drop_last(), j, x, t);
    }
}

/// Removing the label at a position erases exactly that tick from
/// `label_of`, provided ticks are pairwise distinct.
pub proof fn lemma_label_of_remove(s: Seq<TickLabel>, j: int, t: int)
    requires
        0 <= j < s.len(),
        forall|a: int, b: int| 0 <= a < b < s.len() ==> (#[trigger] s[a]).tick != (#[trigger] s[b]).tick,
    ensures
        label_of(s.remove(j), t) == (if s[j].tick == t {
            None
        } else {
            label_of(s, t)
        }),
    decreases s.len(),
{
    let u = s.remove(j);
    if j == s.len() - 1 {
        assert(u =~= s.drop_last());
        if s[j].tick == t {
            assert forall|k: int| 0 <= k < u.len() implies (#[trigger] u[k]).tick != t by {
                assert(s[k].tick != s[s.len() - 1].tick);
            }
            lemma_label_of_absent(u, t);
        }
    } else {
        assert(u.last() == s.last());
        assert(u.drop_last() =~= s.drop_last().remove(j));
        assert(s[j].tick != s[s.len() - 1].tick);
        lemma_label_of_remove(s.drop_last(), j, t);
    }
}

/// Finds the position of a tick in a label list.
pub(crate) fn find_label(v: &Vec<TickLabel>, tick: i32) -> (r: Option<usize>)
    ensures
        match r {
            Some(j) => j < v.len() && v@[j as int].tick == tick,
            None => forall|k: int| 0 <= k < v@.len() ==> (#[trigger] v@[k]).tick != tick,
        },
{
    let mut i: usize = 0;
    while i < v.len()
        invariant
            i <= v.len(),
            forall|k: int| 0 <= k < i ==> (#[trigger] v@[k]).tick != tick,
        decreases v.len() - i,
    {
        if v[i].tick == tick {
            return Some(i);
        }
        i = i + 1;
    }
    None
}

impl Store {
    /// Creates a tracker under the given id in the current campaign: the
    /// value starts at `max`, and complex trackers start with an empty
    /// label list.  Fails with `InvalidOperation` when no campaign is
    /// selected and with `PersistenceError` when the id is taken.
    pub fn create_tracker_with_id(
        &mut self,
        id: String,
        name: String,
        max: i32,
        tracker_type: TrackerType,
        visible_to_players: Option<bool>,
        hide_name_from_players: Option<bool>,
    ) -> (r: Result<CountdownTracker, AppError>)
        requires
            old(self).wf(),
            max >= 0,
        ensures
            final(self).wf(),
            match old(self).current_campaign {
                None => r matches Err(e) && e is InvalidOperation && *final(self) == *old(self),
                Some(cur) => match r {
                    Ok(t) => {
                        &&& !has_tracker_id(old(self).trackers@, id@)
                        &&& t.id == id
                        &&& t.campaign_id == cur
                        &&& t.name == name
                        &&& t.current == max
                        &&& t.max == max
                        &&& t.visible_to_players == (match visible_to_players {
                            Some(b) => b,
                            None => false,
                        })
                        &&& t.hide_name_from_players == (match hide_name_from_players {
                            Some(b) => b,
                            None => false,
                        })
                        &&& t.tracker_type == tracker_type
                        &&& match t.tick_labels {
                            Some(l) => tracker_type is Complex && l@ =~= Seq::<TickLabel>::empty(),
                            None => tracker_type is Simple,
                        }
                        &&& final(self).trackers@.len() == old(self).trackers@.len() + 1
                        &&& tracker_like(final(self).trackers@[0], t)
                        &&& final(self).trackers@.skip(1) == old(self).trackers@
                        &&& final(self).agrees_except_trackers(*old(self))
                    },
                    Err(e) => {
                        &&& has_tracker_id(old(self).trackers@, id@)
                        &&& e is PersistenceError
                        &&& *final(self) == *old(self)
                    },
                },
            },
    {
        let cur = match self.get_current_campaign_id() {
            Some(cur) => cur,
            None => {
                return Err(AppError::InvalidOperation("No campaign selected".to_owned()));
            },
        };
        if find_tracker(&self.trackers, &id).is_some() {
            return Err(AppError::PersistenceError(id));
        }
        let is_complex = tracker_type == TrackerType::Complex;
        let t = CountdownTracker {
            id,
            campaign_id: cur,
            name,
            current: max,
            max,
            visible_to_players: match visible_to_players {
                Some(b) => b,
                None => false,
            },
            hide_name_from_players: match hide_name_from_players {
                Some(b) => b,
                None => false,
            },
            tracker_type,
            tick_labels: if is_complex {
                Some(Vec::new())
            } else {
                None
            },
        };
        let ret = t.clone();
        let ghost gt = t;
        let ghost orig = self.trackers@;
        self.trackers.insert(0, t);
        proof {
            assert(self.trackers@ =~= seq![gt] + orig);
            assert(self.trackers@.skip(1) =~= orig);
            lemma_unique_prepend(orig, gt, |x: CountdownTracker| x.id@);
        }
        Ok(ret)
    }

    /// Creates a tracker under a freshly generated id in the current
    /// campaign.
    pub fn create_tracker(
        &mut self,
        name: String,
        max: i32,
        tracker_type: TrackerType,
        visible_to_players: Option<bool>,
        hide_name_from_players: Option<bool>,
    ) -> (r: Result<CountdownTracker, AppError>)
        requires
            old(self).wf(),
            max >= 0,
        ensures
            final(self).wf(),
            match old(self).current_campaign {
                None => r matches Err(e) && e is InvalidOperation && *final(self) == *old(self),
                Some(cur) => match r {
                    Ok(t) => {
                        &&& !has_tracker_id(old(self).trackers@, t.id@)
                        &&& t.campaign_id == cur
                        &&& t.name == name
                        &&& t.current == max
                        &&& t.max == max
                        &&& t.visible_to_players == (match visible_to_players {
                            Some(b) => b,
                            None => false,
                        })
                        &&& t.hide_name_from_players == (match hide_name_from_players {
                            Some(b) => b,
                            None => false,
                        })
                        &&& t.tracker_type == tracker_type
                        &&& match t.tick_labels {
                            Some(l) => tracker_type is Complex && l@ =~= Seq::<TickLabel>::empty(),
                            None => tracker_type is Simple,
                        }
                        &&& final(self).trackers@.len() == old(self).trackers@.len() + 1
                        &&& tracker_like(final(self).trackers@[0], t)
                        &&& final(self).trackers@.skip(1) == old(self).trackers@
                        &&& final(self).agrees_except_trackers(*old(self))
                    },
                    Err(e) => {
                        &&& e is PersistenceError
                        &&& *final(self) == *old(self)
                    },
                },
            },
    {
        let id = fresh_id();
        self.create_tracker_with_id(
            id,
            name,
            max,
            tracker_type,
            visible_to_players,
            hide_name_from_players,
        )
    }

    /// Deletes the tracker with the given id, or fails with
    /// `TrackerNotFound`.
    pub fn delete_tracker(&mut self, id: &String) -> (r: Result<(), AppError>)
        requires
            old(self).wf(),
        ensures
            final(self).wf(),
            match r {
                Ok(u) => {
                    &&& has_tracker_id(old(self).trackers@, id@)
                    &&& final(self).trackers@ == old(self).trackers@.remove(
                        tracker_idx_of(old(self).trackers@, id@),
                    )
                    &&& final(self).agrees_except_trackers(*old(self))
                },
                Err(e) => {
                    &&& !has_tracker_id(old(self).trackers@, id@)
                    &&& e is TrackerNotFound
                    &&& *final(self) == *old(self)
                },
            },
    {
        match find_tracker(&self.trackers, id) {
            Some(i) => {
                proof {
                    lemma_tracker_idx(self.trackers@, id@, i as int);
                }
                let ghost orig = self.trackers@;
                self.trackers.remove(i);
                proof {
                    lemma_unique_remove(orig, i as int, |x: CountdownTracker| x.id@);
                }
                Ok(())
            },
            None => Err(AppError::TrackerNotFound(id.clone())),
        }
    }

    /// The current campaign's trackers, optionally only those visible to
    /// players, in store order.  Fails with `InvalidOperation` when no
    /// campaign is selected.
    pub fn get_trackers(&self, visible_only: bool) -> (r: Result<Vec<CountdownTracker>, AppError>)
        requires
            self.wf(),
        ensures
            match self.current_campaign {
                None => r matches Err(e) && e is InvalidOperation,
                Some(cur) => r matches Ok(v) && trackers_like(
                    v@,
                    self.trackers@.filter(tracker_listed(cur@, visible_only)),
                ),
            },
    {
        let cur = match self.get_current_campaign_id() {
            Some(cur) => cur,
            None => {
                return Err(AppError::InvalidOperation("No campaign selected".to_owned()));
            },
        };
        let mut out: Vec<CountdownTracker> = Vec::new();
        let mut i: usize = 0;
        while i < self.trackers.len()
            invariant
                i <= self.trackers.len(),
                cur@ == self.current_campaign->Some_0@,
                trackers_like(
                    out@,
                    self.trackers@.take(i as int).filter(tracker_listed(cur@, visible_only)),
                ),
            decreases self.trackers.len() - i,
        {
            let keep = self.trackers[i].campaign_id == cur && (!visible_only
                || self.trackers[i].visible_to_players);
            proof {
                lemma_filter_take_step(
                    self.trackers@,
                    i as int,
                    tracker_listed(cur@, visible_only),
                );
            }
            if keep {
                out.push(self.trackers[i].clone());
            }
            i = i + 1;
        }
        proof {
            assert(self.trackers@.take(self.trackers@.len() as int) == self.trackers@);
        }
        Ok(out)
    }

    /// Moves a tracker's value by `amount`, clamped into `[0, max]`.
    pub fn update_tracker_value(&mut self, id: &String, amount: i32) -> (r: Result<
        CountdownTracker,
        AppError,
    >)
        requires
            old(self).wf(),
        ensures
            final(self).wf(),
            match r {
                Ok(rt) => ({
                    let i = tracker_idx_of(old(self).trackers@, id@);
                    let ot = old(self).trackers@[i];
                    let st = final(self).trackers@[i];
                    &&& has_tracker_id(old(self).trackers@, id@)
                    &&& st == (CountdownTracker { current: st.current, ..ot })
                    &&& st.current == clamped(ot.current + amount, 0, ot.max as int)
                    &&& 0 <= st.current <= st.max
                    &&& final(self).trackers@ == old(self).trackers@.update(i, st)
                    &&& tracker_like(rt, st)
                    &&& final(self).agrees_except_trackers(*old(self))
                }),
                Err(e) => {
                    &&& !has_tracker_id(old(self).trackers@, id@)
                    &&& e is TrackerNotFound
                    &&& *final(self) == *old(self)
                },
            },
    {
        match find_tracker(&self.trackers, id) {
            Some(i) => {
                proof {
                    lemma_tracker_idx(self.trackers@, id@, i as int);
                }
                let ghost orig = self.trackers@;
                let mut t = self.trackers.remove(i);
                let sum: i64 = t.current as i64 + amount as i64;
                let nv: i32 = if sum < 0 {
                    0
                } else if sum > t.max as i64 {
                    t.max
                } else {
                    sum as i32
                };
                t.current = nv;
                let ret = t.clone();
                let ghost gt = t;
                self.trackers.insert(i, t);
                proof {
                    assert(self.trackers@ =~= orig.update(i as int, gt));
                    lemma_unique_update(orig, i as int, gt, |x: CountdownTracker| x.id@);
                }
                Ok(ret)
            },
            None => Err(AppError::TrackerNotFound(id.clone())),
        }
    }

    /// Sets a tracker's value to `value`, clamped into `[0, max]`.
    pub fn set_tracker_value(&mut self, id: &String, value: i32) -> (r: Result<
        CountdownTracker,
        AppError,
    >)
        requires
            old(self).wf(),
        ensures
            final(self).wf(),
            match r {
                Ok(rt) => ({
                    let i = tracker_idx_of(old(self).trackers@, id@);
                    let ot = old(self).trackers@[i];
                    let st = final(self).trackers@[i];
                    &&& has_tracker_id(old(self).trackers@, id@)
                    &&& st == (CountdownTracker { current: st.current, ..ot })
                    &&& st.current == clamped(value as int, 0, ot.max as int)
                    &&& 0 <= st.current <= st.max
                    &&& final(self).trackers@ == old(self).trackers@.update(i, st)
                    &&& tracker_like(rt, st)
                    &&& final(self).agrees_except_trackers(*old(self))
                }),
                Err(e) => {
                    &&& !has_tracker_id(old(self).trackers@, id@)
                    &&& e is TrackerNotFound
                    &&& *final(self) == *old(self)
                },
            },
    {
        match find_tracker(&self.trackers, id) {
            Some(i) => {
                proof {
                    lemma_tracker_idx(self.trackers@, id@, i as int);
                }
                let ghost orig = self.trackers@;
                let mut t = self.trackers.remove(i);
                let nv: i32 = if value < 0 {
                    0
                } else if value > t.max {
                    t.max
                } else {
                    value
                };
                t.current = nv;
                let ret = t.clone();
                let ghost gt = t;
                self.trackers.insert(i, t);
                proof {
                    assert(self.trackers@ =~= orig.update(i as int, gt));
                    lemma_unique_update(orig, i as int, gt, |x: CountdownTracker| x.id@);
                }
                Ok(ret)
            },
            None => Err(AppError::TrackerNotFound(id.clone())),
        }
    }

    /// Shows or hides a tracker from players.
    pub fn toggle_tracker_visibility(&mut self, id: &String, visible: bool) -> (r: Result<
        CountdownTracker,
        AppError,
    >)
        requires
            old(self).wf(),
        ensures
            final(self).wf(),
            match r {
                Ok(rt) => ({
                    let i = tracker_idx_of(old(self).trackers@, id@);
                    let ot = old(self).trackers@[i];
                    let st = final(self).trackers@[i];
                    &&& has_tracker_id(old(self).trackers@, id@)
                    &&& st == (CountdownTracker { visible_to_players: visible, ..ot })
                    &&& final(self).trackers@ == old(self).trackers@.update(i, st)
                    &&& tracker_like(rt, st)
                    &&& final(self).agrees_except_trackers(*old(self))
                }),
                Err(e) => {
                    &&& !has_tracker_id(old(self).trackers@, id@)
                    &&& e is TrackerNotFound
                    &&& *final(self) == *old(self)
                },
            },
    {
        match find_tracker(&self.trackers, id) {
            Some(i) => {
                proof {
                    lemma_tracker_idx(self.trackers@, id@, i as int);
                }
                let ghost orig = self.trackers@;
                let mut t = self.trackers.remove(i);
                t.visible_to_players = visible;
                let ret = t.clone();
                let ghost gt = t;
                self.trackers.insert(i, t);
                proof {
                    assert(self.trackers@ =~= orig.update(i as int, gt));
                    lemma_unique_update(orig, i as int, gt, |x: CountdownTracker| x.id@);
                }
                Ok(ret)
            },
            None => Err(AppError::TrackerNotFound(id.clone())),
        }
    }

    /// Shows or hides a tracker's name from players.
    pub fn toggle_tracker_name_visibility(&mut self, id: &String, hide_name: bool) -> (r: Result<
        CountdownTracker,
        AppError,
    >)
        requires
            old(self).wf(),
        ensures
            final(self).wf(),
            match r {
                Ok(rt) => ({
                    let i = tracker_idx_of(old(self).trackers@, id@);
                    let ot = old(self).trackers@[i];
                    let st = final(self).trackers@[i];
                    &&& has_tracker_id(old(self).trackers@, id@)
                    &&& st == (CountdownTracker { hide_name_from_players: hide_name, ..ot })
                    &&& final(self).trackers@ == old(self).trackers@.update(i, st)
                    &&& tracker_like(rt, st)
                    &&& final(self).agrees_except_trackers(*old(self))
                }),
                Err(e) => {
                    &&& !has_tracker_id(old(self).trackers@, id@)
                    &&& e is TrackerNotFound
                    &&& *final(self) == *old(self)
                },
            },
    {
        match find_tracker(&self.trackers, id) {
            Some(i) => {
                proof {
                    lemma_tracker_idx(self.trackers@, id@, i as int);
                }
                let ghost orig = self.trackers@;
                let mut t = self.trackers.remove(i);
                t.hide_name_from_players = hide_name;
                let ret = t.clone();
                let ghost gt = t;
                self.trackers.insert(i, t);
                proof {
                    assert(self.trackers@ =~= orig.update(i as int, gt));
                    lemma_unique_update(orig, i as int, gt, |x: CountdownTracker| x.id@);
                }
                Ok(ret)
            },
            None => Err(AppError::TrackerNotFound(id.clone())),
        }
    }

    /// Shows or hides every tracker of the current campaign, returning the
    /// refreshed tracker list of that campaign.
    pub fn set_all_trackers_visibility(&mut self, visible: bool) -> (r: Result<
        Vec<CountdownTracker>,
        AppError,
    >)
        requires
            old(self).wf(),
        ensures
            final(self).wf(),
            match old(self).current_campaign {
                None => r matches Err(e) && e is InvalidOperation && *final(self) == *old(self),
                Some(cur) => {
                    &&& final(self).trackers@.len() == old(self).trackers@.len()
                    &&& forall|k: int|
                        0 <= k < old(self).trackers@.len() ==> final(self).trackers@[k] == (if old(
                            self,
                        ).trackers@[k].campaign_id@ == cur@ {
                            (CountdownTracker {
                                visible_to_players: visible,
                                ..old(self).trackers@[k]
                            })
                        } else {
                            old(self).trackers@[k]
                        })
                    &&& r matches Ok(v) && trackers_like(
                        v@,
                        final(self).trackers@.filter(tracker_listed(cur@, false)),
                    )
                    &&& final(self).agrees_except_trackers(*old(self))
                },
            },
    {
        let cur = match self.get_current_campaign_id() {
            Some(cur) => cur,
            None => {
                return Err(AppError::InvalidOperation("No campaign selected".to_owned()));
            },
        };
        let ghost orig = self.trackers@;
        let mut i: usize = 0;
        while i < self.trackers.len()
            invariant
                i <= self.trackers.len(),
                self.trackers@.len() == orig.len(),
                self.agrees_except_trackers(*old(self)),
                cur@ == self.current_campaign->Some_0@,
                forall|k: int|
                    0 <= k < i ==> self.trackers@[k] == (if orig[k].campaign_id@ == cur@ {
                        (CountdownTracker { visible_to_players: visible, ..orig[k] })
                    } else {
                        orig[k]
                    }),
                forall|k: int| i <= k < orig.len() ==> self.trackers@[k] == orig[k],
            decreases self.trackers.len() - i,
        {
            if self.trackers[i].campaign_id == cur {
                let ghost before = self.trackers@;
                let mut t = self.trackers.remove(i);
                t.visible_to_players = visible;
                let ghost gt = t;
                self.trackers.insert(i, t);
                proof {
                    assert(self.trackers@ =~= before.update(i as int, gt));
                }
            }
            i = i + 1;
        }
        proof {
            assert forall|a: int, b: int|
                0 <= a < b < self.trackers@.len() implies (#[trigger] self.trackers@[a]).id@ != (
            #[trigger] self.trackers@[b]).id@ by {
                assert(self.trackers@[a].id == orig[a].id);
                assert(self.trackers@[b].id == orig[b].id);
            }
            assert forall|k: int|
                0 <= k < self.trackers@.len() implies (#[trigger] self.trackers@[k]).wf() by {
                assert(orig[k].wf());
            }
            assert forall|k: int|
                0 <= k < self.trackers@.len() implies self.has_campaign(
                (#[trigger] self.trackers@[k]).campaign_id@,
            ) by {
                assert(self.trackers@[k].campaign_id == orig[k].campaign_id);
                assert(old(self).has_campaign(orig[k].campaign_id@));
            }
            assert(self.wf());
        }
        let out = match self.get_trackers(false) {
            Ok(v) => v,
            Err(_) => {
                proof {
                    assert(false);
                }
                Vec::new()
            },
        };
        Ok(out)
    }

    /// Writes (or replaces) the label at a tick of a complex tracker.
    /// Fails with `TrackerNotFound` for an unknown id, `InvalidOperation`
    /// on a simple tracker and `OutOfRange` for a tick outside `[0, max]`.
    pub fn set_tick_label(&mut self, id: &String, tick: i32, text: String) -> (r: Result<
        CountdownTracker,
        AppError,
    >)
        requires
            old(self).wf(),
        ensures
            final(self).wf(),
            match r {
                Ok(rt) => ({
                    let i = tracker_idx_of(old(self).trackers@, id@);
                    let ot = old(self).trackers@[i];
                    let st = final(self).trackers@[i];
                    &&& has_tracker_id(old(self).trackers@, id@)
                    &&& ot.tracker_type is Complex
                    &&& 0 <= tick <= ot.max
                    &&& st.id == ot.id
                    &&& st.campaign_id == ot.campaign_id
                    &&& st.name == ot.name
                    &&& st.current == ot.current
                    &&& st.max == ot.max
                    &&& st.visible_to_players == ot.visible_to_players
                    &&& st.hide_name_from_players == ot.hide_name_from_players
                    &&& st.tracker_type == ot.tracker_type
                    &&& st.tick_labels is Some
                    &&& forall|t2: int|
                        label_of(st.tick_labels->Some_0@, t2) == (if t2 == tick {
                            Some(text@)
                        } else {
                            label_of(ot.tick_labels->Some_0@, t2)
                        })
                    &&& final(self).trackers@ == old(self).trackers@.update(i, st)
                    &&& tracker_like(rt, st)
                    &&& final(self).agrees_except_trackers(*old(self))
                }),
                Err(e) => {
                    &&& *final(self) == *old(self)
                    &&& (if !has_tracker_id(old(self).trackers@, id@) {
                        e is TrackerNotFound
                    } else if old(self).tracker_at(id@).tracker_type is Simple {
                        e matches AppError::InvalidOperation(m) && m@
                            == "Cannot add tick labels to simple tracker"@
                    } else {
                        &&& (tick < 0 || tick > old(self).tracker_at(id@).max)
                        &&& e is OutOfRange
                    })
                },
            },
    {
        match find_tracker(&self.trackers, id) {
            Some(i) => {
                proof {
                    lemma_tracker_idx(self.trackers@, id@, i as int);
                }
                if self.trackers[i].tracker_type == TrackerType::Simple {
                    return Err(AppError::InvalidOperation(
                        "Cannot add tick labels to simple tracker".to_owned(),
                    ));
                }
                if tick < 0 || tick > self.trackers[i].max {
                    return Err(AppError::OutOfRange("Tick out of range".to_owned()));
                }
                let ghost orig = self.trackers@;
                let mut t = self.trackers.remove(i);
                let mut labels = match t.tick_labels {
                    Some(l) => l,
                    None => {
                        proof {
                            assert(false);
                        }
                        Vec::new()
                    },
                };
                let ghost oldlabels = labels@;
                match find_label(&labels, tick) {
                    Some(j) => {
                        labels.set(j, TickLabel { tick, label: text });
                        proof {
                            assert forall|t2: int|
                                label_of(labels@, t2) == (if t2 == tick {
                                    Some(labels@[j as int].label@)
                                } else {
                                    label_of(oldlabels, t2)
                                }) by {
                                lemma_label_of_update(
                                    oldlabels,
                                    j as int,
                                    labels@[j as int],
                                    t2,
                                );
                            }
                        }
                    },
                    None => {
                        labels.push(TickLabel { tick, label: text });
                        proof {
                            assert forall|t2: int|
                                label_of(labels@, t2) == (if t2 == tick {
                                    Some(labels@[labels@.len() - 1].label@)
                                } else {
                                    label_of(oldlabels, t2)
                                }) by {
                                lemma_label_of_push(
                                    oldlabels,
                                    labels@[labels@.len() - 1],
                                    t2,
                                );
                            }
                        }
                    },
                }
                t.tick_labels = Some(labels);
                let ret = t.clone();
                let ghost gt = t;
                self.trackers.insert(i, t);
                proof {
                    assert(self.trackers@ =~= orig.update(i as int, gt));
                    lemma_unique_update(orig, i as int, gt, |x: CountdownTracker| x.id@);
                }
                Ok(ret)
            },
            None => Err(AppError::TrackerNotFound(id.clone())),
        }
    }

    /// Removes the label at a tick; a no-op when the tick has no label or
    /// the tracker is simple.  Fails only with `TrackerNotFound`.
    pub fn remove_tick_label(&mut self, id: &String, tick: i32) -> (r: Result<
        CountdownTracker,
        AppError,
    >)
        requires
            old(self).wf(),
        ensures
            final(self).wf(),
            match r {
                Ok(rt) => ({
                    let i = tracker_idx_of(old(self).trackers@, id@);
                    let ot = old(self).trackers@[i];
                    let st = final(self).trackers@[i];
                    &&& has_tracker_id(old(self).trackers@, id@)
                    &&& st.id == ot.id
                    &&& st.campaign_id == ot.campaign_id
                    &&& st.name == ot.name
                    &&& st.current == ot.current
                    &&& st.max == ot.max
                    &&& st.visible_to_players == ot.visible_to_players
                    &&& st.hide_name_from_players == ot.hide_name_from_players
                    &&& st.tracker_type == ot.tracker_type
                    &&& match ot.tick_labels {
                        None => st.tick_labels is None,
                        Some(ol) => st.tick_labels matches Some(sl) && forall|t2: int|
                            label_of(sl@, t2) == (if t2 == tick as int {
                                None::<Seq<char>>
                            } else {
                                label_of(ol@, t2)
                            }),
                    }
                    &&& final(self).trackers@ == old(self).trackers@.update(i, st)
                    &&& tracker_like(rt, st)
                    &&& final(self).agrees_except_trackers(*old(self))
                }),
                Err(e) => {
                    &&& !has_tracker_id(old(self).trackers@, id@)
                    &&& e is TrackerNotFound
                    &&& *final(self) == *old(self)
                },
            },
    {
        match find_tracker(&self.trackers, id) {
            Some(i) => {
                proof {
                    lemma_tracker_idx(self.trackers@, id@, i as int);
                }
                let ghost orig = self.trackers@;
                let mut t = self.trackers.remove(i);
                t = match t.tick_labels {
                    Some(mut labels) => {
                        let ghost oldlabels = labels@;
                        match find_label(&labels, tick) {
                            Some(j) => {
                                labels.remove(j);
                                proof {
                                    assert forall|t2: int|
                                        label_of(labels@, t2) == (if t2 == tick as int {
                                            None::<Seq<char>>
                                        } else {
                                            label_of(oldlabels, t2)
                                        }) by {
                                        lemma_label_of_remove(oldlabels, j as int, t2);
                                    }
                                }
                            },
                            None => {
                                proof {
                                    assert forall|t2: int|
                                        label_of(labels@, t2) == (if t2 == tick as int {
                                            None::<Seq<char>>
                                        } else {
                                            label_of(oldlabels, t2)
                                        }) by {
                                        if t2 == tick as int {
                                            lemma_label_of_absent(oldlabels, t2);
                                        }
                                    }
                                }
                            },
                        }
                        CountdownTracker { tick_labels: Some(labels), ..t }
                    },
                    None => t,
                };
                let ret = t.clone();
                let ghost gt = t;
                self.trackers.insert(i, t);
                proof {
                    assert(self.trackers@ =~= orig.update(i as int, gt));
                    lemma_unique_update(orig, i as int, gt, |x: CountdownTracker| x.id@);
                }
                Ok(ret)
            },
            None => Err(AppError::TrackerNotFound(id.clone())),
        }
    }
}

} // verus!
