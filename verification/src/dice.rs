//! Dice-roll history: an append-only, campaign-scoped log.

use vstd::prelude::*;
use vstd::string::StrSliceExecFns;

use crate::error::AppError;
use crate::idgen::fresh_id;
use crate::store::{
    find_campaign, find_roll, has_roll_id, lemma_filter_take_step,
    lemma_roll_idx, lemma_unique_prepend, lemma_unique_remove, roll_idx_of, Store,
};

verus! {

/// One logged dice roll.  Immutable once created, except for deletion.
#[derive(Debug)]
pub struct DiceRoll {
    pub id: String,
    pub campaign_id: String,
    pub notation: String,
    pub dice_data: String,
    pub modifier: i32,
    pub total: i32,
    pub is_crit: bool,
    pub is_fumble: bool,
    pub shared_with_players: bool,
    pub rolled_at: String,
}

impl Clone for DiceRoll {
    fn clone(&self) -> (r: Self)
        ensures
            r == *self,
    {
        DiceRoll {
            id: self.id.clone(),
            campaign_id: self.campaign_id.clone(),
            notation: self.notation.clone(),
            dice_data: self.dice_data.clone(),
            modifier: self.modifier,
            total: self.total,
            is_crit: self.is_crit,
            is_fumble: self.is_fumble,
            shared_with_players: self.shared_with_players,
            rolled_at: self.rolled_at.clone(),
        }
    }
}

/// One calendar-day bucket of rolls.
#[derive(Debug)]
pub struct DiceRollsByDate {
    pub date: String,
    pub rolls: Vec<DiceRoll>,
}

/// The rolls a listing for the campaign `cid` keeps.
pub open spec fn roll_in(cid: Seq<char>) -> spec_fn(DiceRoll) -> bool {
    |r: DiceRoll| r.campaign_id@ == cid
}

/// The rolls that survive deleting the campaign `cid`.
pub open spec fn roll_kept(cid: Seq<char>) -> spec_fn(DiceRoll) -> bool {
    |r: DiceRoll| r.campaign_id@ != cid
}

/// The calendar-day part of a timestamp: everything before the first
/// space, or the whole string when it has none.
pub open spec fn date_of(s: Seq<char>) -> Seq<char>
    decreases s.len(),
{
    if s.len() == 0 {
        Seq::empty()
    } else if s[0] == ' ' {
        Seq::empty()
    } else {
        seq![s[0]] + date_of(s.drop_first())
    }
}

/// `date_of` is the prefix that ends at the first space.
pub proof fn lemma_date_of_prefix(s: Seq<char>, idx: int)
    requires
        0 <= idx <= s.len(),
        forall|k: int| 0 <= k < idx ==> s[k] != ' ',
        idx < s.len() ==> s[idx] == ' ',
    ensures
        date_of(s) == s.take(idx),
    decreases s.len(),
{
    if s.len() == 0 {
        assert(s.take(0) =~= Seq::<char>::empty());
    } else if idx == 0 {
        assert(s.take(0) =~= Seq::<char>::empty());
    } else {
        assert(s[0] != ' ');
        lemma_date_of_prefix(s.drop_first(), idx - 1);
        assert(s.take(idx) =~= seq![s[0]] + s.drop_first().take(idx - 1));
    }
}

/// The rolls whose timestamp falls on the calendar day `d`.
pub open spec fn roll_on_day(d: Seq<char>) -> spec_fn(DiceRoll) -> bool {
    |x: DiceRoll| date_of(x.rolled_at@) == d
}

/// Some bucket carries the calendar day of the roll `x`.
pub open spec fn day_covered(buckets: Seq<DiceRollsByDate>, x: DiceRoll) -> bool {
    exists|k: int|
        0 <= k < buckets.len() && (#[trigger] buckets[k]).date@ == date_of(x.rolled_at@)
}

/// In `listed`, some roll on day `da` comes before every roll on day
/// `db`: day `da` first occurs earlier than day `db`.
pub open spec fn day_before(listed: Seq<DiceRoll>, da: Seq<char>, db: Seq<char>) -> bool {
    exists|j0: int|
        {
            &&& 0 <= j0 < listed.len()
            &&& date_of((#[trigger] listed[j0]).rolled_at@) == da
            &&& forall|j2: int| 0 <= j2 <= j0 ==> date_of(listed[j2].rolled_at@) != db
        }
}

/// A day that occurs nowhere in a prefix contributes an empty bucket.
pub proof fn lemma_no_day_in_prefix(lv: Seq<DiceRoll>, j: int, d: Seq<char>)
    requires
        0 <= j <= lv.len(),
        forall|p: int| 0 <= p < j ==> date_of((#[trigger] lv[p]).rolled_at@) != d,
    ensures
        lv.take(j).filter(roll_on_day(d)) == Seq::<DiceRoll>::empty(),
{
    let f = lv.take(j).filter(roll_on_day(d));
    if f.len() > 0 {
        crate::store::lemma_filter_subset(lv.take(j), roll_on_day(d));
        lv.take(j).lemma_filter_pred(roll_on_day(d), 0);
        assert(lv.take(j).contains(f[0]));
        let w = choose|w: int| 0 <= w < lv.take(j).len() && lv.take(j)[w] == f[0];
        assert(lv[w] == f[0]);
        assert(false);
    }
    assert(f =~= Seq::<DiceRoll>::empty());
}

/// Extracts the calendar-day part of a timestamp: everything before the
/// first space, or the whole string when it has none.
pub fn day_of(ts: &str) -> (r: String)
    ensures
        r@ == date_of(ts@),
{
    let n = ts.unicode_len();
    let mut idx: usize = 0;
    while idx < n
        invariant_except_break
            idx <= n,
            n == ts@.len(),
            forall|k: int| 0 <= k < idx ==> ts@[k] != ' ',
        ensures
            idx <= n,
            n == ts@.len(),
            forall|k: int| 0 <= k < idx ==> ts@[k] != ' ',
            idx < n ==> ts@[idx as int] == ' ',
        decreases n - idx,
    {
        if ts.get_char(idx) == ' ' {
            break;
        }
        idx = idx + 1;
    }
    proof {
        lemma_date_of_prefix(ts@, idx as int);
    }
    let day = ts.substring_char(0, idx);
    proof {
        assert(ts@.subrange(0, idx as int) == ts@.take(idx as int));
    }
    day.to_owned()
}

/// Finds the bucket carrying the given date.
pub(crate) fn find_bucket(v: &Vec<DiceRollsByDate>, d: &String) -> (r: Option<usize>)
    ensures
        match r {
            Some(j) => j < v.len() && v@[j as int].date@ == d@,
            None => forall|k: int| 0 <= k < v@.len() ==> (#[trigger] v@[k]).date@ != d@,
        },
{
    let mut i: usize = 0;
    while i < v.len()
        invariant
            i <= v.len(),
            forall|k: int| 0 <= k < i ==> (#[trigger] v@[k]).date@ != d@,
        decreases v.len() - i,
    {
        if v[i].date == *d {
            return Some(i);
        }
        i = i + 1;
    }
    None
}

/// The resolved result limit: the requested one, defaulting to 100.
pub open spec fn roll_limit(limit: Option<i32>) -> int {
    match limit {
        Some(l) => l as int,
        None => 100,
    }
}

/// What a roll listing returns: the newest matching rolls, capped at the
/// limit unless it is negative (negative means unlimited).
pub open spec fn listed_rolls(rolls: Seq<DiceRoll>, cid: Seq<char>, limit: Option<i32>) -> Seq<
    DiceRoll,
> {
    let f = rolls.filter(roll_in(cid));
    let lim = roll_limit(limit);
    if lim < 0 || lim >= f.len() {
        f
    } else {
        f.take(lim)
    }
}

impl Store {
    /// Appends a roll under the given id to a campaign's log, stamped now.
    /// Fails with `PersistenceError` when the campaign does not exist or
    /// the id is already taken.
    pub fn save_dice_roll_with_id(
        &mut self,
        id: String,
        campaign_id: &String,
        notation: String,
        dice_data: String,
        modifier: i32,
        total: i32,
        is_crit: bool,
        is_fumble: bool,
        shared_with_players: bool,
        now: String,
    ) -> (r: Result<DiceRoll, AppError>)
        requires
            old(self).wf(),
        ensures
            final(self).wf(),
            match r {
                Ok(d) => {
                    &&& old(self).has_campaign(campaign_id@)
                    &&& !has_roll_id(old(self).dice_rolls@, id@)
                    &&& d.id == id
                    &&& d.campaign_id == *campaign_id
                    &&& d.notation == notation
                    &&& d.dice_data == dice_data
                    &&& d.modifier == modifier
                    &&& d.total == total
                    &&& d.is_crit == is_crit
                    &&& d.is_fumble == is_fumble
                    &&& d.shared_with_players == shared_with_players
                    &&& d.rolled_at == now
                    &&& final(self).dice_rolls@ == seq![d] + old(self).dice_rolls@
                    &&& final(self).agrees_except_rolls(*old(self))
                },
                Err(e) => {
                    &&& !old(self).has_campaign(campaign_id@) || has_roll_id(
                        old(self).dice_rolls@,
                        id@,
                    )
                    &&& e is PersistenceError
                    &&& *final(self) == *old(self)
                },
            },
    {
        if find_campaign(&self.campaigns, campaign_id).is_none() {
            return Err(AppError::PersistenceError(campaign_id.clone()));
        }
        if find_roll(&self.dice_rolls, &id).is_some() {
            return Err(AppError::PersistenceError(id));
        }
        let d = DiceRoll {
            id,
            campaign_id: campaign_id.clone(),
            notation,
            dice_data,
            modifier,
            total,
            is_crit,
            is_fumble,
            shared_with_players,
            rolled_at: now,
        };
        let ret = d.clone();
        let ghost gd = d;
        let ghost orig = self.dice_rolls@;
        self.dice_rolls.insert(0, d);
        proof {
            assert(self.dice_rolls@ =~= seq![gd] + orig);
            lemma_unique_prepend(orig, gd, |x: DiceRoll| x.id@);
        }
        Ok(ret)
    }

    /// Appends a roll under a freshly generated id to a campaign's log.
    pub fn save_dice_roll(
        &mut self,
        campaign_id: &String,
        notation: String,
        dice_data: String,
        modifier: i32,
        total: i32,
        is_crit: bool,
        is_fumble: bool,
        shared_with_players: bool,
        now: String,
    ) -> (r: Result<DiceRoll, AppError>)
        requires
            old(self).wf(),
        ensures
            final(self).wf(),
            match r {
                Ok(d) => {
                    &&& old(self).has_campaign(campaign_id@)
                    &&& !has_roll_id(old(self).dice_rolls@, d.id@)
                    &&& d.campaign_id == *campaign_id
                    &&& d.notation == notation
                    &&& d.dice_data == dice_data
                    &&& d.modifier == modifier
                    &&& d.total == total
                    &&& d.is_crit == is_crit
                    &&& d.is_fumble == is_fumble
                    &&& d.shared_with_players == shared_with_players
                    &&& d.rolled_at == now
                    &&& final(self).dice_rolls@ == seq![d] + old(self).dice_rolls@
                    &&& final(self).agrees_except_rolls(*old(self))
                },
                Err(e) => {
                    &&& e is PersistenceError
                    &&& *final(self) == *old(self)
                },
            },
    {
        let id = fresh_id();
        self.save_dice_roll_with_id(
            id,
            campaign_id,
            notation,
            dice_data,
            modifier,
            total,
            is_crit,
            is_fumble,
            shared_with_players,
            now,
        )
    }

    /// A campaign's newest rolls, newest first, capped at `limit` (default
    /// 100; a negative limit means no cap).
    pub fn get_dice_rolls(&self, campaign_id: &String, limit: Option<i32>) -> (r: Vec<DiceRoll>)
        ensures
            r@ == listed_rolls(self.dice_rolls@, campaign_id@, limit),
    {
        let lim: i32 = match limit {
            Some(l) => l,
            None => 100,
        };
        let ghost rls = self.dice_rolls@;
        let mut out: Vec<DiceRoll> = Vec::new();
        let mut i: usize = 0;
        while i < self.dice_rolls.len()
            invariant
                i <= self.dice_rolls.len(),
                self.dice_rolls@ == rls,
                lim as int == roll_limit(limit),
                out@ == ({
                    let g = rls.take(i as int).filter(roll_in(campaign_id@));
                    if lim < 0 || lim >= g.len() {
                        g
                    } else {
                        g.take(lim as int)
                    }
                }),
            decreases self.dice_rolls.len() - i,
        {
            proof {
                lemma_filter_take_step(rls, i as int, roll_in(campaign_id@));
            }
            let ghost g = rls.take(i as int).filter(roll_in(campaign_id@));
            if self.dice_rolls[i].campaign_id == *campaign_id {
                if lim < 0 || out.len() < lim as usize {
                    out.push(self.dice_rolls[i].clone());
                } else {
                    proof {
                        assert(g.push(rls[i as int]).take(lim as int) =~= g.take(lim as int));
                    }
                }
            }
            i = i + 1;
        }
        proof {
            assert(rls.take(rls.len() as int) == rls);
        }
        out
    }

    /// A campaign's newest rolls (as `get_dice_rolls`), grouped into one
    /// bucket per calendar day.  Buckets keep the listing order of their
    /// rolls and appear in the order the days first occur in the listing —
    /// reverse-chronological when timestamps are assigned in insertion
    /// order.
    #[verifier::rlimit(100)]
    pub fn get_dice_rolls_by_date(&self, campaign_id: &String, limit: Option<i32>) -> (r: Vec<
        DiceRollsByDate,
    >)
        ensures
            ({
                let listed = listed_rolls(self.dice_rolls@, campaign_id@, limit);
                &&& forall|a: int, b: int|
                    0 <= a < b < r@.len() ==> (#[trigger] r@[a]).date@ != (#[trigger] r@[b]).date@
                &&& forall|k: int|
                    0 <= k < r@.len() ==> (#[trigger] r@[k]).rolls@ == listed.filter(
                        roll_on_day(r@[k].date@),
                    ) && r@[k].rolls@.len() > 0
                &&& forall|j: int|
                    0 <= j < listed.len() ==> #[trigger] day_covered(r@, listed[j])
                &&& forall|a: int, b: int|
                    #![trigger r@[a], r@[b]]
                    0 <= a < b < r@.len() ==> day_before(listed, r@[a].date@, r@[b].date@)
            }),
    {
        let listed = self.get_dice_rolls(campaign_id, limit);
        let ghost lv = listed@;
        let mut out: Vec<DiceRollsByDate> = Vec::new();
        let ghost mut firsts: Seq<int> = Seq::empty();
        let mut j: usize = 0;
        while j < listed.len()
            invariant
                j <= listed.len(),
                listed@ == lv,
                lv == listed_rolls(self.dice_rolls@, campaign_id@, limit),
                firsts.len() == out@.len(),
                forall|a: int, b: int|
                    0 <= a < b < out@.len() ==> (#[trigger] out@[a]).date@ != (
                    #[trigger] out@[b]).date@,
                forall|k: int|
                    0 <= k < out@.len() ==> (#[trigger] out@[k]).rolls@ == lv.take(
                        j as int,
                    ).filter(roll_on_day(out@[k].date@)) && out@[k].rolls@.len() > 0,
                forall|jj: int| 0 <= jj < j ==> #[trigger] day_covered(out@, lv[jj]),
                forall|k: int|
                    0 <= k < firsts.len() ==> 0 <= #[trigger] firsts[k] < j && date_of(
                        lv[firsts[k]].rolled_at@,
                    ) == out@[k].date@,
                forall|k: int, j2: int|
                    0 <= k < firsts.len() && 0 <= j2 < firsts[k] ==> date_of(
                        (#[trigger] lv[j2]).rolled_at@,
                    ) != (#[trigger] out@[k]).date@,
                forall|a: int, b: int|
                    0 <= a < b < firsts.len() ==> #[trigger] firsts[a] < #[trigger] firsts[b],
            decreases listed.len() - j,
        {
            let d = day_of(listed[j].rolled_at.as_str());
            let ghost outold = out@;
            match find_bucket(&out, &d) {
                Some(k) => {
                    let mut b = out.remove(k);
                    b.rolls.push(listed[j].clone());
                    let ghost gb = b;
                    out.insert(k, b);
                    proof {
                        assert(out@ =~= outold.update(k as int, gb));
                        assert forall|kk: int|
                            0 <= kk < out@.len() implies (#[trigger] out@[kk]).rolls@ == lv.take(
                            j + 1,
                        ).filter(roll_on_day(out@[kk].date@)) && out@[kk].rolls@.len() > 0 by {
                            lemma_filter_take_step(lv, j as int, roll_on_day(out@[kk].date@));
                            if kk == k as int {
                                assert(date_of(lv[j as int].rolled_at@) == out@[kk].date@);
                            } else {
                                assert(out@[kk] == outold[kk]);
                                if kk < k as int {
                                    assert(outold[kk].date@ != outold[k as int].date@);
                                } else {
                                    assert(outold[k as int].date@ != outold[kk].date@);
                                }
                            }
                        }
                        assert forall|jj: int|
                            0 <= jj < j + 1 implies #[trigger] day_covered(out@, lv[jj]) by {
                            if jj == j as int {
                                assert(out@[k as int].date@ == date_of(lv[jj].rolled_at@));
                            } else {
                                assert(day_covered(outold, lv[jj]));
                                let kk = choose|kk: int|
                                    0 <= kk < outold.len() && (#[trigger] outold[kk]).date@
                                        == date_of(lv[jj].rolled_at@);
                                assert(out@[kk].date@ == outold[kk].date@);
                            }
                        }
                    }
                },
                None => {
                    proof {
                        assert forall|p: int|
                            0 <= p < j implies date_of((#[trigger] lv[p]).rolled_at@) != d@ by {
                            assert(day_covered(outold, lv[p]));
                            let kk = choose|kk: int|
                                0 <= kk < outold.len() && (#[trigger] outold[kk]).date@ == date_of(
                                    lv[p].rolled_at@,
                                );
                            assert(outold[kk].date@ != d@);
                        }
                        lemma_no_day_in_prefix(lv, j as int, d@);
                    }
                    let mut rolls0: Vec<DiceRoll> = Vec::new();
                    rolls0.push(listed[j].clone());
                    let nb = DiceRollsByDate { date: d, rolls: rolls0 };
                    let ghost gnb = nb;
                    out.push(nb);
                    proof {
                        assert(out@ =~= outold.push(gnb));
                        firsts = firsts.push(j as int);
                        assert forall|kk: int|
                            0 <= kk < out@.len() implies (#[trigger] out@[kk]).rolls@ == lv.take(
                            j + 1,
                        ).filter(roll_on_day(out@[kk].date@)) && out@[kk].rolls@.len() > 0 by {
                            lemma_filter_take_step(lv, j as int, roll_on_day(out@[kk].date@));
                            if kk == outold.len() as int {
                                assert(out@[kk] == gnb);
                                assert(date_of(lv[j as int].rolled_at@) == gnb.date@);
                                assert(gnb.rolls@ =~= Seq::<DiceRoll>::empty().push(
                                    lv[j as int],
                                ));
                            } else {
                                assert(out@[kk] == outold[kk]);
                                assert(date_of(lv[j as int].rolled_at@) != out@[kk].date@);
                            }
                        }
                        assert forall|jj: int|
                            0 <= jj < j + 1 implies #[trigger] day_covered(out@, lv[jj]) by {
                            if jj == j as int {
                                assert(out@[outold.len() as int].date@ == date_of(
                                    lv[jj].rolled_at@,
                                ));
                            } else {
                                assert(day_covered(outold, lv[jj]));
                                let kk = choose|kk: int|
                                    0 <= kk < outold.len() && (#[trigger] outold[kk]).date@
                                        == date_of(lv[jj].rolled_at@);
                                assert(out@[kk].date@ == outold[kk].date@);
                            }
                        }
                    }
                },
            }
            j = j + 1;
        }
        proof {
            assert(lv.take(lv.len() as int) == lv);
            let gl = listed_rolls(self.dice_rolls@, campaign_id@, limit);
            assert(gl == lv);
            assert forall|jj: int|
                0 <= jj < gl.len() implies #[trigger] day_covered(out@, gl[jj]) by {
                assert(gl[jj] == lv[jj]);
                assert(day_covered(out@, lv[jj]));
            }
            assert forall|a: int, b: int|
                #![trigger out@[a], out@[b]]
                0 <= a < b < out@.len() implies day_before(gl, out@[a].date@, out@[b].date@) by {
                let j0 = firsts[a];
                assert(gl[j0] == lv[j0]);
                assert(date_of(gl[j0].rolled_at@) == out@[a].date@);
                assert(firsts[a] < firsts[b]);
                assert forall|j2: int|
                    0 <= j2 <= j0 implies date_of((#[trigger] gl[j2]).rolled_at@)
                        != out@[b].date@ by {
                    assert(gl[j2] == lv[j2]);
                    assert(j2 < firsts[b]);
                }
                assert(day_before(gl, out@[a].date@, out@[b].date@));
            }
        }
        out
    }

    /// Deletes one roll by id; deleting an unknown id is a no-op.
    pub fn delete_dice_roll(&mut self, id: &String) -> (r: Result<(), AppError>)
        requires
            old(self).wf(),
        ensures
            final(self).wf(),
            r is Ok,
            final(self).dice_rolls@ == (if has_roll_id(old(self).dice_rolls@, id@) {
                old(self).dice_rolls@.remove(roll_idx_of(old(self).dice_rolls@, id@))
            } else {
                old(self).dice_rolls@
            }),
            final(self).agrees_except_rolls(*old(self)),
    {
        match find_roll(&self.dice_rolls, id) {
            Some(i) => {
                proof {
                    lemma_roll_idx(self.dice_rolls@, id@, i as int);
                }
                let ghost orig = self.dice_rolls@;
                self.dice_rolls.remove(i);
                proof {
                    lemma_unique_remove(orig, i as int, |x: DiceRoll| x.id@);
                }
                Ok(())
            },
            None => Ok(()),
        }
    }

    /// Clears a campaign's whole roll history.
    pub fn clear_dice_history(&mut self, campaign_id: &String) -> (r: Result<(), AppError>)
        requires
            old(self).wf(),
        ensures
            final(self).wf(),
            r is Ok,
            final(self).dice_rolls@ == old(self).dice_rolls@.filter(roll_kept(campaign_id@)),
            final(self).agrees_except_rolls(*old(self)),
    {
        let ghost oldst = *self;
        self.drop_campaign_rolls(campaign_id);
        proof {
            crate::store::lemma_filter_unique_keys(
                oldst.dice_rolls@,
                roll_kept(campaign_id@),
                |x: DiceRoll| x.id@,
            );
            crate::store::lemma_filter_subset(oldst.dice_rolls@, roll_kept(campaign_id@));
            assert forall|i: int|
                0 <= i < self.dice_rolls@.len() implies self.has_campaign(
                (#[trigger] self.dice_rolls@[i]).campaign_id@,
            ) by {
                oldst.dice_rolls@.lemma_filter_pred(roll_kept(campaign_id@), i);
                let n = self.dice_rolls@[i];
                let w = choose|w: int|
                    0 <= w < oldst.dice_rolls@.len() && oldst.dice_rolls@[w] == n;
                assert(oldst.has_campaign(oldst.dice_rolls@[w].campaign_id@));
            }
        }
        Ok(())
    }
}

} // verus!
