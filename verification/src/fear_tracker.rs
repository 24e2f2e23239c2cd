//! The shared fear-level meter: one non-negative integer per campaign,
//! always operated on through the currently selected campaign.

use vstd::prelude::*;

use crate::campaign::Campaign;
use crate::entity::clamped;
use crate::error::AppError;
use crate::store::{
    campaign_idx_of, find_campaign, lemma_campaign_idx, lemma_has_campaign_update,
    lemma_unique_update, Store,
};

verus! {

impl Store {
    /// The fear level of the current campaign; fails with
    /// `InvalidOperation` when no campaign is selected.
    pub fn get_fear_level(&self) -> (r: Result<i32, AppError>)
        requires
            self.wf(),
        ensures
            match self.current_campaign {
                Some(cur) => r matches Ok(v) && v == self.campaign_at(cur@).fear_level,
                None => r matches Err(e) && e is InvalidOperation,
            },
    {
        let cur = match self.get_current_campaign_id() {
            Some(cur) => cur,
            None => {
                return Err(AppError::InvalidOperation("No campaign selected".to_owned()));
            },
        };
        match find_campaign(&self.campaigns, &cur) {
            Some(i) => {
                proof {
                    lemma_campaign_idx(self.campaigns@, cur@, i as int);
                }
                Ok(self.campaigns[i].fear_level)
            },
            None => {
                proof {
                    assert(false);
                }
                Err(AppError::InvalidOperation("No campaign selected".to_owned()))
            },
        }
    }

    /// Moves the current campaign's fear level by `amount`, clamped below
    /// at zero (and saturating at the integer ceiling).  Fails with
    /// `InvalidOperation` when no campaign is selected.
    pub fn adjust_fear_level(&mut self, amount: i32) -> (r: Result<i32, AppError>)
        requires
            old(self).wf(),
        ensures
            final(self).wf(),
            match old(self).current_campaign {
                None => r matches Err(e) && e is InvalidOperation && *final(self) == *old(self),
                Some(cur) => {
                    &&& r matches Ok(v)
                    &&& v == clamped(
                        old(self).campaign_at(cur@).fear_level + amount,
                        0,
                        i32::MAX as int,
                    )
                    &&& final(self).campaigns@ == old(self).campaigns@.update(
                        campaign_idx_of(old(self).campaigns@, cur@),
                        (Campaign { fear_level: v, ..old(self).campaign_at(cur@) }),
                    )
                    &&& final(self).agrees_except_campaigns(*old(self))
                },
            },
    {
        let cur = match self.get_current_campaign_id() {
            Some(cur) => cur,
            None => {
                return Err(AppError::InvalidOperation("No campaign selected".to_owned()));
            },
        };
        match find_campaign(&self.campaigns, &cur) {
            Some(i) => {
                proof {
                    lemma_campaign_idx(self.campaigns@, cur@, i as int);
                }
                let mut c = self.campaigns[i].clone();
                let sum: i64 = c.fear_level as i64 + amount as i64;
                let nv: i32 = if sum < 0 {
                    0
                } else if sum > i32::MAX as i64 {
                    i32::MAX
                } else {
                    sum as i32
                };
                c.fear_level = nv;
                let ghost gc = c;
                let ghost orig = self.campaigns@;
                self.campaigns.set(i, c);
                proof {
                    lemma_unique_update(orig, i as int, gc, |cc: Campaign| cc.id@);
                    lemma_has_campaign_update(orig, i as int, gc);
                }
                Ok(nv)
            },
            None => {
                proof {
                    assert(false);
                }
                Err(AppError::InvalidOperation("No campaign selected".to_owned()))
            },
        }
    }

    /// Sets the current campaign's fear level to `value`, clamped below at
    /// zero.  Fails with `InvalidOperation` when no campaign is selected.
    pub fn set_fear_level(&mut self, value: i32) -> (r: Result<i32, AppError>)
        requires
            old(self).wf(),
        ensures
            final(self).wf(),
            match old(self).current_campaign {
                None => r matches Err(e) && e is InvalidOperation && *final(self) == *old(self),
                Some(cur) => {
                    &&& r matches Ok(v)
                    &&& v == (if value < 0 {
                        0
                    } else {
                        value
                    })
                    &&& final(self).campaigns@ == old(self).campaigns@.update(
                        campaign_idx_of(old(self).campaigns@, cur@),
                        (Campaign { fear_level: v, ..old(self).campaign_at(cur@) }),
                    )
                    &&& final(self).agrees_except_campaigns(*old(self))
                },
            },
    {
        let cur = match self.get_current_campaign_id() {
            Some(cur) => cur,
            None => {
                return Err(AppError::InvalidOperation("No campaign selected".to_owned()));
            },
        };
        match find_campaign(&self.campaigns, &cur) {
            Some(i) => {
                proof {
                    lemma_campaign_idx(self.campaigns@, cur@, i as int);
                }
                let mut c = self.campaigns[i].clone();
                let nv: i32 = if value < 0 {
                    0
                } else {
                    value
                };
                c.fear_level = nv;
                let ghost gc = c;
                let ghost orig = self.campaigns@;
                self.campaigns.set(i, c);
                proof {
                    lemma_unique_update(orig, i as int, gc, |cc: Campaign| cc.id@);
                    lemma_has_campaign_update(orig, i as int, gc);
                }
                Ok(nv)
            },
            None => {
                proof {
                    assert(false);
                }
                Err(AppError::InvalidOperation("No campaign selected".to_owned()))
            },
        }
    }

    /// Resets the current campaign's fear level to zero.
    pub fn reset_fear_level(&mut self) -> (r: Result<i32, AppError>)
        requires
            old(self).wf(),
        ensures
            final(self).wf(),
            match old(self).current_campaign {
                None => r matches Err(e) && e is InvalidOperation && *final(self) == *old(self),
                Some(cur) => {
                    &&& r matches Ok(v)
                    &&& v == 0
                    &&& final(self).campaigns@ == old(self).campaigns@.update(
                        campaign_idx_of(old(self).campaigns@, cur@),
                        (Campaign { fear_level: 0, ..old(self).campaign_at(cur@) }),
                    )
                    &&& final(self).agrees_except_campaigns(*old(self))
                },
            },
    {
        self.set_fear_level(0)
    }
}

} // verus!
