//! Campaigns — the top-level scoping unit — their settings and notes.

use vstd::prelude::*;

use crate::countdown::{tracker_kept, CountdownTracker};
use crate::dice::{roll_kept, DiceRoll};
use crate::entity::{entity_kept, Entity};
use crate::error::AppError;
use crate::idgen::fresh_id;
use crate::player_character::{pc_kept, PlayerCharacter};
use crate::store::{
    campaign_idx_of, find_campaign, find_note, has_campaign_id, has_note_id, lemma_campaign_idx,
    lemma_filter_subset, lemma_filter_take_step, lemma_filter_unique_keys,
    lemma_has_campaign_prepend, lemma_has_campaign_remove, lemma_has_campaign_update,
    lemma_note_idx, lemma_unique_prepend, lemma_unique_remove, lemma_unique_update, note_idx_of,
    Store,
};

verus! {

/// One campaign: a story/session grouping all scoped records.
#[derive(Debug)]
pub struct Campaign {
    pub id: String,
    pub name: String,
    pub fear_level: i32,
    pub allow_massive_damage: bool,
    pub created_at: String,
}

impl Clone for Campaign {
    fn clone(&self) -> (r: Self)
        ensures
            r == *self,
    {
        Campaign {
            id: self.id.clone(),
            name: self.name.clone(),
            fear_level: self.fear_level,
            allow_massive_damage: self.allow_massive_damage,
            created_at: self.created_at.clone(),
        }
    }
}

impl Campaign {
    /// The campaign invariant: the fear level never drops below zero.
    pub open spec fn wf(self) -> bool {
        self.fear_level >= 0
    }
}

/// Per-campaign settings.
#[derive(Clone, Copy, Debug, PartialEq, Eq, Structural)]
pub struct CampaignSettings {
    pub allow_massive_damage: bool,
}

/// A free-form note owned by a campaign.
#[derive(Debug)]
pub struct CampaignNote {
    pub id: String,
    pub campaign_id: String,
    pub title: Option<String>,
    pub content: String,
    pub created_at: String,
    pub updated_at: String,
}

impl Clone for CampaignNote {
    fn clone(&self) -> (r: Self)
        ensures
            r == *self,
    {
        CampaignNote {
            id: self.id.clone(),
            campaign_id: self.campaign_id.clone(),
            title: match &self.title {
                Some(t) => Some(t.clone()),
                None => None,
            },
            content: self.content.clone(),
            created_at: self.created_at.clone(),
            updated_at: self.updated_at.clone(),
        }
    }
}

impl Store {
    /// Creates a campaign under the given id: fear level 0, massive damage
    /// off, created now.  Fails only when the id is already taken.
    pub fn create_campaign_with_id(&mut self, id: String, name: String, now: String) -> (r: Result<
        Campaign,
        AppError,
    >)
        requires
            old(self).wf(),
        ensures
            final(self).wf(),
            match r {
                Ok(c) => {
                    &&& !old(self).has_campaign(id@)
                    &&& c == (Campaign {
                        id: id,
                        name: name,
                        fear_level: 0,
                        allow_massive_damage: false,
                        created_at: now,
                    })
                    &&& final(self).campaigns@ == seq![c] + old(self).campaigns@
                    &&& final(self).agrees_except_campaigns(*old(self))
                },
                Err(e) => {
                    &&& old(self).has_campaign(id@)
                    &&& e is PersistenceError
                    &&& *final(self) == *old(self)
                },
            },
    {
        if find_campaign(&self.campaigns, &id).is_some() {
            return Err(AppError::PersistenceError(id));
        }
        let c = Campaign {
            id,
            name,
            fear_level: 0,
            allow_massive_damage: false,
            created_at: now,
        };
        let ret = c.clone();
        let ghost gc = c;
        let ghost orig = self.campaigns@;
        self.campaigns.insert(0, c);
        proof {
            assert(self.campaigns@ =~= seq![gc] + orig);
            lemma_unique_prepend(orig, gc, |cc: Campaign| cc.id@);
            lemma_has_campaign_prepend(orig, gc);
        }
        Ok(ret)
    }

    /// Creates a campaign under a freshly generated id.  Fails (leaving the
    /// store untouched) only in the vanishingly unlikely case that the
    /// generated id is already taken.
    pub fn create_campaign(&mut self, name: String, now: String) -> (r: Result<Campaign, AppError>)
        requires
            old(self).wf(),
        ensures
            final(self).wf(),
            match r {
                Ok(c) => {
                    &&& !old(self).has_campaign(c.id@)
                    &&& c.name == name
                    &&& c.fear_level == 0
                    &&& c.allow_massive_damage == false
                    &&& c.created_at == now
                    &&& final(self).campaigns@ == seq![c] + old(self).campaigns@
                    &&& final(self).agrees_except_campaigns(*old(self))
                },
                Err(e) => {
                    &&& e is PersistenceError
                    &&& *final(self) == *old(self)
                },
            },
    {
        let id = fresh_id();
        self.create_campaign_with_id(id, name, now)
    }

    /// All campaigns, newest first.
    pub fn get_campaigns(&self) -> (r: Vec<Campaign>)
        ensures
            r@ == self.campaigns@,
    {
        let mut r: Vec<Campaign> = Vec::new();
        let mut i: usize = 0;
        while i < self.campaigns.len()
            invariant
                i <= self.campaigns.len(),
                r@ == self.campaigns@.take(i as int),
            decreases self.campaigns.len() - i,
        {
            r.push(self.campaigns[i].clone());
            proof {
                assert(self.campaigns@.take(i + 1 as int) == self.campaigns@.take(i as int).push(
                    self.campaigns@[i as int],
                ));
            }
            i = i + 1;
        }
        proof {
            assert(self.campaigns@.take(self.campaigns@.len() as int) == self.campaigns@);
        }
        r
    }

    /// The campaign with the given id, or `EntityNotFound`.
    pub fn get_campaign_by_id(&self, id: &String) -> (r: Result<Campaign, AppError>)
        requires
            self.wf(),
        ensures
            match r {
                Ok(c) => self.has_campaign(id@) && c == self.campaign_at(id@),
                Err(e) => !self.has_campaign(id@) && e is EntityNotFound,
            },
    {
        match find_campaign(&self.campaigns, id) {
            Some(i) => {
                proof {
                    lemma_campaign_idx(self.campaigns@, id@, i as int);
                }
                Ok(self.campaigns[i].clone())
            },
            None => Err(AppError::EntityNotFound(id.clone())),
        }
    }

    /// The id of the currently selected campaign, if any.
    pub fn get_current_campaign_id(&self) -> (r: Option<String>)
        ensures
            r == self.current_campaign,
    {
        match &self.current_campaign {
            Some(id) => Some(id.clone()),
            None => None,
        }
    }

    /// The currently selected campaign, or `None` when nothing is selected.
    pub fn get_current_campaign(&self) -> (r: Result<Option<Campaign>, AppError>)
        requires
            self.wf(),
        ensures
            match self.current_campaign {
                Some(cur) => r matches Ok(co) && co matches Some(c) && c == self.campaign_at(cur@),
                None => r matches Ok(co) && co is None,
            },
    {
        match &self.current_campaign {
            None => Ok(None),
            Some(cur) => match find_campaign(&self.campaigns, cur) {
                Some(i) => {
                    proof {
                        lemma_campaign_idx(self.campaigns@, cur@, i as int);
                    }
                    Ok(Some(self.campaigns[i].clone()))
                },
                None => {
                    proof {
                        assert(false);
                    }
                    Err(AppError::EntityNotFound(cur.clone()))
                },
            },
        }
    }

    /// Selects the campaign with the given id; fails with `EntityNotFound`
    /// when it does not exist, leaving the selector untouched.
    pub fn set_current_campaign(&mut self, id: &String) -> (r: Result<Campaign, AppError>)
        requires
            old(self).wf(),
        ensures
            final(self).wf(),
            match r {
                Ok(c) => {
                    &&& old(self).has_campaign(id@)
                    &&& c == old(self).campaign_at(id@)
                    &&& final(self).current_campaign == Some(*id)
                    &&& final(self).agrees_except_selector(*old(self))
                },
                Err(e) => {
                    &&& !old(self).has_campaign(id@)
                    &&& e is EntityNotFound
                    &&& *final(self) == *old(self)
                },
            },
    {
        match find_campaign(&self.campaigns, id) {
            Some(i) => {
                proof {
                    lemma_campaign_idx(self.campaigns@, id@, i as int);
                }
                let c = self.campaigns[i].clone();
                self.current_campaign = Some(id.clone());
                Ok(c)
            },
            None => Err(AppError::EntityNotFound(id.clone())),
        }
    }

    /// Renames a campaign; every other field is kept.
    pub fn rename_campaign(&mut self, id: &String, name: String) -> (r: Result<Campaign, AppError>)
        requires
            old(self).wf(),
        ensures
            final(self).wf(),
            match r {
                Ok(c) => {
                    &&& old(self).has_campaign(id@)
                    &&& c == (Campaign { name: name, ..old(self).campaign_at(id@) })
                    &&& final(self).campaigns@ == old(self).campaigns@.update(
                        campaign_idx_of(old(self).campaigns@, id@),
                        c,
                    )
                    &&& final(self).agrees_except_campaigns(*old(self))
                },
                Err(e) => {
                    &&& !old(self).has_campaign(id@)
                    &&& e is EntityNotFound
                    &&& *final(self) == *old(self)
                },
            },
    {
        match find_campaign(&self.campaigns, id) {
            Some(i) => {
                proof {
                    lemma_campaign_idx(self.campaigns@, id@, i as int);
                }
                let mut c = self.campaigns[i].clone();
                c.name = name;
                let ret = c.clone();
                let ghost gc = c;
                let ghost orig = self.campaigns@;
                self.campaigns.set(i, c);
                proof {
                    lemma_unique_update(orig, i as int, gc, |cc: Campaign| cc.id@);
                    lemma_has_campaign_update(orig, i as int, gc);
                }
                Ok(ret)
            },
            None => Err(AppError::EntityNotFound(id.clone())),
        }
    }

    /// The settings of a campaign, or `EntityNotFound`.
    pub fn get_campaign_settings(&self, campaign_id: &String) -> (r: Result<
        CampaignSettings,
        AppError,
    >)
        requires
            self.wf(),
        ensures
            match r {
                Ok(s) => self.has_campaign(campaign_id@) && s == (CampaignSettings {
                    allow_massive_damage: self.campaign_at(campaign_id@).allow_massive_damage,
                }),
                Err(e) => !self.has_campaign(campaign_id@) && e is EntityNotFound,
            },
    {
        match find_campaign(&self.campaigns, campaign_id) {
            Some(i) => {
                proof {
                    lemma_campaign_idx(self.campaigns@, campaign_id@, i as int);
                }
                Ok(CampaignSettings { allow_massive_damage: self.campaigns[i].allow_massive_damage })
            },
            None => Err(AppError::EntityNotFound(campaign_id.clone())),
        }
    }

    /// Replaces a campaign's settings and returns them.
    pub fn update_campaign_settings(&mut self, campaign_id: &String, settings: CampaignSettings) -> (r:
        Result<CampaignSettings, AppError>)
        requires
            old(self).wf(),
        ensures
            final(self).wf(),
            match r {
                Ok(s) => {
                    &&& old(self).has_campaign(campaign_id@)
                    &&& s == settings
                    &&& final(self).campaigns@ == old(self).campaigns@.update(
                        campaign_idx_of(old(self).campaigns@, campaign_id@),
                        (Campaign {
                            allow_massive_damage: settings.allow_massive_damage,
                            ..old(self).campaign_at(campaign_id@)
                        }),
                    )
                    &&& final(self).agrees_except_campaigns(*old(self))
                },
                Err(e) => {
                    &&& !old(self).has_campaign(campaign_id@)
                    &&& e is EntityNotFound
                    &&& *final(self) == *old(self)
                },
            },
    {
        match find_campaign(&self.campaigns, campaign_id) {
            Some(i) => {
                proof {
                    lemma_campaign_idx(self.campaigns@, campaign_id@, i as int);
                }
                let mut c = self.campaigns[i].clone();
                c.allow_massive_damage = settings.allow_massive_damage;
                let ghost gc = c;
                let ghost orig = self.campaigns@;
                self.campaigns.set(i, c);
                proof {
                    lemma_unique_update(orig, i as int, gc, |cc: Campaign| cc.id@);
                    lemma_has_campaign_update(orig, i as int, gc);
                }
                Ok(settings)
            },
            None => Err(AppError::EntityNotFound(campaign_id.clone())),
        }
    }

    /// Makes sure a campaign exists and is selected, creating a default
    /// campaign under the given id if the store holds none at all.
    ///
    /// When a campaign is already selected this is a no-op that returns
    /// the selected id: the selector is valid by the store invariant, so
    /// repeated calls keep returning the same id and never mutate.
    pub fn ensure_campaign_exists_with_id(&mut self, id: String, now: String) -> (r: String)
        requires
            old(self).wf(),
        ensures
            final(self).wf(),
            final(self).current_campaign == Some(r),
            match old(self).current_campaign {
                Some(cur) => *final(self) == *old(self) && r == cur,
                None => {
                    if old(self).campaigns@.len() > 0 {
                        &&& r == old(self).campaigns@[0].id
                        &&& final(self).campaigns == old(self).campaigns
                        &&& final(self).agrees_except_campaigns_and_selector(*old(self))
                    } else {
                        &&& r == id
                        &&& final(self).campaigns@.len() == 1
                        &&& final(self).campaigns@[0] == (Campaign {
                            id: id,
                            name: final(self).campaigns@[0].name,
                            fear_level: 0,
                            allow_massive_damage: false,
                            created_at: now,
                        })
                        &&& final(self).campaigns@[0].name@ == "My Campaign"@
                        &&& final(self).agrees_except_campaigns_and_selector(*old(self))
                    }
                },
            },
    {
        let cur_opt = self.get_current_campaign_id();
        if let Some(cur) = cur_opt {
            return cur;
        }
        if self.campaigns.len() > 0 {
            let first_id = self.campaigns[0].id.clone();
            self.current_campaign = Some(first_id.clone());
            proof {
                assert(self.campaigns@[0].id@ == first_id@);
                assert(has_campaign_id(self.campaigns@, first_id@));
            }
            return first_id;
        }
        let c = Campaign {
            id,
            name: "My Campaign".to_owned(),
            fear_level: 0,
            allow_massive_damage: false,
            created_at: now,
        };
        let rid = c.id.clone();
        let ghost gc = c;
        let ghost orig = self.campaigns@;
        self.campaigns.insert(0, c);
        self.current_campaign = Some(rid.clone());
        proof {
            assert(self.campaigns@ =~= seq![gc] + orig);
            lemma_unique_prepend(orig, gc, |cc: Campaign| cc.id@);
            lemma_has_campaign_prepend(orig, gc);
            assert(self.campaigns@[0] == gc);
            assert(has_campaign_id(self.campaigns@, rid@));
        }
        rid
    }

    /// Makes sure a campaign exists and is selected, generating a fresh id
    /// for the default campaign if one has to be created.
    pub fn ensure_campaign_exists(&mut self, now: String) -> (r: String)
        requires
            old(self).wf(),
        ensures
            final(self).wf(),
            final(self).current_campaign == Some(r),
            match old(self).current_campaign {
                Some(cur) => *final(self) == *old(self) && r == cur,
                None => {
                    if old(self).campaigns@.len() > 0 {
                        &&& r == old(self).campaigns@[0].id
                        &&& final(self).campaigns == old(self).campaigns
                        &&& final(self).agrees_except_campaigns_and_selector(*old(self))
                    } else {
                        &&& final(self).campaigns@.len() == 1
                        &&& final(self).campaigns@[0].id == r
                        &&& final(self).campaigns@[0].name@ == "My Campaign"@
                        &&& final(self).campaigns@[0].fear_level == 0
                        &&& final(self).campaigns@[0].allow_massive_damage == false
                        &&& final(self).campaigns@[0].created_at == now
                        &&& final(self).agrees_except_campaigns_and_selector(*old(self))
                    }
                },
            },
    {
        let id = fresh_id();
        self.ensure_campaign_exists_with_id(id, now)
    }

    /// Drops every entity owned by the campaign `id`.
    pub(crate) fn drop_campaign_entities(&mut self, id: &String)
        ensures
            final(self).entities@ == old(self).entities@.filter(entity_kept(id@)),
            final(self).agrees_except_entities(*old(self)),
    {
        let ghost ents = self.entities@;
        let mut kept: Vec<Entity> = Vec::new();
        let mut i: usize = 0;
        while i < self.entities.len()
            invariant
                i <= self.entities.len(),
                self.entities@ == ents,
                kept@ == ents.take(i as int).filter(entity_kept(id@)),
            decreases self.entities.len() - i,
        {
            proof {
                lemma_filter_take_step(ents, i as int, entity_kept(id@));
            }
            if !(self.entities[i].campaign_id == *id) {
                kept.push(self.entities[i].clone());
            }
            i = i + 1;
        }
        proof {
            assert(ents.take(ents.len() as int) == ents);
        }
        self.entities = kept;
    }

    /// Drops every tracker owned by the campaign `id`.
    pub(crate) fn drop_campaign_trackers(&mut self, id: &String)
        ensures
            final(self).trackers@ == old(self).trackers@.filter(tracker_kept(id@)),
            final(self).agrees_except_trackers(*old(self)),
    {
        let ghost trks = self.trackers@;
        let ghost mut k: int = 0;
        let mut i: usize = 0;
        while i < self.trackers.len()
            invariant
                0 <= k <= trks.len(),
                i as int == trks.take(k).filter(tracker_kept(id@)).len(),
                self.trackers@ == trks.take(k).filter(tracker_kept(id@)) + trks.skip(k),
                self.agrees_except_trackers(*old(self)),
            decreases trks.len() - k,
        {
            proof {
                assert(self.trackers@[i as int] == trks[k]);
                lemma_filter_take_step(trks, k, tracker_kept(id@));
            }
            if self.trackers[i].campaign_id == *id {
                self.trackers.remove(i);
                proof {
                    assert(self.trackers@ =~= trks.take(k + 1).filter(tracker_kept(id@))
                        + trks.skip(k + 1));
                }
            } else {
                i = i + 1;
                proof {
                    assert(trks.skip(k) =~= seq![trks[k]] + trks.skip(k + 1));
                    assert(trks.take(k).filter(tracker_kept(id@)) + trks.skip(k)
                        =~= trks.take(k + 1).filter(tracker_kept(id@)) + trks.skip(k + 1));
                }
            }
            proof {
                k = k + 1;
            }
        }
        proof {
            assert(k == trks.len());
            assert(trks.take(trks.len() as int) == trks);
            assert(self.trackers@ =~= trks.filter(tracker_kept(id@)));
        }
    }

    /// Drops every note owned by the campaign `id`.
    pub(crate) fn drop_campaign_notes(&mut self, id: &String)
        ensures
            final(self).notes@ == old(self).notes@.filter(note_kept(id@)),
            final(self).agrees_except_notes(*old(self)),
    {
        let ghost nts = self.notes@;
        let mut kept: Vec<CampaignNote> = Vec::new();
        let mut i: usize = 0;
        while i < self.notes.len()
            invariant
                i <= self.notes.len(),
                self.notes@ == nts,
                kept@ == nts.take(i as int).filter(note_kept(id@)),
            decreases self.notes.len() - i,
        {
            proof {
                lemma_filter_take_step(nts, i as int, note_kept(id@));
            }
            if !(self.notes[i].campaign_id == *id) {
                kept.push(self.notes[i].clone());
            }
            i = i + 1;
        }
        proof {
            assert(nts.take(nts.len() as int) == nts);
        }
        self.notes = kept;
    }

    /// Drops every dice roll owned by the campaign `id`.
    pub(crate) fn drop_campaign_rolls(&mut self, id: &String)
        ensures
            final(self).dice_rolls@ == old(self).dice_rolls@.filter(roll_kept(id@)),
            final(self).agrees_except_rolls(*old(self)),
    {
        let ghost rls = self.dice_rolls@;
        let mut kept: Vec<DiceRoll> = Vec::new();
        let mut i: usize = 0;
        while i < self.dice_rolls.len()
            invariant
                i <= self.dice_rolls.len(),
                self.dice_rolls@ == rls,
                kept@ == rls.take(i as int).filter(roll_kept(id@)),
            decreases self.dice_rolls.len() - i,
        {
            proof {
                lemma_filter_take_step(rls, i as int, roll_kept(id@));
            }
            if !(self.dice_rolls[i].campaign_id == *id) {
                kept.push(self.dice_rolls[i].clone());
            }
            i = i + 1;
        }
        proof {
            assert(rls.take(rls.len() as int) == rls);
        }
        self.dice_rolls = kept;
    }

    /// Drops every player character owned by the campaign `id`.
    pub(crate) fn drop_campaign_pcs(&mut self, id: &String)
        ensures
            final(self).player_characters@ == old(self).player_characters@.filter(pc_kept(id@)),
            final(self).agrees_except_pcs(*old(self)),
    {
        let ghost pcs = self.player_characters@;
        let mut kept: Vec<PlayerCharacter> = Vec::new();
        let mut i: usize = 0;
        while i < self.player_characters.len()
            invariant
                i <= self.player_characters.len(),
                self.player_characters@ == pcs,
                kept@ == pcs.take(i as int).filter(pc_kept(id@)),
            decreases self.player_characters.len() - i,
        {
            proof {
                lemma_filter_take_step(pcs, i as int, pc_kept(id@));
            }
            if !(self.player_characters[i].campaign_id == *id) {
                kept.push(self.player_characters[i].clone());
            }
            i = i + 1;
        }
        proof {
            assert(pcs.take(pcs.len() as int) == pcs);
        }
        self.player_characters = kept;
    }

    /// Deletes a campaign and every record it owns.  Refused while the
    /// campaign is selected ("switch first") and for the last remaining
    /// campaign ("must keep at least one").
    pub fn delete_campaign(&mut self, id: &String) -> (r: Result<(), AppError>)
        requires
            old(self).wf(),
        ensures
            final(self).wf(),
            match r {
                Ok(u) => {
                    &&& old(self).current_id() != Some(id@)
                    &&& old(self).campaigns@.len() > 1
                    &&& old(self).has_campaign(id@)
                    &&& final(self).campaigns@ == old(self).campaigns@.remove(
                        campaign_idx_of(old(self).campaigns@, id@),
                    )
                    &&& final(self).current_campaign == old(self).current_campaign
                    &&& final(self).entities@ == old(self).entities@.filter(entity_kept(id@))
                    &&& final(self).trackers@ == old(self).trackers@.filter(tracker_kept(id@))
                    &&& final(self).notes@ == old(self).notes@.filter(note_kept(id@))
                    &&& final(self).dice_rolls@ == old(self).dice_rolls@.filter(roll_kept(id@))
                    &&& final(self).player_characters@ == old(self).player_characters@.filter(
                        pc_kept(id@),
                    )
                },
                Err(e) => {
                    &&& *final(self) == *old(self)
                    &&& (if old(self).current_id() == Some(id@) {
                        e matches AppError::Validation(m) && m@
                            == "Cannot delete the active campaign. Switch to another campaign first."@
                    } else if old(self).campaigns@.len() <= 1 {
                        e matches AppError::Validation(m) && m@
                            == "Cannot delete the last campaign. There must be at least one campaign."@
                    } else {
                        !old(self).has_campaign(id@) && e is EntityNotFound
                    })
                },
            },
    {
        let is_current = match &self.current_campaign {
            Some(cur) => *cur == *id,
            None => false,
        };
        if is_current {
            return Err(AppError::Validation(
                "Cannot delete the active campaign. Switch to another campaign first.".to_owned(),
            ));
        }
        if self.campaigns.len() <= 1 {
            return Err(AppError::Validation(
                "Cannot delete the last campaign. There must be at least one campaign.".to_owned(),
            ));
        }
        let idx = match find_campaign(&self.campaigns, id) {
            Some(i) => i,
            None => {
                return Err(AppError::EntityNotFound(id.clone()));
            },
        };
        proof {
            lemma_campaign_idx(self.campaigns@, id@, idx as int);
        }
        let ghost oldst = *self;
        self.drop_campaign_entities(id);
        self.drop_campaign_trackers(id);
        self.drop_campaign_notes(id);
        self.drop_campaign_rolls(id);
        self.drop_campaign_pcs(id);
        let ghost camps = self.campaigns@;
        self.campaigns.remove(idx);
        proof {
            lemma_unique_remove(camps, idx as int, |c: Campaign| c.id@);
            lemma_has_campaign_remove(camps, idx as int);
            assert forall|i: int|
                0 <= i < self.campaigns@.len() implies (#[trigger] self.campaigns@[i]).wf() by {
                let i0 = if i < idx as int {
                    i
                } else {
                    i + 1
                };
                assert(self.campaigns@[i] == camps[i0]);
            }
            lemma_filter_unique_keys(oldst.entities@, entity_kept(id@), |x: Entity| x.id@);
            lemma_filter_subset(oldst.entities@, entity_kept(id@));
            assert forall|i: int|
                0 <= i < self.entities@.len() implies (#[trigger] self.entities@[i]).wf()
                && self.has_campaign(self.entities@[i].campaign_id@) by {
                oldst.entities@.lemma_filter_pred(entity_kept(id@), i);
                let e = self.entities@[i];
                let w = choose|w: int| 0 <= w < oldst.entities@.len() && oldst.entities@[w] == e;
                assert(oldst.entities@[w].wf());
                assert(oldst.has_campaign(oldst.entities@[w].campaign_id@));
                assert(e.campaign_id@ != id@);
            }
            lemma_filter_unique_keys(oldst.trackers@, tracker_kept(id@), |x: CountdownTracker| x.id@);
            lemma_filter_subset(oldst.trackers@, tracker_kept(id@));
            assert forall|i: int|
                0 <= i < self.trackers@.len() implies (#[trigger] self.trackers@[i]).wf()
                && self.has_campaign(self.trackers@[i].campaign_id@) by {
                oldst.trackers@.lemma_filter_pred(tracker_kept(id@), i);
                let t = self.trackers@[i];
                let w = choose|w: int| 0 <= w < oldst.trackers@.len() && oldst.trackers@[w] == t;
                assert(oldst.trackers@[w].wf());
                assert(oldst.has_campaign(oldst.trackers@[w].campaign_id@));
                assert(t.campaign_id@ != id@);
            }
            lemma_filter_unique_keys(oldst.notes@, note_kept(id@), |x: CampaignNote| x.id@);
            lemma_filter_subset(oldst.notes@, note_kept(id@));
            assert forall|i: int|
                0 <= i < self.notes@.len() implies self.has_campaign(
                (#[trigger] self.notes@[i]).campaign_id@,
            ) by {
                oldst.notes@.lemma_filter_pred(note_kept(id@), i);
                let n = self.notes@[i];
                let w = choose|w: int| 0 <= w < oldst.notes@.len() && oldst.notes@[w] == n;
                assert(oldst.has_campaign(oldst.notes@[w].campaign_id@));
                assert(n.campaign_id@ != id@);
            }
            lemma_filter_unique_keys(oldst.dice_rolls@, roll_kept(id@), |x: DiceRoll| x.id@);
            lemma_filter_subset(oldst.dice_rolls@, roll_kept(id@));
            assert forall|i: int|
                0 <= i < self.dice_rolls@.len() implies self.has_campaign(
                (#[trigger] self.dice_rolls@[i]).campaign_id@,
            ) by {
                oldst.dice_rolls@.lemma_filter_pred(roll_kept(id@), i);
                let n = self.dice_rolls@[i];
                let w = choose|w: int|
                    0 <= w < oldst.dice_rolls@.len() && oldst.dice_rolls@[w] == n;
                assert(oldst.has_campaign(oldst.dice_rolls@[w].campaign_id@));
                assert(n.campaign_id@ != id@);
            }
            lemma_filter_unique_keys(
                oldst.player_characters@,
                pc_kept(id@),
                |x: PlayerCharacter| x.id@,
            );
            lemma_filter_subset(oldst.player_characters@, pc_kept(id@));
            assert forall|i: int|
                0 <= i < self.player_characters@.len() implies self.has_campaign(
                (#[trigger] self.player_characters@[i]).campaign_id@,
            ) by {
                oldst.player_characters@.lemma_filter_pred(pc_kept(id@), i);
                let n = self.player_characters@[i];
                let w = choose|w: int|
                    0 <= w < oldst.player_characters@.len() && oldst.player_characters@[w] == n;
                assert(oldst.has_campaign(oldst.player_characters@[w].campaign_id@));
                assert(n.campaign_id@ != id@);
            }
            match &self.current_campaign {
                Some(cur) => {
                    assert(cur@ != id@);
                    assert(oldst.has_campaign(cur@));
                },
                None => {},
            }
        }
        Ok(())
    }
}

/// The notes a listing for the campaign `cid` keeps.
pub open spec fn note_in(cid: Seq<char>) -> spec_fn(CampaignNote) -> bool {
    |n: CampaignNote| n.campaign_id@ == cid
}

/// The notes that survive deleting the campaign `cid`.
pub open spec fn note_kept(cid: Seq<char>) -> spec_fn(CampaignNote) -> bool {
    |n: CampaignNote| n.campaign_id@ != cid
}

impl Store {
    /// The notes of a campaign, most recently updated first.  A campaign
    /// without notes (or an unknown campaign id) yields an empty list.
    pub fn get_campaign_notes(&self, campaign_id: &String) -> (r: Vec<CampaignNote>)
        ensures
            r@ == self.notes@.filter(note_in(campaign_id@)),
    {
        let ghost nts = self.notes@;
        let mut out: Vec<CampaignNote> = Vec::new();
        let mut i: usize = 0;
        while i < self.notes.len()
            invariant
                i <= self.notes.len(),
                self.notes@ == nts,
                out@ == nts.take(i as int).filter(note_in(campaign_id@)),
            decreases self.notes.len() - i,
        {
            proof {
                lemma_filter_take_step(nts, i as int, note_in(campaign_id@));
            }
            if self.notes[i].campaign_id == *campaign_id {
                out.push(self.notes[i].clone());
            }
            i = i + 1;
        }
        proof {
            assert(nts.take(nts.len() as int) == nts);
        }
        out
    }

    /// The note with the given id, or `EntityNotFound`.
    pub fn get_note(&self, note_id: &String) -> (r: Result<CampaignNote, AppError>)
        requires
            self.wf(),
        ensures
            match r {
                Ok(n) => self.has_note(note_id@) && n == self.note_at(note_id@),
                Err(e) => !self.has_note(note_id@) && e is EntityNotFound,
            },
    {
        match find_note(&self.notes, note_id) {
            Some(i) => {
                proof {
                    lemma_note_idx(self.notes@, note_id@, i as int);
                }
                Ok(self.notes[i].clone())
            },
            None => Err(AppError::EntityNotFound(note_id.clone())),
        }
    }

    /// Creates an empty note under the given id for a campaign.  Fails
    /// with `PersistenceError` when the campaign does not exist or the id
    /// is already taken.
    pub fn create_note_with_id(
        &mut self,
        id: String,
        campaign_id: &String,
        title: Option<String>,
        now: String,
    ) -> (r: Result<CampaignNote, AppError>)
        requires
            old(self).wf(),
        ensures
            final(self).wf(),
            match r {
                Ok(n) => {
                    &&& old(self).has_campaign(campaign_id@)
                    &&& !has_note_id(old(self).notes@, id@)
                    &&& n.id == id
                    &&& n.campaign_id == *campaign_id
                    &&& n.title == title
                    &&& n.content@ == Seq::<char>::empty()
                    &&& n.created_at == now
                    &&& n.updated_at == now
                    &&& final(self).notes@ == seq![n] + old(self).notes@
                    &&& final(self).agrees_except_notes(*old(self))
                },
                Err(e) => {
                    &&& !old(self).has_campaign(campaign_id@) || has_note_id(
                        old(self).notes@,
                        id@,
                    )
                    &&& e is PersistenceError
                    &&& *final(self) == *old(self)
                },
            },
    {
        if find_campaign(&self.campaigns, campaign_id).is_none() {
            return Err(AppError::PersistenceError(campaign_id.clone()));
        }
        if find_note(&self.notes, &id).is_some() {
            return Err(AppError::PersistenceError(id));
        }
        let n = CampaignNote {
            id,
            campaign_id: campaign_id.clone(),
            title,
            content: String::new(),
            created_at: now.clone(),
            updated_at: now,
        };
        let ret = n.clone();
        let ghost gn = n;
        let ghost orig = self.notes@;
        self.notes.insert(0, n);
        proof {
            assert(self.notes@ =~= seq![gn] + orig);
            lemma_unique_prepend(orig, gn, |x: CampaignNote| x.id@);
        }
        Ok(ret)
    }

    /// Creates an empty note under a freshly generated id for a campaign.
    pub fn create_note(&mut self, campaign_id: &String, title: Option<String>, now: String) -> (r:
        Result<CampaignNote, AppError>)
        requires
            old(self).wf(),
        ensures
            final(self).wf(),
            match r {
                Ok(n) => {
                    &&& old(self).has_campaign(campaign_id@)
                    &&& !has_note_id(old(self).notes@, n.id@)
                    &&& n.campaign_id == *campaign_id
                    &&& n.title == title
                    &&& n.content@ == Seq::<char>::empty()
                    &&& n.created_at == now
                    &&& n.updated_at == now
                    &&& final(self).notes@ == seq![n] + old(self).notes@
                    &&& final(self).agrees_except_notes(*old(self))
                },
                Err(e) => {
                    &&& e is PersistenceError
                    &&& *final(self) == *old(self)
                },
            },
    {
        let id = fresh_id();
        self.create_note_with_id(id, campaign_id, title, now)
    }

    /// Rewrites a note's title and content, stamps it as updated now and
    /// moves it to the front of the recency order.
    pub fn update_note(
        &mut self,
        note_id: &String,
        title: Option<String>,
        content: String,
        now: String,
    ) -> (r: Result<CampaignNote, AppError>)
        requires
            old(self).wf(),
        ensures
            final(self).wf(),
            match r {
                Ok(n) => {
                    &&& has_note_id(old(self).notes@, note_id@)
                    &&& n == (CampaignNote {
                        title: title,
                        content: content,
                        updated_at: now,
                        ..old(self).note_at(note_id@)
                    })
                    &&& final(self).notes@ == seq![n] + old(self).notes@.remove(
                        note_idx_of(old(self).notes@, note_id@),
                    )
                    &&& final(self).agrees_except_notes(*old(self))
                },
                Err(e) => {
                    &&& !has_note_id(old(self).notes@, note_id@)
                    &&& e is EntityNotFound
                    &&& *final(self) == *old(self)
                },
            },
    {
        match find_note(&self.notes, note_id) {
            Some(i) => {
                proof {
                    lemma_note_idx(self.notes@, note_id@, i as int);
                }
                let mut n = self.notes[i].clone();
                n.title = title;
                n.content = content;
                n.updated_at = now;
                let ret = n.clone();
                let ghost gn = n;
                let ghost orig = self.notes@;
                self.notes.remove(i);
                let ghost removed = self.notes@;
                self.notes.insert(0, n);
                proof {
                    assert(self.notes@ =~= seq![gn] + removed);
                    lemma_unique_remove(orig, i as int, |x: CampaignNote| x.id@);
                    assert forall|k: int|
                        0 <= k < removed.len() implies (#[trigger] removed[k]).id@ != gn.id@ by {
                        let k0 = if k < i as int {
                            k
                        } else {
                            k + 1
                        };
                        assert(removed[k] == orig[k0]);
                        if k0 < i as int {
                            assert(orig[k0].id@ != orig[i as int].id@);
                        } else {
                            assert(orig[i as int].id@ != orig[k0].id@);
                        }
                    }
                    lemma_unique_prepend(removed, gn, |x: CampaignNote| x.id@);
                    assert forall|k: int|
                        0 <= k < removed.len() implies self.has_campaign(
                        (#[trigger] removed[k]).campaign_id@,
                    ) by {
                        let k0 = if k < i as int {
                            k
                        } else {
                            k + 1
                        };
                        assert(removed[k] == orig[k0]);
                    }
                }
                Ok(ret)
            },
            None => Err(AppError::EntityNotFound(note_id.clone())),
        }
    }

    /// Deletes the note with the given id, or fails with `EntityNotFound`.
    pub fn delete_note(&mut self, note_id: &String) -> (r: Result<(), AppError>)
        requires
            old(self).wf(),
        ensures
            final(self).wf(),
            match r {
                Ok(u) => {
                    &&& has_note_id(old(self).notes@, note_id@)
                    &&& final(self).notes@ == old(self).notes@.remove(
                        note_idx_of(old(self).notes@, note_id@),
                    )
                    &&& final(self).agrees_except_notes(*old(self))
                },
                Err(e) => {
                    &&& !has_note_id(old(self).notes@, note_id@)
                    &&& e is EntityNotFound
                    &&& *final(self) == *old(self)
                },
            },
    {
        match find_note(&self.notes, note_id) {
            Some(i) => {
                proof {
                    lemma_note_idx(self.notes@, note_id@, i as int);
                }
                let ghost orig = self.notes@;
                self.notes.remove(i);
                proof {
                    lemma_unique_remove(orig, i as int, |x: CampaignNote| x.id@);
                }
                Ok(())
            },
            None => Err(AppError::EntityNotFound(note_id.clone())),
        }
    }
}

} // verus!
