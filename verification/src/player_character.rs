//! Player characters: full sheets with partial-update semantics and
//! clamped resource adjusters.

use vstd::prelude::*;

use crate::entity::clamped;
use crate::error::AppError;
use crate::idgen::fresh_id;
use crate::store::{
    find_campaign, find_pc, has_pc_id, lemma_filter_take_step, lemma_pc_idx, lemma_unique_prepend,
    lemma_unique_remove, lemma_unique_update, pc_idx_of, Store,
};

verus! {

/// A player character sheet.
#[derive(Debug)]
pub struct PlayerCharacter {
    pub id: String,
    pub campaign_id: String,
    pub name: String,
    pub ancestry: Option<String>,
    pub community: Option<String>,
    pub class: Option<String>,
    pub subclass: Option<String>,
    pub domain: Option<String>,
    pub level: i32,
    pub attr_agility: i32,
    pub attr_strength: i32,
    pub attr_finesse: i32,
    pub attr_instinct: i32,
    pub attr_presence: i32,
    pub attr_knowledge: i32,
    pub hp_current: i32,
    pub hp_max: i32,
    pub threshold_minor: i32,
    pub threshold_major: i32,
    pub threshold_severe: i32,
    pub armor_current: i32,
    pub armor_max: i32,
    pub evasion: i32,
    pub hope: i32,
    pub stress_current: i32,
    pub stress_max: i32,
    pub experiences: String,
    pub background: Option<String>,
    pub notes: Option<String>,
    pub created_at: String,
    pub updated_at: String,
}

impl Clone for PlayerCharacter {
    fn clone(&self) -> (r: Self)
        ensures
            r == *self,
    {
        PlayerCharacter {
            id: self.id.clone(),
            campaign_id: self.campaign_id.clone(),
            name: self.name.clone(),
            ancestry: match &self.ancestry {
                Some(s) => Some(s.clone()),
                None => None,
            },
            community: match &self.community {
                Some(s) => Some(s.clone()),
                None => None,
            },
            class: match &self.class {
                Some(s) => Some(s.clone()),
                None => None,
            },
            subclass: match &self.subclass {
                Some(s) => Some(s.clone()),
                None => None,
            },
            domain: match &self.domain {
                Some(s) => Some(s.clone()),
                None => None,
            },
            level: self.level,
            attr_agility: self.attr_agility,
            attr_strength: self.attr_strength,
            attr_finesse: self.attr_finesse,
            attr_instinct: self.attr_instinct,
            attr_presence: self.attr_presence,
            attr_knowledge: self.attr_knowledge,
            hp_current: self.hp_current,
            hp_max: self.hp_max,
            threshold_minor: self.threshold_minor,
            threshold_major: self.threshold_major,
            threshold_severe: self.threshold_severe,
            armor_current: self.armor_current,
            armor_max: self.armor_max,
            evasion: self.evasion,
            hope: self.hope,
            stress_current: self.stress_current,
            stress_max: self.stress_max,
            experiences: self.experiences.clone(),
            background: match &self.background {
                Some(s) => Some(s.clone()),
                None => None,
            },
            notes: match &self.notes {
                Some(s) => Some(s.clone()),
                None => None,
            },
            created_at: self.created_at.clone(),
            updated_at: self.updated_at.clone(),
        }
    }
}

/// The characters a listing for the campaign `cid` keeps.
pub open spec fn pc_in(cid: Seq<char>) -> spec_fn(PlayerCharacter) -> bool {
    |p: PlayerCharacter| p.campaign_id@ == cid
}

/// The characters that survive deleting the campaign `cid`.
pub open spec fn pc_kept(cid: Seq<char>) -> spec_fn(PlayerCharacter) -> bool {
    |p: PlayerCharacter| p.campaign_id@ != cid
}

/// A just-created character comes back through the listing: the creation
/// commands prepend the new record, so when the character at the front of
/// the store belongs to the campaign `cid`, the listing of `cid` (what
/// `get_player_characters` returns) starts with exactly that record.
pub proof fn lemma_front_pc_listed(s: Store, cid: Seq<char>)
    requires
        s.player_characters@.len() > 0,
        s.player_characters@[0].campaign_id@ == cid,
    ensures
        s.player_characters@.filter(pc_in(cid)).len() > 0,
        s.player_characters@.filter(pc_in(cid))[0] == s.player_characters@[0],
{
    crate::store::lemma_filter_first(s.player_characters@, pc_in(cid));
}

/// The fields supplied when creating a player character.  Optional text
/// fields default to absent; numeric fields default through the
/// `default_*` functions below.
#[derive(Debug)]
pub struct CreatePlayerCharacter {
    pub name: String,
    pub ancestry: Option<String>,
    pub community: Option<String>,
    pub class: Option<String>,
    pub subclass: Option<String>,
    pub domain: Option<String>,
    pub level: i32,
    pub attr_agility: i32,
    pub attr_strength: i32,
    pub attr_finesse: i32,
    pub attr_instinct: i32,
    pub attr_presence: i32,
    pub attr_knowledge: i32,
    pub hp_max: i32,
    pub threshold_minor: i32,
    pub threshold_major: i32,
    pub threshold_severe: i32,
    pub armor_max: i32,
    pub evasion: i32,
    pub stress_max: i32,
}

/// A partial update: only the present fields are applied, the rest of the
/// character is left untouched.
#[derive(Debug)]
pub struct UpdatePlayerCharacter {
    pub name: Option<String>,
    pub ancestry: Option<String>,
    pub community: Option<String>,
    pub class: Option<String>,
    pub subclass: Option<String>,
    pub domain: Option<String>,
    pub level: Option<i32>,
    pub attr_agility: Option<i32>,
    pub attr_strength: Option<i32>,
    pub attr_finesse: Option<i32>,
    pub attr_instinct: Option<i32>,
    pub attr_presence: Option<i32>,
    pub attr_knowledge: Option<i32>,
    pub hp_current: Option<i32>,
    pub hp_max: Option<i32>,
    pub threshold_minor: Option<i32>,
    pub threshold_major: Option<i32>,
    pub threshold_severe: Option<i32>,
    pub armor_current: Option<i32>,
    pub armor_max: Option<i32>,
    pub evasion: Option<i32>,
    pub hope: Option<i32>,
    pub stress_current: Option<i32>,
    pub stress_max: Option<i32>,
    pub experiences: Option<String>,
    pub background: Option<String>,
    pub notes: Option<String>,
}

/// Default character level.
pub fn default_level() -> (r: i32)
    ensures
        r == 1,
{
    1
}

/// Default maximum hit points.
pub fn default_hp() -> (r: i32)
    ensures
        r == 6,
{
    6
}

/// Default minor damage threshold.
pub fn default_threshold_minor() -> (r: i32)
    ensures
        r == 1,
{
    1
}

/// Default major damage threshold.
pub fn default_threshold_major() -> (r: i32)
    ensures
        r == 6,
{
    6
}

/// Default severe damage threshold.
pub fn default_threshold_severe() -> (r: i32)
    ensures
        r == 11,
{
    11
}

/// Default stress capacity.
pub fn default_stress() -> (r: i32)
    ensures
        r == 6,
{
    6
}

/// The character that results from applying a partial update: each
/// present field replaces the stored one, the rest stay, and the
/// update timestamp is refreshed.
pub open spec fn merged(pc: PlayerCharacter, data: UpdatePlayerCharacter, now: String) -> PlayerCharacter {
    PlayerCharacter {
        id: pc.id,
        campaign_id: pc.campaign_id,
        name: match data.name {
            Some(v) => v,
            None => pc.name,
        },
        ancestry: match data.ancestry {
            Some(v) => Some(v),
            None => pc.ancestry,
        },
        community: match data.community {
            Some(v) => Some(v),
            None => pc.community,
        },
        class: match data.class {
            Some(v) => Some(v),
            None => pc.class,
        },
        subclass: match data.subclass {
            Some(v) => Some(v),
            None => pc.subclass,
        },
        domain: match data.domain {
            Some(v) => Some(v),
            None => pc.domain,
        },
        level: match data.level {
            Some(v) => v,
            None => pc.level,
        },
        attr_agility: match data.attr_agility {
            Some(v) => v,
            None => pc.attr_agility,
        },
        attr_strength: match data.attr_strength {
            Some(v) => v,
            None => pc.attr_strength,
        },
        attr_finesse: match data.attr_finesse {
            Some(v) => v,
            None => pc.attr_finesse,
        },
        attr_instinct: match data.attr_instinct {
            Some(v) => v,
            None => pc.attr_instinct,
        },
        attr_presence: match data.attr_presence {
            Some(v) => v,
            None => pc.attr_presence,
        },
        attr_knowledge: match data.attr_knowledge {
            Some(v) => v,
            None => pc.attr_knowledge,
        },
        hp_current: match data.hp_current {
            Some(v) => v,
            None => pc.hp_current,
        },
        hp_max: match data.hp_max {
            Some(v) => v,
            None => pc.hp_max,
        },
        threshold_minor: match data.threshold_minor {
            Some(v) => v,
            None => pc.threshold_minor,
        },
        threshold_major: match data.threshold_major {
            Some(v) => v,
            None => pc.threshold_major,
        },
        threshold_severe: match data.threshold_severe {
            Some(v) => v,
            None => pc.threshold_severe,
        },
        armor_current: match data.armor_current {
            Some(v) => v,
            None => pc.armor_current,
        },
        armor_max: match data.armor_max {
            Some(v) => v,
            None => pc.armor_max,
        },
        evasion: match data.evasion {
            Some(v) => v,
            None => pc.evasion,
        },
        hope: match data.hope {
            Some(v) => v,
            None => pc.hope,
        },
        stress_current: match data.stress_current {
            Some(v) => v,
            None => pc.stress_current,
        },
        stress_max: match data.stress_max {
            Some(v) => v,
            None => pc.stress_max,
        },
        experiences: match data.experiences {
            Some(v) => v,
            None => pc.experiences,
        },
        background: match data.background {
            Some(v) => Some(v),
            None => pc.background,
        },
        notes: match data.notes {
            Some(v) => Some(v),
            None => pc.notes,
        },
        created_at: pc.created_at,
        updated_at: now,
    }
}

impl Store {
    /// Creates a character under the given id for a campaign: HP starts
    /// full; armor, hope and stress start at zero; the experience list
    /// starts empty.  Fails with `PersistenceError` when the campaign does
    /// not exist or the id is already taken.
    pub fn create_player_character_with_id(
        &mut self,
        id: String,
        campaign_id: &String,
        data: CreatePlayerCharacter,
        now: String,
    ) -> (r: Result<PlayerCharacter, AppError>)
        requires
            old(self).wf(),
        ensures
            final(self).wf(),
            match r {
                Ok(p) => {
                    &&& old(self).has_campaign(campaign_id@)
                    &&& !has_pc_id(old(self).player_characters@, id@)
                    &&& p == (PlayerCharacter {
                        id: id,
                        campaign_id: *campaign_id,
                        name: data.name,
                        ancestry: data.ancestry,
                        community: data.community,
                        class: data.class,
                        subclass: data.subclass,
                        domain: data.domain,
                        level: data.level,
                        attr_agility: data.attr_agility,
                        attr_strength: data.attr_strength,
                        attr_finesse: data.attr_finesse,
                        attr_instinct: data.attr_instinct,
                        attr_presence: data.attr_presence,
                        attr_knowledge: data.attr_knowledge,
                        hp_current: data.hp_max,
                        hp_max: data.hp_max,
                        threshold_minor: data.threshold_minor,
                        threshold_major: data.threshold_major,
                        threshold_severe: data.threshold_severe,
                        armor_current: 0,
                        armor_max: data.armor_max,
                        evasion: data.evasion,
                        hope: 0,
                        stress_current: 0,
                        stress_max: data.stress_max,
                        experiences: p.experiences,
                        background: None,
                        notes: None,
                        created_at: now,
                        updated_at: now,
                    })
                    &&& p.experiences@ == "[]"@
                    &&& final(self).player_characters@ == seq![p] + old(self).player_characters@
                    &&& final(self).agrees_except_pcs(*old(self))
                },
                Err(e) => {
                    &&& !old(self).has_campaign(campaign_id@) || has_pc_id(
                        old(self).player_characters@,
                        id@,
                    )
                    &&& e is PersistenceError
                    &&& *final(self) == *old(self)
                },
            },
    {
        if find_campaign(&self.campaigns, campaign_id).is_none() {
            return Err(AppError::PersistenceError(campaign_id.clone()));
        }
        if find_pc(&self.player_characters, &id).is_some() {
            return Err(AppError::PersistenceError(id));
        }
        let p = PlayerCharacter {
            id,
            campaign_id: campaign_id.clone(),
            name: data.name,
            ancestry: data.ancestry,
            community: data.community,
            class: data.class,
            subclass: data.subclass,
            domain: data.domain,
            level: data.level,
            attr_agility: data.attr_agility,
            attr_strength: data.attr_strength,
            attr_finesse: data.attr_finesse,
            attr_instinct: data.attr_instinct,
            attr_presence: data.attr_presence,
            attr_knowledge: data.attr_knowledge,
            hp_current: data.hp_max,
            hp_max: data.hp_max,
            threshold_minor: data.threshold_minor,
            threshold_major: data.threshold_major,
            threshold_severe: data.threshold_severe,
            armor_current: 0,
            armor_max: data.armor_max,
            evasion: data.evasion,
            hope: 0,
            stress_current: 0,
            stress_max: data.stress_max,
            experiences: "[]".to_owned(),
            background: None,
            notes: None,
            created_at: now.clone(),
            updated_at: now,
        };
        let ret = p.clone();
        let ghost gp = p;
        let ghost orig = self.player_characters@;
        self.player_characters.insert(0, p);
        proof {
            assert(self.player_characters@ =~= seq![gp] + orig);
            lemma_unique_prepend(orig, gp, |x: PlayerCharacter| x.id@);
        }
        Ok(ret)
    }

    /// Creates a character under a freshly generated id for a campaign.
    pub fn create_player_character(
        &mut self,
        campaign_id: &String,
        data: CreatePlayerCharacter,
        now: String,
    ) -> (r: Result<PlayerCharacter, AppError>)
        requires
            old(self).wf(),
        ensures
            final(self).wf(),
            match r {
                Ok(p) => {
                    &&& old(self).has_campaign(campaign_id@)
                    &&& !has_pc_id(old(self).player_characters@, p.id@)
                    &&& p == (PlayerCharacter {
                        id: p.id,
                        campaign_id: *campaign_id,
                        name: data.name,
                        ancestry: data.ancestry,
                        community: data.community,
                        class: data.class,
                        subclass: data.subclass,
                        domain: data.domain,
                        level: data.level,
                        attr_agility: data.attr_agility,
                        attr_strength: data.attr_strength,
                        attr_finesse: data.attr_finesse,
                        attr_instinct: data.attr_instinct,
                        attr_presence: data.attr_presence,
                        attr_knowledge: data.attr_knowledge,
                        hp_current: data.hp_max,
                        hp_max: data.hp_max,
                        threshold_minor: data.threshold_minor,
                        threshold_major: data.threshold_major,
                        threshold_severe: data.threshold_severe,
                        armor_current: 0,
                        armor_max: data.armor_max,
                        evasion: data.evasion,
                        hope: 0,
                        stress_current: 0,
                        stress_max: data.stress_max,
                        experiences: p.experiences,
                        background: None,
                        notes: None,
                        created_at: now,
                        updated_at: now,
                    })
                    &&& p.experiences@ == "[]"@
                    &&& final(self).player_characters@ == seq![p] + old(self).player_characters@
                    &&& final(self).agrees_except_pcs(*old(self))
                },
                Err(e) => {
                    &&& e is PersistenceError
                    &&& *final(self) == *old(self)
                },
            },
    {
        let id = fresh_id();
        self.create_player_character_with_id(id, campaign_id, data, now)
    }

    /// A campaign's characters, in store order.
    pub fn get_player_characters(&self, campaign_id: &String) -> (r: Vec<PlayerCharacter>)
        ensures
            r@ == self.player_characters@.filter(pc_in(campaign_id@)),
    {
        let ghost pcs = self.player_characters@;
        let mut out: Vec<PlayerCharacter> = Vec::new();
        let mut i: usize = 0;
        while i < self.player_characters.len()
            invariant
                i <= self.player_characters.len(),
                self.player_characters@ == pcs,
                out@ == pcs.take(i as int).filter(pc_in(campaign_id@)),
            decreases self.player_characters.len() - i,
        {
            proof {
                lemma_filter_take_step(pcs, i as int, pc_in(campaign_id@));
            }
            if self.player_characters[i].campaign_id == *campaign_id {
                out.push(self.player_characters[i].clone());
            }
            i = i + 1;
        }
        proof {
            assert(pcs.take(pcs.len() as int) == pcs);
        }
        out
    }

    /// The character with the given id, or `EntityNotFound`.
    pub fn get_player_character(&self, id: &String) -> (r: Result<PlayerCharacter, AppError>)
        requires
            self.wf(),
        ensures
            match r {
                Ok(p) => self.has_pc(id@) && p == self.pc_at(id@),
                Err(e) => !self.has_pc(id@) && e is EntityNotFound,
            },
    {
        match find_pc(&self.player_characters, id) {
            Some(i) => {
                proof {
                    lemma_pc_idx(self.player_characters@, id@, i as int);
                }
                Ok(self.player_characters[i].clone())
            },
            None => Err(AppError::EntityNotFound(id.clone())),
        }
    }

    /// Applies a partial update: only the supplied fields change, and the
    /// update timestamp is refreshed.
    #[verifier::rlimit(100)]
    pub fn update_player_character(
        &mut self,
        id: &String,
        data: UpdatePlayerCharacter,
        now: String,
    ) -> (r: Result<PlayerCharacter, AppError>)
        requires
            old(self).wf(),
        ensures
            final(self).wf(),
            match r {
                Ok(p) => {
                    &&& has_pc_id(old(self).player_characters@, id@)
                    &&& p == merged(old(self).pc_at(id@), data, now)
                    &&& final(self).player_characters@ == old(self).player_characters@.update(
                        pc_idx_of(old(self).player_characters@, id@),
                        p,
                    )
                    &&& final(self).agrees_except_pcs(*old(self))
                },
                Err(e) => {
                    &&& !has_pc_id(old(self).player_characters@, id@)
                    &&& e is EntityNotFound
                    &&& *final(self) == *old(self)
                },
            },
    {
        match find_pc(&self.player_characters, id) {
            Some(i) => {
                proof {
                    lemma_pc_idx(self.player_characters@, id@, i as int);
                }
                let p = self.player_characters[i].clone();
                let np = PlayerCharacter {
                    id: p.id,
                    campaign_id: p.campaign_id,
                    name: match data.name {
                        Some(v) => v,
                        None => p.name,
                    },
                    ancestry: match data.ancestry {
                        Some(v) => Some(v),
                        None => p.ancestry,
                    },
                    community: match data.community {
                        Some(v) => Some(v),
                        None => p.community,
                    },
                    class: match data.class {
                        Some(v) => Some(v),
                        None => p.class,
                    },
                    subclass: match data.subclass {
                        Some(v) => Some(v),
                        None => p.subclass,
                    },
                    domain: match data.domain {
                        Some(v) => Some(v),
                        None => p.domain,
                    },
                    level: match data.level {
                        Some(v) => v,
                        None => p.level,
                    },
                    attr_agility: match data.attr_agility {
                        Some(v) => v,
                        None => p.attr_agility,
                    },
                    attr_strength: match data.attr_strength {
                        Some(v) => v,
                        None => p.attr_strength,
                    },
                    attr_finesse: match data.attr_finesse {
                        Some(v) => v,
                        None => p.attr_finesse,
                    },
                    attr_instinct: match data.attr_instinct {
                        Some(v) => v,
                        None => p.attr_instinct,
                    },
                    attr_presence: match data.attr_presence {
                        Some(v) => v,
                        None => p.attr_presence,
                    },
                    attr_knowledge: match data.attr_knowledge {
                        Some(v) => v,
                        None => p.attr_knowledge,
                    },
                    hp_current: match data.hp_current {
                        Some(v) => v,
                        None => p.hp_current,
                    },
                    hp_max: match data.hp_max {
                        Some(v) => v,
                        None => p.hp_max,
                    },
                    threshold_minor: match data.threshold_minor {
                        Some(v) => v,
                        None => p.threshold_minor,
                    },
                    threshold_major: match data.threshold_major {
                        Some(v) => v,
                        None => p.threshold_major,
                    },
                    threshold_severe: match data.threshold_severe {
                        Some(v) => v,
                        None => p.threshold_severe,
                    },
                    armor_current: match data.armor_current {
                        Some(v) => v,
                        None => p.armor_current,
                    },
                    armor_max: match data.armor_max {
                        Some(v) => v,
                        None => p.armor_max,
                    },
                    evasion: match data.evasion {
                        Some(v) => v,
                        None => p.evasion,
                    },
                    hope: match data.hope {
                        Some(v) => v,
                        None => p.hope,
                    },
                    stress_current: match data.stress_current {
                        Some(v) => v,
                        None => p.stress_current,
                    },
                    stress_max: match data.stress_max {
                        Some(v) => v,
                        None => p.stress_max,
                    },
                    experiences: match data.experiences {
                        Some(v) => v,
                        None => p.experiences,
                    },
                    background: match data.background {
                        Some(v) => Some(v),
                        None => p.background,
                    },
                    notes: match data.notes {
                        Some(v) => Some(v),
                        None => p.notes,
                    },
                    created_at: p.created_at,
                    updated_at: now,
                };
                let ret = np.clone();
                let ghost gp = np;
                let ghost orig = self.player_characters@;
                self.player_characters.set(i, np);
                proof {
                    lemma_unique_update(orig, i as int, gp, |x: PlayerCharacter| x.id@);
                }
                Ok(ret)
            },
            None => Err(AppError::EntityNotFound(id.clone())),
        }
    }

    /// Deletes the character with the given id, or fails with
    /// `EntityNotFound`.
    pub fn delete_player_character(&mut self, id: &String) -> (r: Result<(), AppError>)
        requires
            old(self).wf(),
        ensures
            final(self).wf(),
            match r {
                Ok(u) => {
                    &&& has_pc_id(old(self).player_characters@, id@)
                    &&& final(self).player_characters@ == old(self).player_characters@.remove(
                        pc_idx_of(old(self).player_characters@, id@),
                    )
                    &&& final(self).agrees_except_pcs(*old(self))
                },
                Err(e) => {
                    &&& !has_pc_id(old(self).player_characters@, id@)
                    &&& e is EntityNotFound
                    &&& *final(self) == *old(self)
                },
            },
    {
        match find_pc(&self.player_characters, id) {
            Some(i) => {
                proof {
                    lemma_pc_idx(self.player_characters@, id@, i as int);
                }
                let ghost orig = self.player_characters@;
                self.player_characters.remove(i);
                proof {
                    lemma_unique_remove(orig, i as int, |x: PlayerCharacter| x.id@);
                }
                Ok(())
            },
            None => Err(AppError::EntityNotFound(id.clone())),
        }
    }

    /// Moves a character's HP by `amount`, floored at zero (no ceiling
    /// beyond the integer range), and refreshes the update timestamp.
    pub fn adjust_player_hp(&mut self, id: &String, amount: i32, now: String) -> (r: Result<
        PlayerCharacter,
        AppError,
    >)
        requires
            old(self).wf(),
        ensures
            final(self).wf(),
            match r {
                Ok(p) => {
                    &&& has_pc_id(old(self).player_characters@, id@)
                    &&& p == (PlayerCharacter {
                        hp_current: p.hp_current,
                        updated_at: now,
                        ..old(self).pc_at(id@)
                    })
                    &&& p.hp_current == clamped(
                        old(self).pc_at(id@).hp_current + amount,
                        0,
                        i32::MAX as int,
                    )
                    &&& final(self).player_characters@ == old(self).player_characters@.update(
                        pc_idx_of(old(self).player_characters@, id@),
                        p,
                    )
                    &&& final(self).agrees_except_pcs(*old(self))
                },
                Err(e) => {
                    &&& !has_pc_id(old(self).player_characters@, id@)
                    &&& e is EntityNotFound
                    &&& *final(self) == *old(self)
                },
            },
    {
        match find_pc(&self.player_characters, id) {
            Some(i) => {
                proof {
                    lemma_pc_idx(self.player_characters@, id@, i as int);
                }
                let mut p = self.player_characters[i].clone();
                let sum: i64 = p.hp_current as i64 + amount as i64;
                p.hp_current = if sum < 0 {
                    0
                } else if sum > i32::MAX as i64 {
                    i32::MAX
                } else {
                    sum as i32
                };
                p.updated_at = now;
                let ret = p.clone();
                let ghost gp = p;
                let ghost orig = self.player_characters@;
                self.player_characters.set(i, p);
                proof {
                    lemma_unique_update(orig, i as int, gp, |x: PlayerCharacter| x.id@);
                }
                Ok(ret)
            },
            None => Err(AppError::EntityNotFound(id.clone())),
        }
    }

    /// Moves a character's hope by `amount`, floored at zero, and
    /// refreshes the update timestamp.
    pub fn adjust_player_hope(&mut self, id: &String, amount: i32, now: String) -> (r: Result<
        PlayerCharacter,
        AppError,
    >)
        requires
            old(self).wf(),
        ensures
            final(self).wf(),
            match r {
                Ok(p) => {
                    &&& has_pc_id(old(self).player_characters@, id@)
                    &&& p == (PlayerCharacter {
                        hope: p.hope,
                        updated_at: now,
                        ..old(self).pc_at(id@)
                    })
                    &&& p.hope == clamped(old(self).pc_at(id@).hope + amount, 0, i32::MAX as int)
                    &&& final(self).player_characters@ == old(self).player_characters@.update(
                        pc_idx_of(old(self).player_characters@, id@),
                        p,
                    )
                    &&& final(self).agrees_except_pcs(*old(self))
                },
                Err(e) => {
                    &&& !has_pc_id(old(self).player_characters@, id@)
                    &&& e is EntityNotFound
                    &&& *final(self) == *old(self)
                },
            },
    {
        match find_pc(&self.player_characters, id) {
            Some(i) => {
                proof {
                    lemma_pc_idx(self.player_characters@, id@, i as int);
                }
                let mut p = self.player_characters[i].clone();
                let sum: i64 = p.hope as i64 + amount as i64;
                p.hope = if sum < 0 {
                    0
                } else if sum > i32::MAX as i64 {
                    i32::MAX
                } else {
                    sum as i32
                };
                p.updated_at = now;
                let ret = p.clone();
                let ghost gp = p;
                let ghost orig = self.player_characters@;
                self.player_characters.set(i, p);
                proof {
                    lemma_unique_update(orig, i as int, gp, |x: PlayerCharacter| x.id@);
                }
                Ok(ret)
            },
            None => Err(AppError::EntityNotFound(id.clone())),
        }
    }

    /// Moves a character's stress by `amount`, clamped into
    /// `[0, stress_max]`, and refreshes the update timestamp.
    pub fn adjust_player_stress(&mut self, id: &String, amount: i32, now: String) -> (r: Result<
        PlayerCharacter,
        AppError,
    >)
        requires
            old(self).wf(),
        ensures
            final(self).wf(),
            match r {
                Ok(p) => {
                    &&& has_pc_id(old(self).player_characters@, id@)
                    &&& p == (PlayerCharacter {
                        stress_current: p.stress_current,
                        updated_at: now,
                        ..old(self).pc_at(id@)
                    })
                    &&& p.stress_current == clamped(
                        old(self).pc_at(id@).stress_current + amount,
                        0,
                        old(self).pc_at(id@).stress_max as int,
                    )
                    &&& final(self).player_characters@ == old(self).player_characters@.update(
                        pc_idx_of(old(self).player_characters@, id@),
                        p,
                    )
                    &&& final(self).agrees_except_pcs(*old(self))
                },
                Err(e) => {
                    &&& !has_pc_id(old(self).player_characters@, id@)
                    &&& e is EntityNotFound
                    &&& *final(self) == *old(self)
                },
            },
    {
        match find_pc(&self.player_characters, id) {
            Some(i) => {
                proof {
                    lemma_pc_idx(self.player_characters@, id@, i as int);
                }
                let mut p = self.player_characters[i].clone();
                let sum: i64 = p.stress_current as i64 + amount as i64;
                p.stress_current = if sum > p.stress_max as i64 {
                    if p.stress_max < 0 {
                        0
                    } else {
                        p.stress_max
                    }
                } else if sum < 0 {
                    0
                } else {
                    sum as i32
                };
                p.updated_at = now;
                let ret = p.clone();
                let ghost gp = p;
                let ghost orig = self.player_characters@;
                self.player_characters.set(i, p);
                proof {
                    lemma_unique_update(orig, i as int, gp, |x: PlayerCharacter| x.id@);
                }
                Ok(ret)
            },
            None => Err(AppError::EntityNotFound(id.clone())),
        }
    }

    /// Moves a character's armor by `amount`, clamped into
    /// `[0, armor_max]`, and refreshes the update timestamp.
    pub fn adjust_player_armor(&mut self, id: &String, amount: i32, now: String) -> (r: Result<
        PlayerCharacter,
        AppError,
    >)
        requires
            old(self).wf(),
        ensures
            final(self).wf(),
            match r {
                Ok(p) => {
                    &&& has_pc_id(old(self).player_characters@, id@)
                    &&& p == (PlayerCharacter {
                        armor_current: p.armor_current,
                        updated_at: now,
                        ..old(self).pc_at(id@)
                    })
                    &&& p.armor_current == clamped(
                        old(self).pc_at(id@).armor_current + amount,
                        0,
                        old(self).pc_at(id@).armor_max as int,
                    )
                    &&& final(self).player_characters@ == old(self).player_characters@.update(
                        pc_idx_of(old(self).player_characters@, id@),
                        p,
                    )
                    &&& final(self).agrees_except_pcs(*old(self))
                },
                Err(e) => {
                    &&& !has_pc_id(old(self).player_characters@, id@)
                    &&& e is EntityNotFound
                    &&& *final(self) == *old(self)
                },
            },
    {
        match find_pc(&self.player_characters, id) {
            Some(i) => {
                proof {
                    lemma_pc_idx(self.player_characters@, id@, i as int);
                }
                let mut p = self.player_characters[i].clone();
                let sum: i64 = p.armor_current as i64 + amount as i64;
                p.armor_current = if sum > p.armor_max as i64 {
                    if p.armor_max < 0 {
                        0
                    } else {
                        p.armor_max
                    }
                } else if sum < 0 {
                    0
                } else {
                    sum as i32
                };
                p.updated_at = now;
                let ret = p.clone();
                let ghost gp = p;
                let ghost orig = self.player_characters@;
                self.player_characters.set(i, p);
                proof {
                    lemma_unique_update(orig, i as int, gp, |x: PlayerCharacter| x.id@);
                }
                Ok(ret)
            },
            None => Err(AppError::EntityNotFound(id.clone())),
        }
    }
}

} // verus!
