//! NPC/adversary entities: HP, stress and damage-threshold rules.

use vstd::prelude::*;

use crate::error::AppError;
use crate::idgen::fresh_id;
use crate::store::{
    entity_idx_of, find_entity, has_entity_id, lemma_entity_idx, lemma_filter_take_step,
    lemma_unique_prepend, lemma_unique_remove, lemma_unique_update, Store,
};

verus! {

/// Whether an entity is a friendly NPC or an adversary.
#[derive(Clone, Copy, Debug, PartialEq, Eq, Structural)]
pub enum EntityType {
    Npc,
    Adversary,
}

impl EntityType {
    /// The wire name of this entity type.
    pub fn as_str(&self) -> (r: &'static str)
        ensures
            self is Npc ==> r@ == "npc"@,
            self is Adversary ==> r@ == "adversary"@,
    {
        match self {
            EntityType::Npc => "npc",
            EntityType::Adversary => "adversary",
        }
    }

    /// Parses a wire name; anything but "npc" is an adversary.
    pub fn from_str(s: &str) -> (r: Self)
        ensures
            r == (if s@ == "npc"@ { EntityType::Npc } else { EntityType::Adversary }),
    {
        if s.to_owned() == "npc".to_owned() {
            EntityType::Npc
        } else {
            EntityType::Adversary
        }
    }
}

/// The three damage-severity boundaries of an entity.
#[derive(Clone, Copy, Debug, PartialEq, Eq, Structural)]
pub struct DamageThresholds {
    pub minor: i32,
    pub major: i32,
    pub severe: i32,
}

/// An NPC or adversary tracked with HP, stress and damage thresholds.
#[derive(Debug)]
pub struct Entity {
    pub id: String,
    pub campaign_id: String,
    pub name: String,
    pub hp_current: i32,
    pub hp_max: i32,
    pub stress_current: i32,
    pub stress_max: i32,
    pub thresholds: DamageThresholds,
    pub visible_to_players: bool,
    pub entity_type: EntityType,
}

impl Clone for Entity {
    fn clone(&self) -> (r: Self)
        ensures
            r == *self,
    {
        Entity {
            id: self.id.clone(),
            campaign_id: self.campaign_id.clone(),
            name: self.name.clone(),
            hp_current: self.hp_current,
            hp_max: self.hp_max,
            stress_current: self.stress_current,
            stress_max: self.stress_max,
            thresholds: self.thresholds,
            visible_to_players: self.visible_to_players,
            entity_type: self.entity_type,
        }
    }
}

/// Stress capacity used when an entity's own `stress_max` is unset (`<= 0`).
pub const DEFAULT_STRESS_CAP: i32 = 12;

/// The stress capacity that actually applies to an entity: its own
/// `stress_max` when positive, otherwise the default cap of 12.
pub open spec fn effective_stress_max(stress_max: int) -> int {
    if stress_max > 0 {
        stress_max
    } else {
        DEFAULT_STRESS_CAP as int
    }
}

/// Clamps `v` into `[lo, hi]`, favouring the floor when `hi < lo`.
pub open spec fn clamped(v: int, lo: int, hi: int) -> int {
    if v > hi {
        if hi < lo {
            lo
        } else {
            hi
        }
    } else if v < lo {
        lo
    } else {
        v
    }
}

impl Entity {
    /// The range invariants of an entity: HP within `[0, hp_max]`, a
    /// stress cap of at most 12, and stress within `[0, effective cap]`.
    pub open spec fn wf(self) -> bool {
        &&& 0 <= self.hp_current <= self.hp_max
        &&& self.stress_max <= DEFAULT_STRESS_CAP
        &&& 0 <= self.stress_current <= effective_stress_max(self.stress_max as int)
    }
}

/// The fixed HP loss for a damage amount held against the thresholds,
/// checked in descending severity: `2 * severe` ("massive") costs 4,
/// `severe` costs 3, `major` costs 2, `minor` costs 1, anything below
/// `minor` costs nothing.
pub open spec fn damage_hp_loss(t: DamageThresholds, damage: int) -> int {
    if damage >= 2 * t.severe {
        4
    } else if damage >= t.severe {
        3
    } else if damage >= t.major {
        2
    } else if damage >= t.minor {
        1
    } else {
        0
    }
}

/// The name of the severity tier crossed by a damage amount, if any.
pub open spec fn damage_tier_name(t: DamageThresholds, damage: int) -> Option<Seq<char>> {
    if damage >= 2 * t.severe {
        Some("massive"@)
    } else if damage >= t.severe {
        Some("severe"@)
    } else if damage >= t.major {
        Some("major"@)
    } else if damage >= t.minor {
        Some("minor"@)
    } else {
        None
    }
}

/// The damage taxonomy is monotonic: for fixed thresholds, more incoming
/// damage never costs fewer hit points, whatever order the thresholds
/// happen to be in.
pub proof fn lemma_damage_loss_monotonic(t: DamageThresholds, d1: int, d2: int)
    requires
        d1 <= d2,
    ensures
        damage_hp_loss(t, d1) <= damage_hp_loss(t, d2),
{
}

/// What `apply_damage` reports: the updated entity, the HP actually lost
/// and the severity tier that was crossed.
#[derive(Debug)]
pub struct DamageResult {
    pub entity: Entity,
    pub damage_dealt: i32,
    pub threshold_hit: Option<String>,
}

/// What `adjust_entity_stress` reports: the updated entity, the net stress
/// change applied and the HP lost to stress overflow.
#[derive(Debug)]
pub struct StressResult {
    pub entity: Entity,
    pub stress_applied: i32,
    pub hp_overflow_damage: i32,
}

/// Stress actually absorbed when `amount` is added: capacity is consumed
/// first, one unit at a time (negative amounts heal, never below zero).
pub open spec fn stress_absorbed(cur: int, eff_max: int, amount: int) -> int {
    if amount > 0 {
        if amount <= eff_max - cur {
            amount
        } else {
            eff_max - cur
        }
    } else if amount < 0 {
        if -amount <= cur {
            amount
        } else {
            -cur
        }
    } else {
        0
    }
}

/// Stress units beyond capacity, each of which becomes one point of HP
/// damage (zero when healing).
pub open spec fn stress_overflow(cur: int, eff_max: int, amount: int) -> int {
    if amount > 0 {
        amount - stress_absorbed(cur, eff_max, amount)
    } else {
        0
    }
}

/// The stress cap stored on a freshly created entity: the supplied value
/// (default 0), capped at 12.
pub open spec fn capped_stress_max(sm: Option<i32>) -> int {
    let v: int = match sm {
        Some(s) => s as int,
        None => 0,
    };
    if v > 12 {
        12
    } else {
        v
    }
}

/// The entities a listing with the given campaign and visibility filter
/// keeps.
pub open spec fn entity_listed(cid: Seq<char>, visible_only: bool) -> spec_fn(Entity) -> bool {
    |e: Entity| e.campaign_id@ == cid && (!visible_only || e.visible_to_players)
}

/// The entities that survive deleting the campaign `cid`.
pub open spec fn entity_kept(cid: Seq<char>) -> spec_fn(Entity) -> bool {
    |e: Entity| e.campaign_id@ != cid
}

/// A just-created entity comes back through the listing: the creation
/// commands prepend the new record, so when the entity at the front of
/// the store belongs to the campaign `cid`, the unfiltered listing of
/// `cid` (what `get_entities(false)` returns) starts with exactly that
/// record, every field as the creation contract pinned it.
pub proof fn lemma_front_entity_listed(s: Store, cid: Seq<char>)
    requires
        s.entities@.len() > 0,
        s.entities@[0].campaign_id@ == cid,
    ensures
        s.entities@.filter(entity_listed(cid, false)).len() > 0,
        s.entities@.filter(entity_listed(cid, false))[0] == s.entities@[0],
{
    crate::store::lemma_filter_first(s.entities@, entity_listed(cid, false));
}

impl Store {
    /// Creates an entity under the given id in the current campaign:
    /// HP starts full, stress empty, hidden from players.  Fails with
    /// `InvalidOperation` when no campaign is selected and with
    /// `PersistenceError` when the id is already taken.
    pub fn create_entity_with_id(
        &mut self,
        id: String,
        name: String,
        hp_max: i32,
        stress_max: Option<i32>,
        thresholds: DamageThresholds,
        entity_type: EntityType,
    ) -> (r: Result<Entity, AppError>)
        requires
            old(self).wf(),
            hp_max >= 0,
        ensures
            final(self).wf(),
            match old(self).current_campaign {
                None => r matches Err(e) && e is InvalidOperation && *final(self) == *old(self),
                Some(cur) => match r {
                    Ok(e) => {
                        &&& !has_entity_id(old(self).entities@, id@)
                        &&& e.id == id
                        &&& e.campaign_id == cur
                        &&& e.name == name
                        &&& e.hp_current == hp_max
                        &&& e.hp_max == hp_max
                        &&& e.stress_current == 0
                        &&& e.stress_max == capped_stress_max(stress_max)
                        &&& e.thresholds == thresholds
                        &&& e.visible_to_players == false
                        &&& e.entity_type == entity_type
                        &&& final(self).entities@ == seq![e] + old(self).entities@
                        &&& final(self).agrees_except_entities(*old(self))
                    },
                    Err(e) => {
                        &&& has_entity_id(old(self).entities@, id@)
                        &&& e is PersistenceError
                        &&& *final(self) == *old(self)
                    },
                },
            },
    {
        let cur = match self.get_current_campaign_id() {
            Some(cur) => cur,
            None => {
                return Err(AppError::InvalidOperation("No campaign selected".to_owned()));
            },
        };
        if find_entity(&self.entities, &id).is_some() {
            return Err(AppError::PersistenceError(id));
        }
        let sm = match stress_max {
            Some(s) => {
                if s > 12 {
                    12
                } else {
                    s
                }
            },
            None => 0,
        };
        let e = Entity {
            id,
            campaign_id: cur,
            name,
            hp_current: hp_max,
            hp_max,
            stress_current: 0,
            stress_max: sm,
            thresholds,
            visible_to_players: false,
            entity_type,
        };
        let ret = e.clone();
        let ghost ge = e;
        let ghost orig = self.entities@;
        self.entities.insert(0, e);
        proof {
            assert(self.entities@ =~= seq![ge] + orig);
            lemma_unique_prepend(orig, ge, |x: Entity| x.id@);
        }
        Ok(ret)
    }

    /// Creates an entity under a freshly generated id in the current
    /// campaign.
    pub fn create_entity(
        &mut self,
        name: String,
        hp_max: i32,
        stress_max: Option<i32>,
        thresholds: DamageThresholds,
        entity_type: EntityType,
    ) -> (r: Result<Entity, AppError>)
        requires
            old(self).wf(),
            hp_max >= 0,
        ensures
            final(self).wf(),
            match old(self).current_campaign {
                None => r matches Err(e) && e is InvalidOperation && *final(self) == *old(self),
                Some(cur) => match r {
                    Ok(e) => {
                        &&& !has_entity_id(old(self).entities@, e.id@)
                        &&& e.campaign_id == cur
                        &&& e.name == name
                        &&& e.hp_current == hp_max
                        &&& e.hp_max == hp_max
                        &&& e.stress_current == 0
                        &&& e.stress_max == capped_stress_max(stress_max)
                        &&& e.thresholds == thresholds
                        &&& e.visible_to_players == false
                        &&& e.entity_type == entity_type
                        &&& final(self).entities@ == seq![e] + old(self).entities@
                        &&& final(self).agrees_except_entities(*old(self))
                    },
                    Err(e) => {
                        &&& e is PersistenceError
                        &&& *final(self) == *old(self)
                    },
                },
            },
    {
        let id = fresh_id();
        self.create_entity_with_id(id, name, hp_max, stress_max, thresholds, entity_type)
    }

    /// Deletes the entity with the given id, or fails with
    /// `EntityNotFound`.
    pub fn delete_entity(&mut self, id: &String) -> (r: Result<(), AppError>)
        requires
            old(self).wf(),
        ensures
            final(self).wf(),
            match r {
                Ok(u) => {
                    &&& has_entity_id(old(self).entities@, id@)
                    &&& final(self).entities@ == old(self).entities@.remove(
                        entity_idx_of(old(self).entities@, id@),
                    )
                    &&& final(self).agrees_except_entities(*old(self))
                },
                Err(e) => {
                    &&& !has_entity_id(old(self).entities@, id@)
                    &&& e is EntityNotFound
                    &&& *final(self) == *old(self)
                },
            },
    {
        match find_entity(&self.entities, id) {
            Some(i) => {
                proof {
                    lemma_entity_idx(self.entities@, id@, i as int);
                }
                let ghost orig = self.entities@;
                self.entities.remove(i);
                proof {
                    lemma_unique_remove(orig, i as int, |x: Entity| x.id@);
                }
                Ok(())
            },
            None => Err(AppError::EntityNotFound(id.clone())),
        }
    }

    /// The current campaign's entities, optionally only those visible to
    /// players, in store order.  Fails with `InvalidOperation` when no
    /// campaign is selected.
    pub fn get_entities(&self, visible_only: bool) -> (r: Result<Vec<Entity>, AppError>)
        requires
            self.wf(),
        ensures
            match self.current_campaign {
                None => r matches Err(e) && e is InvalidOperation,
                Some(cur) => r matches Ok(v) && v@ == self.entities@.filter(
                    entity_listed(cur@, visible_only),
                ),
            },
    {
        let cur = match self.get_current_campaign_id() {
            Some(cur) => cur,
            None => {
                return Err(AppError::InvalidOperation("No campaign selected".to_owned()));
            },
        };
        let mut out: Vec<Entity> = Vec::new();
        let mut i: usize = 0;
        while i < self.entities.len()
            invariant
                i <= self.entities.len(),
                cur@ == self.current_campaign->Some_0@,
                out@ == self.entities@.take(i as int).filter(entity_listed(cur@, visible_only)),
            decreases self.entities.len() - i,
        {
            let keep = self.entities[i].campaign_id == cur && (!visible_only
                || self.entities[i].visible_to_players);
            proof {
                lemma_filter_take_step(self.entities@, i as int, entity_listed(cur@, visible_only));
            }
            if keep {
                out.push(self.entities[i].clone());
            }
            i = i + 1;
        }
        proof {
            assert(self.entities@.take(self.entities@.len() as int) == self.entities@);
        }
        Ok(out)
    }

    /// Moves an entity's HP by `amount`, clamped into `[0, hp_max]`.
    pub fn update_entity_hp(&mut self, id: &String, amount: i32) -> (r: Result<Entity, AppError>)
        requires
            old(self).wf(),
        ensures
            final(self).wf(),
            match r {
                Ok(e) => {
                    &&& has_entity_id(old(self).entities@, id@)
                    &&& e == (Entity { hp_current: e.hp_current, ..old(self).entity_at(id@) })
                    &&& e.hp_current == clamped(
                        old(self).entity_at(id@).hp_current + amount,
                        0,
                        old(self).entity_at(id@).hp_max as int,
                    )
                    &&& 0 <= e.hp_current <= e.hp_max
                    &&& final(self).entities@ == old(self).entities@.update(
                        entity_idx_of(old(self).entities@, id@),
                        e,
                    )
                    &&& final(self).agrees_except_entities(*old(self))
                },
                Err(e) => {
                    &&& !has_entity_id(old(self).entities@, id@)
                    &&& e is EntityNotFound
                    &&& *final(self) == *old(self)
                },
            },
    {
        match find_entity(&self.entities, id) {
            Some(i) => {
                proof {
                    lemma_entity_idx(self.entities@, id@, i as int);
                }
                let mut e = self.entities[i].clone();
                let sum: i64 = e.hp_current as i64 + amount as i64;
                let nv: i32 = if sum < 0 {
                    0
                } else if sum > e.hp_max as i64 {
                    e.hp_max
                } else {
                    sum as i32
                };
                e.hp_current = nv;
                let ret = e.clone();
                let ghost ge = e;
                let ghost orig = self.entities@;
                self.entities.set(i, e);
                proof {
                    lemma_unique_update(orig, i as int, ge, |x: Entity| x.id@);
                }
                Ok(ret)
            },
            None => Err(AppError::EntityNotFound(id.clone())),
        }
    }

    /// Applies incoming damage to an entity: the thresholds pick a fixed
    /// HP loss (massive 4, severe 3, major 2, minor 1, below minor 0),
    /// which is then capped by the entity's remaining HP.
    pub fn apply_damage(&mut self, id: &String, damage: i32) -> (r: Result<DamageResult, AppError>)
        requires
            old(self).wf(),
        ensures
            final(self).wf(),
            match r {
                Ok(dr) => ({
                    let oe = old(self).entity_at(id@);
                    let loss = damage_hp_loss(oe.thresholds, damage as int);
                    &&& has_entity_id(old(self).entities@, id@)
                    &&& dr.damage_dealt == (if loss <= oe.hp_current {
                        loss
                    } else {
                        oe.hp_current as int
                    })
                    &&& dr.entity == (Entity { hp_current: dr.entity.hp_current, ..oe })
                    &&& dr.entity.hp_current == oe.hp_current - dr.damage_dealt
                    &&& 0 <= dr.entity.hp_current <= dr.entity.hp_max
                    &&& match damage_tier_name(oe.thresholds, damage as int) {
                        Some(n) => dr.threshold_hit matches Some(s) && s@ == n,
                        None => dr.threshold_hit is None,
                    }
                    &&& final(self).entities@ == old(self).entities@.update(
                        entity_idx_of(old(self).entities@, id@),
                        dr.entity,
                    )
                    &&& final(self).agrees_except_entities(*old(self))
                }),
                Err(e) => {
                    &&& !has_entity_id(old(self).entities@, id@)
                    &&& e is EntityNotFound
                    &&& *final(self) == *old(self)
                },
            },
    {
        match find_entity(&self.entities, id) {
            Some(i) => {
                proof {
                    lemma_entity_idx(self.entities@, id@, i as int);
                }
                let mut e = self.entities[i].clone();
                let d = damage as i64;
                let massive: i64 = 2 * (e.thresholds.severe as i64);
                let hit: Option<String>;
                let loss: i32;
                if d >= massive {
                    hit = Some("massive".to_owned());
                    loss = 4;
                } else if damage >= e.thresholds.severe {
                    hit = Some("severe".to_owned());
                    loss = 3;
                } else if damage >= e.thresholds.major {
                    hit = Some("major".to_owned());
                    loss = 2;
                } else if damage >= e.thresholds.minor {
                    hit = Some("minor".to_owned());
                    loss = 1;
                } else {
                    hit = None;
                    loss = 0;
                }
                let actual = if loss <= e.hp_current {
                    loss
                } else {
                    e.hp_current
                };
                e.hp_current = e.hp_current - actual;
                let ret_entity = e.clone();
                let ghost ge = e;
                let ghost orig = self.entities@;
                self.entities.set(i, e);
                proof {
                    lemma_unique_update(orig, i as int, ge, |x: Entity| x.id@);
                }
                Ok(DamageResult { entity: ret_entity, damage_dealt: actual, threshold_hit: hit })
            },
            None => Err(AppError::EntityNotFound(id.clone())),
        }
    }

    /// Adds or heals stress one unit at a time.  Positive amounts fill the
    /// stress track up to the effective cap; every further unit overflows
    /// into one point of HP damage (HP floor 0).  Negative amounts heal
    /// stress, never below zero, and leave HP alone.
    pub fn adjust_entity_stress(&mut self, id: &String, amount: i32) -> (r: Result<
        StressResult,
        AppError,
    >)
        requires
            old(self).wf(),
        ensures
            final(self).wf(),
            match r {
                Ok(sr) => ({
                    let oe = old(self).entity_at(id@);
                    let eff = effective_stress_max(oe.stress_max as int);
                    &&& has_entity_id(old(self).entities@, id@)
                    &&& sr.stress_applied == stress_absorbed(
                        oe.stress_current as int,
                        eff,
                        amount as int,
                    )
                    &&& sr.hp_overflow_damage == stress_overflow(
                        oe.stress_current as int,
                        eff,
                        amount as int,
                    )
                    &&& sr.entity == (Entity {
                        stress_current: sr.entity.stress_current,
                        hp_current: sr.entity.hp_current,
                        ..oe
                    })
                    &&& sr.entity.stress_current == oe.stress_current + sr.stress_applied
                    &&& sr.entity.hp_current == (if oe.hp_current - sr.hp_overflow_damage < 0 {
                        0
                    } else {
                        oe.hp_current - sr.hp_overflow_damage
                    })
                    &&& 0 <= sr.entity.stress_current <= eff
                    &&& 0 <= sr.entity.hp_current <= sr.entity.hp_max
                    &&& final(self).entities@ == old(self).entities@.update(
                        entity_idx_of(old(self).entities@, id@),
                        sr.entity,
                    )
                    &&& final(self).agrees_except_entities(*old(self))
                }),
                Err(e) => {
                    &&& !has_entity_id(old(self).entities@, id@)
                    &&& e is EntityNotFound
                    &&& *final(self) == *old(self)
                },
            },
    {
        match find_entity(&self.entities, id) {
            Some(i) => {
                proof {
                    lemma_entity_idx(self.entities@, id@, i as int);
                }
                let mut e = self.entities[i].clone();
                let ghost cur0 = e.stress_current as int;
                let ghost hp0 = e.hp_current as int;
                let eff: i32 = if e.stress_max > 0 {
                    e.stress_max
                } else {
                    DEFAULT_STRESS_CAP
                };
                let mut stress_applied: i32 = 0;
                let mut hp_overflow: i32 = 0;
                let mut new_stress: i32 = e.stress_current;
                let mut new_hp: i32 = e.hp_current;
                if amount > 0 {
                    let mut k: i32 = 0;
                    while k < amount
                        invariant
                            0 < amount,
                            0 <= k <= amount,
                            eff as int == effective_stress_max(e.stress_max as int),
                            0 <= cur0 <= eff,
                            0 <= hp0 <= e.hp_max,
                            stress_applied == stress_absorbed(cur0, eff as int, k as int),
                            hp_overflow == stress_overflow(cur0, eff as int, k as int),
                            new_stress == cur0 + stress_applied,
                            new_hp == (if hp0 - hp_overflow < 0 {
                                0
                            } else {
                                hp0 - hp_overflow
                            }),
                        decreases amount - k,
                    {
                        if new_stress < eff {
                            new_stress = new_stress + 1;
                            stress_applied = stress_applied + 1;
                        } else {
                            new_hp = if new_hp > 0 {
                                new_hp - 1
                            } else {
                                0
                            };
                            hp_overflow = hp_overflow + 1;
                        }
                        k = k + 1;
                    }
                } else if amount < 0 {
                    let neg: i64 = -(amount as i64);
                    let reduction: i32 = if neg <= new_stress as i64 {
                        neg as i32
                    } else {
                        new_stress
                    };
                    new_stress = new_stress - reduction;
                    stress_applied = -reduction;
                }
                e.stress_current = new_stress;
                e.hp_current = new_hp;
                let ret_entity = e.clone();
                let ghost ge = e;
                let ghost orig = self.entities@;
                self.entities.set(i, e);
                proof {
                    lemma_unique_update(orig, i as int, ge, |x: Entity| x.id@);
                }
                Ok(StressResult {
                    entity: ret_entity,
                    stress_applied,
                    hp_overflow_damage: hp_overflow,
                })
            },
            None => Err(AppError::EntityNotFound(id.clone())),
        }
    }

    /// Replaces an entity's damage thresholds.
    pub fn update_entity_thresholds(&mut self, id: &String, thresholds: DamageThresholds) -> (r:
        Result<Entity, AppError>)
        requires
            old(self).wf(),
        ensures
            final(self).wf(),
            match r {
                Ok(e) => {
                    &&& has_entity_id(old(self).entities@, id@)
                    &&& e == (Entity { thresholds: thresholds, ..old(self).entity_at(id@) })
                    &&& final(self).entities@ == old(self).entities@.update(
                        entity_idx_of(old(self).entities@, id@),
                        e,
                    )
                    &&& final(self).agrees_except_entities(*old(self))
                },
                Err(e) => {
                    &&& !has_entity_id(old(self).entities@, id@)
                    &&& e is EntityNotFound
                    &&& *final(self) == *old(self)
                },
            },
    {
        match find_entity(&self.entities, id) {
            Some(i) => {
                proof {
                    lemma_entity_idx(self.entities@, id@, i as int);
                }
                let mut e = self.entities[i].clone();
                e.thresholds = thresholds;
                let ret = e.clone();
                let ghost ge = e;
                let ghost orig = self.entities@;
                self.entities.set(i, e);
                proof {
                    lemma_unique_update(orig, i as int, ge, |x: Entity| x.id@);
                }
                Ok(ret)
            },
            None => Err(AppError::EntityNotFound(id.clone())),
        }
    }

    /// Renames an entity.
    pub fn update_entity_name(&mut self, id: &String, name: String) -> (r: Result<Entity, AppError>)
        requires
            old(self).wf(),
        ensures
            final(self).wf(),
            match r {
                Ok(e) => {
                    &&& has_entity_id(old(self).entities@, id@)
                    &&& e == (Entity { name: name, ..old(self).entity_at(id@) })
                    &&& final(self).entities@ == old(self).entities@.update(
                        entity_idx_of(old(self).entities@, id@),
                        e,
                    )
                    &&& final(self).agrees_except_entities(*old(self))
                },
                Err(e) => {
                    &&& !has_entity_id(old(self).entities@, id@)
                    &&& e is EntityNotFound
                    &&& *final(self) == *old(self)
                },
            },
    {
        match find_entity(&self.entities, id) {
            Some(i) => {
                proof {
                    lemma_entity_idx(self.entities@, id@, i as int);
                }
                let mut e = self.entities[i].clone();
                e.name = name;
                let ret = e.clone();
                let ghost ge = e;
                let ghost orig = self.entities@;
                self.entities.set(i, e);
                proof {
                    lemma_unique_update(orig, i as int, ge, |x: Entity| x.id@);
                }
                Ok(ret)
            },
            None => Err(AppError::EntityNotFound(id.clone())),
        }
    }

    /// Shows or hides an entity from players.
    pub fn toggle_entity_visibility(&mut self, id: &String, visible: bool) -> (r: Result<
        Entity,
        AppError,
    >)
        requires
            old(self).wf(),
        ensures
            final(self).wf(),
            match r {
                Ok(e) => {
                    &&& has_entity_id(old(self).entities@, id@)
                    &&& e == (Entity { visible_to_players: visible, ..old(self).entity_at(id@) })
                    &&& final(self).entities@ == old(self).entities@.update(
                        entity_idx_of(old(self).entities@, id@),
                        e,
                    )
                    &&& final(self).agrees_except_entities(*old(self))
                },
                Err(e) => {
                    &&& !has_entity_id(old(self).entities@, id@)
                    &&& e is EntityNotFound
                    &&& *final(self) == *old(self)
                },
            },
    {
        match find_entity(&self.entities, id) {
            Some(i) => {
                proof {
                    lemma_entity_idx(self.entities@, id@, i as int);
                }
                let mut e = self.entities[i].clone();
                e.visible_to_players = visible;
                let ret = e.clone();
                let ghost ge = e;
                let ghost orig = self.entities@;
                self.entities.set(i, e);
                proof {
                    lemma_unique_update(orig, i as int, ge, |x: Entity| x.id@);
                }
                Ok(ret)
            },
            None => Err(AppError::EntityNotFound(id.clone())),
        }
    }

    /// Shows or hides every entity of the current campaign, returning the
    /// refreshed entity list of that campaign.
    pub fn set_all_entities_visibility(&mut self, visible: bool) -> (r: Result<Vec<Entity>, AppError>)
        requires
            old(self).wf(),
        ensures
            final(self).wf(),
            match old(self).current_campaign {
                None => r matches Err(e) && e is InvalidOperation && *final(self) == *old(self),
                Some(cur) => {
                    &&& final(self).entities@.len() == old(self).entities@.len()
                    &&& forall|k: int|
                        0 <= k < old(self).entities@.len() ==> final(self).entities@[k] == (if old(
                            self,
                        ).entities@[k].campaign_id@ == cur@ {
                            (Entity {
                                visible_to_players: visible,
                                ..old(self).entities@[k]
                            })
                        } else {
                            old(self).entities@[k]
                        })
                    &&& r matches Ok(v) && v@ == final(self).entities@.filter(
                        entity_listed(cur@, false),
                    )
                    &&& final(self).agrees_except_entities(*old(self))
                },
            },
    {
        let cur = match self.get_current_campaign_id() {
            Some(cur) => cur,
            None => {
                return Err(AppError::InvalidOperation("No campaign selected".to_owned()));
            },
        };
        let ghost orig = self.entities@;
        let mut i: usize = 0;
        while i < self.entities.len()
            invariant
                i <= self.entities.len(),
                self.entities@.len() == orig.len(),
                self.agrees_except_entities(*old(self)),
                cur@ == self.current_campaign->Some_0@,
                forall|k: int|
                    0 <= k < i ==> self.entities@[k] == (if orig[k].campaign_id@ == cur@ {
                        (Entity { visible_to_players: visible, ..orig[k] })
                    } else {
                        orig[k]
                    }),
                forall|k: int| i <= k < orig.len() ==> self.entities@[k] == orig[k],
            decreases self.entities.len() - i,
        {
            if self.entities[i].campaign_id == cur {
                let mut e = self.entities[i].clone();
                e.visible_to_players = visible;
                self.entities.set(i, e);
            }
            i = i + 1;
        }
        proof {
            assert forall|a: int, b: int|
                0 <= a < b < self.entities@.len() implies (#[trigger] self.entities@[a]).id@ != (
            #[trigger] self.entities@[b]).id@ by {
                assert(self.entities@[a].id == orig[a].id);
                assert(self.entities@[b].id == orig[b].id);
            }
            assert forall|k: int|
                0 <= k < self.entities@.len() implies (#[trigger] self.entities@[k]).wf() by {
                assert(orig[k].wf());
            }
            assert forall|k: int|
                0 <= k < self.entities@.len() implies self.has_campaign(
                (#[trigger] self.entities@[k]).campaign_id@,
            ) by {
                assert(self.entities@[k].campaign_id == orig[k].campaign_id);
                assert(old(self).has_campaign(orig[k].campaign_id@));
            }
            assert(self.wf());
        }
        let out = match self.get_entities(false) {
            Ok(v) => v,
            Err(_) => {
                proof {
                    assert(false);
                }
                Vec::new()
            },
        };
        Ok(out)
    }

    /// Sets an entity's HP to `value`, clamped into `[0, hp_max]`.
    pub fn set_entity_hp(&mut self, id: &String, value: i32) -> (r: Result<Entity, AppError>)
        requires
            old(self).wf(),
        ensures
            final(self).wf(),
            match r {
                Ok(e) => {
                    &&& has_entity_id(old(self).entities@, id@)
                    &&& e == (Entity { hp_current: e.hp_current, ..old(self).entity_at(id@) })
                    &&& e.hp_current == clamped(
                        value as int,
                        0,
                        old(self).entity_at(id@).hp_max as int,
                    )
                    &&& 0 <= e.hp_current <= e.hp_max
                    &&& final(self).entities@ == old(self).entities@.update(
                        entity_idx_of(old(self).entities@, id@),
                        e,
                    )
                    &&& final(self).agrees_except_entities(*old(self))
                },
                Err(e) => {
                    &&& !has_entity_id(old(self).entities@, id@)
                    &&& e is EntityNotFound
                    &&& *final(self) == *old(self)
                },
            },
    {
        match find_entity(&self.entities, id) {
            Some(i) => {
                proof {
                    lemma_entity_idx(self.entities@, id@, i as int);
                }
                let mut e = self.entities[i].clone();
                let nv: i32 = if value < 0 {
                    0
                } else if value > e.hp_max {
                    e.hp_max
                } else {
                    value
                };
                e.hp_current = nv;
                let ret = e.clone();
                let ghost ge = e;
                let ghost orig = self.entities@;
                self.entities.set(i, e);
                proof {
                    lemma_unique_update(orig, i as int, ge, |x: Entity| x.id@);
                }
                Ok(ret)
            },
            None => Err(AppError::EntityNotFound(id.clone())),
        }
    }
}

} // verus!
