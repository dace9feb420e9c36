//! The closed set of record kinds and the canonical on-disk ordering of a
//! plugin's record collection: every kind has a fixed category ordinal,
//! three kinds contribute a tie-break hint, and kinds that must keep
//! their insertion order share a category and leave hint and identifier
//! empty, so the sort's stability preserves their relative order.

use vstd::prelude::*;

use crate::sort::{apply_isort, chars_lt, is_permutation, isort, SortKey};

verus! {

/// One record of a game-data file, reduced to what the canonical
/// ordering reads: the kind tag, the identifier where the kind sorts by
/// it, and the domain ordinal for the kinds that override the hint.
pub enum TES3Object {
    Header,
    GameSetting { id: String },
    GlobalVariable { id: String },
    Class { id: String },
    Faction { id: String },
    Race { id: String },
    Sound { id: String },
    Skill { skill_id: i32 },
    MagicEffect { effect_id: i32 },
    Script { id: String },
    Region { id: String },
    Birthsign { id: String },
    StartScript { id: String },
    LandscapeTexture { index: u16 },
    Spell { id: String },
    Static { id: String },
    Door { id: String },
    MiscItem { id: String },
    Weapon { id: String },
    Container { id: String },
    Creature { id: String },
    Bodypart { id: String },
    Light { id: String },
    Enchanting { id: String },
    Npc { id: String },
    Armor { id: String },
    Clothing { id: String },
    RepairItem { id: String },
    Activator { id: String },
    Apparatus { id: String },
    Lockpick { id: String },
    Probe { id: String },
    Ingredient { id: String },
    Book { id: String },
    Alchemy { id: String },
    LeveledItem { id: String },
    LeveledCreature { id: String },
    Cell { id: String },
    Landscape,
    PathGrid,
    SoundGen { id: String },
    Dialogue { id: String },
    DialogueInfo { id: String },
}

/// The fixed category ordinal of a record kind.  Cell, Landscape and
/// PathGrid share one category so their interleaved order survives the
/// sort; Dialogue and DialogueInfo share one for the same reason.
pub open spec fn category_of(o: TES3Object) -> u32 {
    match o {
        TES3Object::Header => 0,
        TES3Object::GameSetting { .. } => 1,
        TES3Object::GlobalVariable { .. } => 2,
        TES3Object::Class { .. } => 3,
        TES3Object::Faction { .. } => 4,
        TES3Object::Race { .. } => 5,
        TES3Object::Sound { .. } => 6,
        TES3Object::Skill { .. } => 7,
        TES3Object::MagicEffect { .. } => 8,
        TES3Object::Script { .. } => 9,
        TES3Object::Region { .. } => 10,
        TES3Object::Birthsign { .. } => 11,
        TES3Object::StartScript { .. } => 12,
        TES3Object::LandscapeTexture { .. } => 13,
        TES3Object::Spell { .. } => 14,
        TES3Object::Static { .. } => 15,
        TES3Object::Door { .. } => 16,
        TES3Object::MiscItem { .. } => 17,
        TES3Object::Weapon { .. } => 18,
        TES3Object::Container { .. } => 19,
        TES3Object::Creature { .. } => 20,
        TES3Object::Bodypart { .. } => 21,
        TES3Object::Light { .. } => 22,
        TES3Object::Enchanting { .. } => 23,
        TES3Object::Npc { .. } => 24,
        TES3Object::Armor { .. } => 25,
        TES3Object::Clothing { .. } => 26,
        TES3Object::RepairItem { .. } => 27,
        TES3Object::Activator { .. } => 28,
        TES3Object::Apparatus { .. } => 29,
        TES3Object::Lockpick { .. } => 30,
        TES3Object::Probe { .. } => 31,
        TES3Object::Ingredient { .. } => 32,
        TES3Object::Book { .. } => 33,
        TES3Object::Alchemy { .. } => 34,
        TES3Object::LeveledItem { .. } => 35,
        TES3Object::LeveledCreature { .. } => 36,
        TES3Object::Cell { .. } => 37,
        TES3Object::Landscape => 37,
        TES3Object::PathGrid => 37,
        TES3Object::SoundGen { .. } => 38,
        TES3Object::Dialogue { .. } => 39,
        TES3Object::DialogueInfo { .. } => 39,
    }
}

/// The tie-break hint: zero for every kind except the three that sort by
/// a domain ordinal.
pub open spec fn hint_of(o: TES3Object) -> i32 {
    match o {
        TES3Object::Skill { skill_id } => skill_id,
        TES3Object::MagicEffect { effect_id } => effect_id,
        TES3Object::LandscapeTexture { index } => index as i32,
        _ => 0,
    }
}

/// The identifier a record sorts by: its id, or empty for kinds without
/// one and for kinds whose members must keep their insertion order.
pub open spec fn id_of(o: TES3Object) -> Seq<char> {
    match o {
        TES3Object::GameSetting { id } => id@,
        TES3Object::GlobalVariable { id } => id@,
        TES3Object::Class { id } => id@,
        TES3Object::Faction { id } => id@,
        TES3Object::Race { id } => id@,
        TES3Object::Sound { id } => id@,
        TES3Object::Script { id } => id@,
        TES3Object::Region { id } => id@,
        TES3Object::Birthsign { id } => id@,
        TES3Object::StartScript { id } => id@,
        TES3Object::Spell { id } => id@,
        TES3Object::Static { id } => id@,
        TES3Object::Door { id } => id@,
        TES3Object::MiscItem { id } => id@,
        TES3Object::Weapon { id } => id@,
        TES3Object::Container { id } => id@,
        TES3Object::Creature { id } => id@,
        TES3Object::Bodypart { id } => id@,
        TES3Object::Light { id } => id@,
        TES3Object::Enchanting { id } => id@,
        TES3Object::Npc { id } => id@,
        TES3Object::Armor { id } => id@,
        TES3Object::Clothing { id } => id@,
        TES3Object::RepairItem { id } => id@,
        TES3Object::Activator { id } => id@,
        TES3Object::Apparatus { id } => id@,
        TES3Object::Lockpick { id } => id@,
        TES3Object::Probe { id } => id@,
        TES3Object::Ingredient { id } => id@,
        TES3Object::Book { id } => id@,
        TES3Object::Alchemy { id } => id@,
        TES3Object::LeveledItem { id } => id@,
        TES3Object::LeveledCreature { id } => id@,
        TES3Object::SoundGen { id } => id@,
        _ => Seq::empty(),
    }
}

/// Strict order on the sort keys of two records: category, then hint,
/// then identifier.
pub open spec fn obj_key_lt(x: TES3Object, y: TES3Object) -> bool {
    if category_of(x) != category_of(y) {
        category_of(x) < category_of(y)
    } else if hint_of(x) != hint_of(y) {
        hint_of(x) < hint_of(y)
    } else {
        chars_lt(id_of(x), id_of(y))
    }
}

/// Two records whose sort keys compare equal.
pub open spec fn obj_key_eq(x: TES3Object, y: TES3Object) -> bool {
    category_of(x) == category_of(y) && hint_of(x) == hint_of(y) && id_of(x) == id_of(y)
}

/// The canonical order among positions `a` and `b` of `s`: strictly
/// smaller key, or equal keys in original order (stability).
pub open spec fn obj_order_lt(s: Seq<TES3Object>, a: int, b: int) -> bool {
    obj_key_lt(s[a], s[b]) || (obj_key_eq(s[a], s[b]) && a < b)
}

/// The composite sort key of one record.
pub fn object_sort_key(o: &TES3Object) -> (k: SortKey)
    ensures
        k.category == category_of(*o),
        k.hint == hint_of(*o),
        k.id@ == id_of(*o),
{
    match o {
        TES3Object::Header => SortKey { category: 0, hint: 0, id: String::new() },
        TES3Object::GameSetting { id } => SortKey { category: 1, hint: 0, id: id.clone() },
        TES3Object::GlobalVariable { id } => SortKey { category: 2, hint: 0, id: id.clone() },
        TES3Object::Class { id } => SortKey { category: 3, hint: 0, id: id.clone() },
        TES3Object::Faction { id } => SortKey { category: 4, hint: 0, id: id.clone() },
        TES3Object::Race { id } => SortKey { category: 5, hint: 0, id: id.clone() },
        TES3Object::Sound { id } => SortKey { category: 6, hint: 0, id: id.clone() },
        TES3Object::Skill { skill_id } => SortKey {
            category: 7,
            hint: *skill_id,
            id: String::new(),
        },
        TES3Object::MagicEffect { effect_id } => SortKey {
            category: 8,
            hint: *effect_id,
            id: String::new(),
        },
        TES3Object::Script { id } => SortKey { category: 9, hint: 0, id: id.clone() },
        TES3Object::Region { id } => SortKey { category: 10, hint: 0, id: id.clone() },
        TES3Object::Birthsign { id } => SortKey { category: 11, hint: 0, id: id.clone() },
        TES3Object::StartScript { id } => SortKey { category: 12, hint: 0, id: id.clone() },
        TES3Object::LandscapeTexture { index } => SortKey {
            category: 13,
            hint: *index as i32,
            id: String::new(),
        },
        TES3Object::Spell { id } => SortKey { category: 14, hint: 0, id: id.clone() },
        TES3Object::Static { id } => SortKey { category: 15, hint: 0, id: id.clone() },
        TES3Object::Door { id } => SortKey { category: 16, hint: 0, id: id.clone() },
        TES3Object::MiscItem { id } => SortKey { category: 17, hint: 0, id: id.clone() },
        TES3Object::Weapon { id } => SortKey { category: 18, hint: 0, id: id.clone() },
        TES3Object::Container { id } => SortKey { category: 19, hint: 0, id: id.clone() },
        TES3Object::Creature { id } => SortKey { category: 20, hint: 0, id: id.clone() },
        TES3Object::Bodypart { id } => SortKey { category: 21, hint: 0, id: id.clone() },
        TES3Object::Light { id } => SortKey { category: 22, hint: 0, id: id.clone() },
        TES3Object::Enchanting { id } => SortKey { category: 23, hint: 0, id: id.clone() },
        TES3Object::Npc { id } => SortKey { category: 24, hint: 0, id: id.clone() },
        TES3Object::Armor { id } => SortKey { category: 25, hint: 0, id: id.clone() },
        TES3Object::Clothing { id } => SortKey { category: 26, hint: 0, id: id.clone() },
        TES3Object::RepairItem { id } => SortKey { category: 27, hint: 0, id: id.clone() },
        TES3Object::Activator { id } => SortKey { category: 28, hint: 0, id: id.clone() },
        TES3Object::Apparatus { id } => SortKey { category: 29, hint: 0, id: id.clone() },
        TES3Object::Lockpick { id } => SortKey { category: 30, hint: 0, id: id.clone() },
        TES3Object::Probe { id } => SortKey { category: 31, hint: 0, id: id.clone() },
        TES3Object::Ingredient { id } => SortKey { category: 32, hint: 0, id: id.clone() },
        TES3Object::Book { id } => SortKey { category: 33, hint: 0, id: id.clone() },
        TES3Object::Alchemy { id } => SortKey { category: 34, hint: 0, id: id.clone() },
        TES3Object::LeveledItem { id } => SortKey { category: 35, hint: 0, id: id.clone() },
        TES3Object::LeveledCreature { id } => SortKey { category: 36, hint: 0, id: id.clone() },
        TES3Object::Cell { .. } => SortKey { category: 37, hint: 0, id: String::new() },
        TES3Object::Landscape => SortKey { category: 37, hint: 0, id: String::new() },
        TES3Object::PathGrid => SortKey { category: 37, hint: 0, id: String::new() },
        TES3Object::SoundGen { id } => SortKey { category: 38, hint: 0, id: id.clone() },
        TES3Object::Dialogue { .. } => SortKey { category: 39, hint: 0, id: String::new() },
        TES3Object::DialogueInfo { .. } => SortKey { category: 39, hint: 0, id: String::new() },
    }
}

/// A collection of records to be brought into canonical order before
/// serialization.
pub struct Plugin {
    /// The records, in their current order.
    pub objects: Vec<TES3Object>,
}

impl Plugin {
    /// Sort the records into canonical on-disk order: ascending by
    /// (category, hint, identifier), records with equal keys keeping
    /// their original relative order.  The result is a permutation of the
    /// records, rearranged in place.
    pub fn sort_objects(&mut self)
        ensures
            final(self).objects@.len() == old(self).objects@.len(),
            exists|p: Seq<usize>|
                {
                    &&& is_permutation(p, old(self).objects@.len() as int)
                    &&& (forall|k: int|
                        0 <= k < p.len() ==> final(self).objects@[k] == old(self).objects@[(
                        #[trigger] p[k]) as int])
                    &&& (forall|a: int, b: int|
                        0 <= a < b < p.len() ==> obj_order_lt(
                            old(self).objects@,
                            (#[trigger] p[a]) as int,
                            (#[trigger] p[b]) as int,
                        ))
                },
    {
        let ghost orig = self.objects@;
        let n = self.objects.len();
        let mut keys: Vec<SortKey> = Vec::new();
        for k in 0..n
            invariant
                n == orig.len(),
                self.objects@ == orig,
                keys@.len() == k,
                forall|j: int|
                    0 <= j < k ==> (#[trigger] keys@[j]).category == category_of(orig[j])
                        && keys@[j].hint == hint_of(orig[j]) && keys@[j].id@ == id_of(orig[j]),
        {
            let key = object_sort_key(&self.objects[k]);
            keys.push(key);
        }
        let mut indices: Vec<usize> = Vec::new();
        isort(&mut indices, &keys);
        let ghost p = indices@;
        apply_isort(&mut indices, &mut self.objects);
        proof {
            assert forall|a: int, b: int| 0 <= a < b < p.len() implies obj_order_lt(
                orig,
                p[a] as int,
                p[b] as int,
            ) by {
                assert(crate::sort::key_index_lt(keys@, p[a] as int, p[b] as int));
            }
            assert(is_permutation(p, orig.len() as int) && (forall|k: int|
                0 <= k < p.len() ==> self.objects@[k] == orig[(#[trigger] p[k]) as int]) && (
            forall|a: int, b: int|
                0 <= a < b < p.len() ==> obj_order_lt(
                    orig,
                    (#[trigger] p[a]) as int,
                    (#[trigger] p[b]) as int,
                )));
        }
    }
}

} // verus!
