//! The registry store: principles, entities, asset types, asset
//! references and command verbs, with all mutation and cascade logic.
//!
//! The four short-name kinds (principle, entity, asset type, asset
//! reference) share one global namespace: no two items of any of these
//! kinds carry the same short name at the same time.  That invariant,
//! together with key uniqueness inside every review map, is `wf`.
//!
//! Operations take the current timestamp as an argument (`now`), validate
//! first, and mutate only when every check passed; on failure the store
//! is left exactly as it was.

use vstd::prelude::*;
use crate::errors::{ItemKind, VqlError};
use crate::strutil::strip_lead;
use crate::strutil::strip_lead_vec;
use crate::strutil::string_from;
use crate::strutil::chars_of;
use crate::strutil::str_eq;

verus! {

/// A registered command verb.
#[derive(Debug, Clone, PartialEq)]
pub struct CommandConfig {
    /// The name of the command, stored without its colon prefix.
    pub name: String,
    /// What the command does.
    pub description: String,
    /// When this command was created or last changed.
    pub last_modified: String,
    /// The original name, recorded the first time a built-in is renamed.
    pub original_name: Option<String>,
    /// Whether the command is a built-in.
    pub built_in: bool,
}

/// A category of asset; its short name is a single character.
#[derive(Debug, Clone, PartialEq)]
pub struct AssetType {
    pub short_name: String,
    pub description: String,
    pub last_modified: String,
}

/// A logical domain concept that assets belong to.
#[derive(Debug, Clone, PartialEq)]
pub struct Entity {
    pub short_name: String,
    pub description: String,
    pub last_modified: String,
}

/// A quality review attached to one (asset, principle) pair.
#[derive(Debug, Clone, PartialEq)]
pub struct Review {
    /// The compliance rating, one of "H", "M", "L", when present.
    pub rating: Option<String>,
    /// Free-text analysis, when present.
    pub analysis: Option<String>,
    pub last_modified: String,
}

/// A review dimension; its short name is a single character.
#[derive(Debug, Clone, PartialEq)]
pub struct Principle {
    pub short_name: String,
    pub long_name: String,
    /// Guidance text applied when assessing assets, when present.
    pub guidance: Option<String>,
    pub last_modified: String,
}

/// One tracked source file, with its metadata and reviews.
#[derive(Debug, Clone, PartialEq)]
pub struct AssetReference {
    pub short_name: String,
    /// The short name of the entity this asset belongs to.
    pub entity: String,
    /// The short name of this asset's type.
    pub asset_type: String,
    /// The path of the tracked file.
    pub path: String,
    pub last_modified: String,
    /// Whether the asset is a best-practice exemplar.
    pub exemplar: bool,
    /// Reviews, keyed by principle short name; keys are unique.
    pub principle_reviews: Vec<(String, Review)>,
}

/// The whole registry, persisted as one document.
#[derive(Debug, Clone, PartialEq)]
pub struct JsonStorage {
    pub version: String,
    pub created: String,
    pub last_modified: String,
    pub commands: Vec<CommandConfig>,
    pub asset_types: Vec<AssetType>,
    pub entities: Vec<Entity>,
    pub principles: Vec<Principle>,
    pub asset_references: Vec<AssetReference>,
}

/// The view of an optional owned string.
pub open spec fn opt_view(o: Option<String>) -> Option<Seq<char>> {
    match o {
        Some(s) => Some(s@),
        None => None,
    }
}

/// The view of an optional borrowed string.
pub open spec fn opt_str_view(o: Option<&str>) -> Option<Seq<char>> {
    match o {
        Some(s) => Some(s@),
        None => None,
    }
}

/// `a` carries a review under principle key `p`.
pub open spec fn has_review(a: AssetReference, p: Seq<char>) -> bool {
    exists|i: int|
        0 <= i < a.principle_reviews@.len() && (#[trigger] a.principle_reviews@[i].0@) == p
}

/// The review of `a` under key `p` (meaningful when `has_review`).
pub open spec fn review_of(a: AssetReference, p: Seq<char>) -> Review {
    a.principle_reviews@[choose|i: int|
        0 <= i < a.principle_reviews@.len() && (#[trigger] a.principle_reviews@[i].0@) == p].1
}

/// The review keys of `a` are pairwise distinct.
pub open spec fn review_keys_unique(a: AssetReference) -> bool {
    forall|i: int, j: int|
        0 <= i < j < a.principle_reviews@.len() ==> (#[trigger] a.principle_reviews@[i].0@) != (
        #[trigger] a.principle_reviews@[j].0@)
}

impl JsonStorage {
    /// A principle with short name `n` exists.
    pub open spec fn has_principle(self, n: Seq<char>) -> bool {
        exists|i: int|
            0 <= i < self.principles@.len() && (#[trigger] self.principles@[i].short_name@) == n
    }

    /// An entity with short name `n` exists.
    pub open spec fn has_entity(self, n: Seq<char>) -> bool {
        exists|i: int|
            0 <= i < self.entities@.len() && (#[trigger] self.entities@[i].short_name@) == n
    }

    /// An asset type with short name `n` exists.
    pub open spec fn has_asset_type(self, n: Seq<char>) -> bool {
        exists|i: int|
            0 <= i < self.asset_types@.len() && (#[trigger] self.asset_types@[i].short_name@) == n
    }

    /// An asset reference with short name `n` exists.
    pub open spec fn has_asset(self, n: Seq<char>) -> bool {
        exists|i: int|
            0 <= i < self.asset_references@.len() && (
            #[trigger] self.asset_references@[i].short_name@) == n
    }

    /// A command verb with (colon-stripped) name `n` exists.
    pub open spec fn has_command(self, n: Seq<char>) -> bool {
        exists|i: int| 0 <= i < self.commands@.len() && (#[trigger] self.commands@[i].name@) == n
    }

    /// The principle stored under short name `n`.
    pub open spec fn principle_of(self, n: Seq<char>) -> Principle {
        self.principles@[choose|i: int|
            0 <= i < self.principles@.len() && (#[trigger] self.principles@[i].short_name@) == n]
    }

    /// The asset reference stored under short name `n`.
    pub open spec fn asset_of(self, n: Seq<char>) -> AssetReference {
        self.asset_references@[choose|i: int|
            0 <= i < self.asset_references@.len() && (
            #[trigger] self.asset_references@[i].short_name@) == n]
    }

    /// The short name `n` is taken in the shared namespace of the four
    /// item kinds.
    pub open spec fn name_taken(self, n: Seq<char>) -> bool {
        self.has_principle(n) || self.has_entity(n) || self.has_asset_type(n) || self.has_asset(n)
    }

    /// The kind that holds name `n`, in the fixed priority order used by
    /// generic lookups: principle, entity, asset type, asset reference.
    pub open spec fn taken_kind(self, n: Seq<char>) -> ItemKind {
        if self.has_principle(n) {
            ItemKind::Principle
        } else if self.has_entity(n) {
            ItemKind::Entity
        } else if self.has_asset_type(n) {
            ItemKind::AssetType
        } else {
            ItemKind::Asset
        }
    }

    /// Well-formedness: short names are unique within each of the four
    /// kinds, distinct across the four kinds, command names are unique,
    /// every asset's review keys are unique, and every review key names
    /// an existing principle.
    pub open spec fn wf(self) -> bool {
        &&& forall|i: int, j: int|
            0 <= i < j < self.principles@.len() ==> (#[trigger] self.principles@[i].short_name@)
                != (#[trigger] self.principles@[j].short_name@)
        &&& forall|i: int, j: int|
            0 <= i < j < self.entities@.len() ==> (#[trigger] self.entities@[i].short_name@) != (
            #[trigger] self.entities@[j].short_name@)
        &&& forall|i: int, j: int|
            0 <= i < j < self.asset_types@.len() ==> (#[trigger] self.asset_types@[i].short_name@)
                != (#[trigger] self.asset_types@[j].short_name@)
        &&& forall|i: int, j: int|
            0 <= i < j < self.asset_references@.len() ==> (
            #[trigger] self.asset_references@[i].short_name@) != (
            #[trigger] self.asset_references@[j].short_name@)
        &&& forall|i: int, j: int|
            0 <= i < self.principles@.len() && 0 <= j < self.entities@.len() ==> (
            #[trigger] self.principles@[i].short_name@) != (
            #[trigger] self.entities@[j].short_name@)
        &&& forall|i: int, j: int|
            0 <= i < self.principles@.len() && 0 <= j < self.asset_types@.len() ==> (
            #[trigger] self.principles@[i].short_name@) != (
            #[trigger] self.asset_types@[j].short_name@)
        &&& forall|i: int, j: int|
            0 <= i < self.principles@.len() && 0 <= j < self.asset_references@.len() ==> (
            #[trigger] self.principles@[i].short_name@) != (
            #[trigger] self.asset_references@[j].short_name@)
        &&& forall|i: int, j: int|
            0 <= i < self.entities@.len() && 0 <= j < self.asset_types@.len() ==> (
            #[trigger] self.entities@[i].short_name@) != (
            #[trigger] self.asset_types@[j].short_name@)
        &&& forall|i: int, j: int|
            0 <= i < self.entities@.len() && 0 <= j < self.asset_references@.len() ==> (
            #[trigger] self.entities@[i].short_name@) != (
            #[trigger] self.asset_references@[j].short_name@)
        &&& forall|i: int, j: int|
            0 <= i < self.asset_types@.len() && 0 <= j < self.asset_references@.len() ==> (
            #[trigger] self.asset_types@[i].short_name@) != (
            #[trigger] self.asset_references@[j].short_name@)
        &&& forall|i: int, j: int|
            0 <= i < j < self.commands@.len() ==> (#[trigger] self.commands@[i].name@) != (
            #[trigger] self.commands@[j].name@)
        &&& forall|k: int|
            0 <= k < self.asset_references@.len() ==> review_keys_unique(
                #[trigger] self.asset_references@[k],
            )
        &&& forall|k: int, j: int|
            0 <= k < self.asset_references@.len() && 0 <= j
                < self.asset_references@[k].principle_reviews@.len() ==> self.has_principle(
                #[trigger] self.asset_references@[k].principle_reviews@[j].0@,
            )
    }

    /// Everything but the principles is unchanged between `pre` and `post`.
    pub open spec fn same_but_principles(pre: Self, post: Self, now: Seq<char>) -> bool {
        &&& post.version == pre.version
        &&& post.created == pre.created
        &&& post.last_modified@ == now
        &&& post.commands == pre.commands
        &&& post.asset_types == pre.asset_types
        &&& post.entities == pre.entities
        &&& post.asset_references == pre.asset_references
    }

    /// Everything but the entities is unchanged between `pre` and `post`.
    pub open spec fn same_but_entities(pre: Self, post: Self, now: Seq<char>) -> bool {
        &&& post.version == pre.version
        &&& post.created == pre.created
        &&& post.last_modified@ == now
        &&& post.commands == pre.commands
        &&& post.asset_types == pre.asset_types
        &&& post.principles == pre.principles
        &&& post.asset_references == pre.asset_references
    }

    /// Everything but the asset types is unchanged between `pre` and `post`.
    pub open spec fn same_but_asset_types(pre: Self, post: Self, now: Seq<char>) -> bool {
        &&& post.version == pre.version
        &&& post.created == pre.created
        &&& post.last_modified@ == now
        &&& post.commands == pre.commands
        &&& post.entities == pre.entities
        &&& post.principles == pre.principles
        &&& post.asset_references == pre.asset_references
    }

    /// Everything but the asset references is unchanged.
    pub open spec fn same_but_assets(pre: Self, post: Self, now: Seq<char>) -> bool {
        &&& post.version == pre.version
        &&& post.created == pre.created
        &&& post.last_modified@ == now
        &&& post.commands == pre.commands
        &&& post.entities == pre.entities
        &&& post.principles == pre.principles
        &&& post.asset_types == pre.asset_types
    }

    /// Everything but the command verbs is unchanged.
    pub open spec fn same_but_commands(pre: Self, post: Self, now: Seq<char>) -> bool {
        &&& post.version == pre.version
        &&& post.created == pre.created
        &&& post.last_modified@ == now
        &&& post.asset_types == pre.asset_types
        &&& post.entities == pre.entities
        &&& post.principles == pre.principles
        &&& post.asset_references == pre.asset_references
    }
}

/// A successful `add_principle`: one principle appended, carrying the
/// given fields, everything else untouched.
pub open spec fn principle_added(
    pre: JsonStorage,
    post: JsonStorage,
    name: Seq<char>,
    long: Seq<char>,
    guidance: Option<Seq<char>>,
    now: Seq<char>,
) -> bool {
    &&& post.principles@.len() == pre.principles@.len() + 1
    &&& post.principles@.drop_last() == pre.principles@
    &&& post.principles@.last().short_name@ == name
    &&& post.principles@.last().long_name@ == long
    &&& opt_view(post.principles@.last().guidance) == guidance
    &&& post.principles@.last().last_modified@ == now
    &&& JsonStorage::same_but_principles(pre, post, now)
}

/// A successful `add_entity`.
pub open spec fn entity_added(
    pre: JsonStorage,
    post: JsonStorage,
    name: Seq<char>,
    description: Seq<char>,
    now: Seq<char>,
) -> bool {
    &&& post.entities@.len() == pre.entities@.len() + 1
    &&& post.entities@.drop_last() == pre.entities@
    &&& post.entities@.last().short_name@ == name
    &&& post.entities@.last().description@ == description
    &&& post.entities@.last().last_modified@ == now
    &&& JsonStorage::same_but_entities(pre, post, now)
}

/// A successful `add_asset_type`.
pub open spec fn asset_type_added(
    pre: JsonStorage,
    post: JsonStorage,
    name: Seq<char>,
    description: Seq<char>,
    now: Seq<char>,
) -> bool {
    &&& post.asset_types@.len() == pre.asset_types@.len() + 1
    &&& post.asset_types@.drop_last() == pre.asset_types@
    &&& post.asset_types@.last().short_name@ == name
    &&& post.asset_types@.last().description@ == description
    &&& post.asset_types@.last().last_modified@ == now
    &&& JsonStorage::same_but_asset_types(pre, post, now)
}

/// A successful `add_asset_reference`: the new asset starts with
/// `exemplar` off and no reviews.
pub open spec fn asset_added(
    pre: JsonStorage,
    post: JsonStorage,
    name: Seq<char>,
    entity: Seq<char>,
    asset_type: Seq<char>,
    path: Seq<char>,
    now: Seq<char>,
) -> bool {
    &&& post.asset_references@.len() == pre.asset_references@.len() + 1
    &&& post.asset_references@.drop_last() == pre.asset_references@
    &&& post.asset_references@.last().short_name@ == name
    &&& post.asset_references@.last().entity@ == entity
    &&& post.asset_references@.last().asset_type@ == asset_type
    &&& post.asset_references@.last().path@ == path
    &&& post.asset_references@.last().exemplar == false
    &&& post.asset_references@.last().principle_reviews@.len() == 0
    &&& post.asset_references@.last().last_modified@ == now
    &&& JsonStorage::same_but_assets(pre, post, now)
}

/// A successful `add_command`: one verb appended under its
/// colon-stripped name, marked user-defined.
pub open spec fn command_added(
    pre: JsonStorage,
    post: JsonStorage,
    name: Seq<char>,
    description: Seq<char>,
    now: Seq<char>,
) -> bool {
    &&& post.commands@.len() == pre.commands@.len() + 1
    &&& post.commands@.drop_last() == pre.commands@
    &&& post.commands@.last().name@ == strip_lead(name, ':')
    &&& post.commands@.last().description@ == description
    &&& post.commands@.last().last_modified@ == now
    &&& post.commands@.last().original_name is None
    &&& post.commands@.last().built_in == false
    &&& JsonStorage::same_but_commands(pre, post, now)
}

/// How one command record changes under a rename of `o` to `n`: the
/// record named `o` takes the new name (a built-in records its original
/// name the first time), every other record is untouched.
pub open spec fn command_rename_entry(
    c: CommandConfig,
    d: CommandConfig,
    o: Seq<char>,
    n: Seq<char>,
    now: Seq<char>,
) -> bool {
    if c.name@ == o {
        &&& d.name@ == n
        &&& d.description == c.description
        &&& d.built_in == c.built_in
        &&& d.last_modified@ == now
        &&& opt_view(d.original_name) == (if c.built_in && c.original_name is None {
            Some(o)
        } else {
            opt_view(c.original_name)
        })
    } else {
        d == c
    }
}

/// A successful `rename_command`.
pub open spec fn command_renamed(
    pre: JsonStorage,
    post: JsonStorage,
    o: Seq<char>,
    n: Seq<char>,
    now: Seq<char>,
) -> bool {
    &&& post.commands@.len() == pre.commands@.len()
    &&& forall|i: int|
        0 <= i < pre.commands@.len() ==> command_rename_entry(
            pre.commands@[i],
            #[trigger] post.commands@[i],
            o,
            n,
            now,
        )
    &&& JsonStorage::same_but_commands(pre, post, now)
}

/// A successful `set_asset_exemplar`: the named asset's flag takes the
/// given value, everything else about it is kept.
pub open spec fn exemplar_set(
    pre: JsonStorage,
    post: JsonStorage,
    asset: Seq<char>,
    status: bool,
    now: Seq<char>,
) -> bool {
    &&& post.asset_references@.len() == pre.asset_references@.len()
    &&& forall|i: int|
        0 <= i < pre.asset_references@.len() ==> {
            let oa = pre.asset_references@[i];
            let na = #[trigger] post.asset_references@[i];
            if oa.short_name@ == asset {
                &&& na.short_name == oa.short_name
                &&& na.entity == oa.entity
                &&& na.asset_type == oa.asset_type
                &&& na.path == oa.path
                &&& na.exemplar == status
                &&& na.principle_reviews == oa.principle_reviews
                &&& na.last_modified@ == now
            } else {
                na == oa
            }
        }
    &&& JsonStorage::same_but_assets(pre, post, now)
}

/// `r` is one of the three compliance ratings.
pub open spec fn valid_rating(r: Seq<char>) -> bool {
    r == "H"@ || r == "M"@ || r == "L"@
}

/// An optional rating is either absent or valid.
pub open spec fn opt_rating_ok(o: Option<Seq<char>>) -> bool {
    match o {
        Some(r) => valid_rating(r),
        None => true,
    }
}

/// `rv` holds exactly the given rating, analysis and stamp.
pub open spec fn review_matches(
    rv: Review,
    rating: Option<Seq<char>>,
    analysis: Seq<char>,
    now: Seq<char>,
) -> bool {
    &&& opt_view(rv.rating) == rating
    &&& opt_view(rv.analysis) == Some(analysis)
    &&& rv.last_modified@ == now
}

/// How a review map changes when a review is stored under `principle`:
/// an existing entry is overwritten in place (the stored key is kept),
/// otherwise a new entry is appended.
pub open spec fn reviews_after_store(
    oldr: Seq<(String, Review)>,
    newr: Seq<(String, Review)>,
    principle: Seq<char>,
    rating: Option<Seq<char>>,
    analysis: Seq<char>,
    now: Seq<char>,
) -> bool {
    if exists|j: int| 0 <= j < oldr.len() && (#[trigger] oldr[j].0@) == principle {
        &&& newr.len() == oldr.len()
        &&& forall|j: int|
            0 <= j < oldr.len() ==> {
                if oldr[j].0@ == principle {
                    (#[trigger] newr[j]).0 == oldr[j].0 && review_matches(
                        newr[j].1,
                        rating,
                        analysis,
                        now,
                    )
                } else {
                    newr[j] == oldr[j]
                }
            }
    } else {
        &&& newr.len() == oldr.len() + 1
        &&& newr.drop_last() == oldr
        &&& newr.last().0@ == principle
        &&& review_matches(newr.last().1, rating, analysis, now)
    }
}

/// A successful `store_asset_review`.
pub open spec fn review_stored(
    pre: JsonStorage,
    post: JsonStorage,
    asset: Seq<char>,
    principle: Seq<char>,
    rating: Option<Seq<char>>,
    analysis: Seq<char>,
    now: Seq<char>,
) -> bool {
    &&& post.asset_references@.len() == pre.asset_references@.len()
    &&& forall|i: int|
        0 <= i < pre.asset_references@.len() ==> {
            let oa = pre.asset_references@[i];
            let na = #[trigger] post.asset_references@[i];
            if oa.short_name@ == asset {
                &&& na.short_name == oa.short_name
                &&& na.entity == oa.entity
                &&& na.asset_type == oa.asset_type
                &&& na.path == oa.path
                &&& na.exemplar == oa.exemplar
                &&& na.last_modified@ == now
                &&& reviews_after_store(
                    oa.principle_reviews@,
                    na.principle_reviews@,
                    principle,
                    rating,
                    analysis,
                    now,
                )
            } else {
                na == oa
            }
        }
    &&& JsonStorage::same_but_assets(pre, post, now)
}

/// How one asset's review map changes when principle `o` is renamed to
/// `n`: the entry keyed `o` takes key `n` with its review kept in place;
/// everything else about the asset, its stamp included, is untouched.
pub open spec fn asset_reviews_renamed(
    oa: AssetReference,
    na: AssetReference,
    o: Seq<char>,
    n: Seq<char>,
) -> bool {
    &&& na.short_name == oa.short_name
    &&& na.entity == oa.entity
    &&& na.asset_type == oa.asset_type
    &&& na.path == oa.path
    &&& na.exemplar == oa.exemplar
    &&& na.last_modified == oa.last_modified
    &&& na.principle_reviews@.len() == oa.principle_reviews@.len()
    &&& forall|j: int|
        0 <= j < oa.principle_reviews@.len() ==> {
            let opr = oa.principle_reviews@[j];
            let npr = #[trigger] na.principle_reviews@[j];
            if opr.0@ == o {
                npr.0@ == n && npr.1 == opr.1
            } else {
                npr == opr
            }
        }
}

/// A successful `rename_principle`: the principle record takes the new
/// name, and the key cascades through every asset's review map.
pub open spec fn principle_renamed(
    pre: JsonStorage,
    post: JsonStorage,
    o: Seq<char>,
    n: Seq<char>,
    now: Seq<char>,
) -> bool {
    &&& post.principles@.len() == pre.principles@.len()
    &&& forall|i: int|
        0 <= i < pre.principles@.len() ==> {
            let op = pre.principles@[i];
            let np = #[trigger] post.principles@[i];
            if op.short_name@ == o {
                np.short_name@ == n && np.long_name == op.long_name && np.guidance == op.guidance
                    && np.last_modified@ == now
            } else {
                np == op
            }
        }
    &&& post.asset_references@.len() == pre.asset_references@.len()
    &&& forall|k: int|
        0 <= k < pre.asset_references@.len() ==> asset_reviews_renamed(
            pre.asset_references@[k],
            #[trigger] post.asset_references@[k],
            o,
            n,
        )
    &&& post.version == pre.version
    &&& post.created == pre.created
    &&& post.last_modified@ == now
    &&& post.commands == pre.commands
    &&& post.entities == pre.entities
    &&& post.asset_types == pre.asset_types
}

/// How one asset changes when entity `o` is renamed to `n`: an asset
/// pointing at `o` is retargeted and restamped, any other is untouched.
pub open spec fn entity_retargeted(
    oa: AssetReference,
    na: AssetReference,
    o: Seq<char>,
    n: Seq<char>,
    now: Seq<char>,
) -> bool {
    if oa.entity@ == o {
        &&& na.short_name == oa.short_name
        &&& na.entity@ == n
        &&& na.asset_type == oa.asset_type
        &&& na.path == oa.path
        &&& na.exemplar == oa.exemplar
        &&& na.principle_reviews == oa.principle_reviews
        &&& na.last_modified@ == now
    } else {
        na == oa
    }
}

/// A successful `rename_entity`.
pub open spec fn entity_renamed(
    pre: JsonStorage,
    post: JsonStorage,
    o: Seq<char>,
    n: Seq<char>,
    now: Seq<char>,
) -> bool {
    &&& post.entities@.len() == pre.entities@.len()
    &&& forall|i: int|
        0 <= i < pre.entities@.len() ==> {
            let oe = pre.entities@[i];
            let ne = #[trigger] post.entities@[i];
            if oe.short_name@ == o {
                ne.short_name@ == n && ne.description == oe.description && ne.last_modified@ == now
            } else {
                ne == oe
            }
        }
    &&& post.asset_references@.len() == pre.asset_references@.len()
    &&& forall|k: int|
        0 <= k < pre.asset_references@.len() ==> entity_retargeted(
            pre.asset_references@[k],
            #[trigger] post.asset_references@[k],
            o,
            n,
            now,
        )
    &&& post.version == pre.version
    &&& post.created == pre.created
    &&& post.last_modified@ == now
    &&& post.commands == pre.commands
    &&& post.principles == pre.principles
    &&& post.asset_types == pre.asset_types
}

/// How one asset changes when asset type `o` is renamed to `n`.
pub open spec fn type_retargeted(
    oa: AssetReference,
    na: AssetReference,
    o: Seq<char>,
    n: Seq<char>,
    now: Seq<char>,
) -> bool {
    if oa.asset_type@ == o {
        &&& na.short_name == oa.short_name
        &&& na.entity == oa.entity
        &&& na.asset_type@ == n
        &&& na.path == oa.path
        &&& na.exemplar == oa.exemplar
        &&& na.principle_reviews == oa.principle_reviews
        &&& na.last_modified@ == now
    } else {
        na == oa
    }
}

/// A successful `rename_asset_type`.
pub open spec fn asset_type_renamed(
    pre: JsonStorage,
    post: JsonStorage,
    o: Seq<char>,
    n: Seq<char>,
    now: Seq<char>,
) -> bool {
    &&& post.asset_types@.len() == pre.asset_types@.len()
    &&& forall|i: int|
        0 <= i < pre.asset_types@.len() ==> {
            let ot = pre.asset_types@[i];
            let nt = #[trigger] post.asset_types@[i];
            if ot.short_name@ == o {
                nt.short_name@ == n && nt.description == ot.description && nt.last_modified@ == now
            } else {
                nt == ot
            }
        }
    &&& post.asset_references@.len() == pre.asset_references@.len()
    &&& forall|k: int|
        0 <= k < pre.asset_references@.len() ==> type_retargeted(
            pre.asset_references@[k],
            #[trigger] post.asset_references@[k],
            o,
            n,
            now,
        )
    &&& post.version == pre.version
    &&& post.created == pre.created
    &&& post.last_modified@ == now
    &&& post.commands == pre.commands
    &&& post.principles == pre.principles
    &&& post.entities == pre.entities
}

/// A successful `rename_asset_reference`: no cascade, only the record
/// itself changes.
pub open spec fn asset_renamed(
    pre: JsonStorage,
    post: JsonStorage,
    o: Seq<char>,
    n: Seq<char>,
    now: Seq<char>,
) -> bool {
    &&& post.asset_references@.len() == pre.asset_references@.len()
    &&& forall|i: int|
        0 <= i < pre.asset_references@.len() ==> {
            let oa = pre.asset_references@[i];
            let na = #[trigger] post.asset_references@[i];
            if oa.short_name@ == o {
                &&& na.short_name@ == n
                &&& na.entity == oa.entity
                &&& na.asset_type == oa.asset_type
                &&& na.path == oa.path
                &&& na.exemplar == oa.exemplar
                &&& na.principle_reviews == oa.principle_reviews
                &&& na.last_modified@ == now
            } else {
                na == oa
            }
        }
    &&& JsonStorage::same_but_assets(pre, post, now)
}

/// How one asset's review map changes when principle `p` is deleted: the
/// entry keyed `p` is removed, everything else about the asset is kept.
pub open spec fn reviews_key_removed(oa: AssetReference, na: AssetReference, p: Seq<char>) -> bool {
    &&& na.short_name == oa.short_name
    &&& na.entity == oa.entity
    &&& na.asset_type == oa.asset_type
    &&& na.path == oa.path
    &&& na.exemplar == oa.exemplar
    &&& na.last_modified == oa.last_modified
    &&& if has_review(oa, p) {
        exists|j: int|
            0 <= j < oa.principle_reviews@.len() && (#[trigger] oa.principle_reviews@[j].0@) == p
                && na.principle_reviews@ == oa.principle_reviews@.remove(j)
    } else {
        na == oa
    }
}

/// A successful `delete_principle`: the record is removed and its key is
/// removed from every asset's review map.
pub open spec fn principle_deleted(
    pre: JsonStorage,
    post: JsonStorage,
    name: Seq<char>,
    now: Seq<char>,
) -> bool {
    &&& exists|i: int|
        0 <= i < pre.principles@.len() && (#[trigger] pre.principles@[i].short_name@) == name
            && post.principles@ == pre.principles@.remove(i)
    &&& post.asset_references@.len() == pre.asset_references@.len()
    &&& forall|k: int|
        0 <= k < pre.asset_references@.len() ==> reviews_key_removed(
            pre.asset_references@[k],
            #[trigger] post.asset_references@[k],
            name,
        )
    &&& post.version == pre.version
    &&& post.created == pre.created
    &&& post.last_modified@ == now
    &&& post.commands == pre.commands
    &&& post.entities == pre.entities
    &&& post.asset_types == pre.asset_types
}

/// A successful `delete_entity`: only the entity record goes away.
pub open spec fn entity_deleted(
    pre: JsonStorage,
    post: JsonStorage,
    name: Seq<char>,
    now: Seq<char>,
) -> bool {
    &&& exists|i: int|
        0 <= i < pre.entities@.len() && (#[trigger] pre.entities@[i].short_name@) == name
            && post.entities@ == pre.entities@.remove(i)
    &&& JsonStorage::same_but_entities(pre, post, now)
}

/// A successful `delete_asset_type`.
pub open spec fn asset_type_deleted(
    pre: JsonStorage,
    post: JsonStorage,
    name: Seq<char>,
    now: Seq<char>,
) -> bool {
    &&& exists|i: int|
        0 <= i < pre.asset_types@.len() && (#[trigger] pre.asset_types@[i].short_name@) == name
            && post.asset_types@ == pre.asset_types@.remove(i)
    &&& JsonStorage::same_but_asset_types(pre, post, now)
}

/// A successful `delete_asset_reference`: the asset and all its reviews
/// go away with it.
pub open spec fn asset_deleted(
    pre: JsonStorage,
    post: JsonStorage,
    name: Seq<char>,
    now: Seq<char>,
) -> bool {
    &&& exists|i: int|
        0 <= i < pre.asset_references@.len() && (
        #[trigger] pre.asset_references@[i].short_name@) == name && post.asset_references@
            == pre.asset_references@.remove(i)
    &&& JsonStorage::same_but_assets(pre, post, now)
}

/// Some asset references entity `n`.
pub open spec fn uses_entity(assets: Seq<AssetReference>, n: Seq<char>) -> bool {
    exists|k: int| 0 <= k < assets.len() && (#[trigger] assets[k].entity@) == n
}

/// Some asset references asset type `n`.
pub open spec fn uses_type(assets: Seq<AssetReference>, n: Seq<char>) -> bool {
    exists|k: int| 0 <= k < assets.len() && (#[trigger] assets[k].asset_type@) == n
}

/// The short names of the assets referencing entity `n`, in stored order.
pub open spec fn entity_users(assets: Seq<AssetReference>, n: Seq<char>) -> Seq<Seq<char>>
    decreases assets.len(),
{
    if assets.len() == 0 {
        Seq::empty()
    } else {
        let rest = entity_users(assets.drop_last(), n);
        if assets.last().entity@ == n {
            rest.push(assets.last().short_name@)
        } else {
            rest
        }
    }
}

/// The short names of the assets referencing asset type `n`.
pub open spec fn type_users(assets: Seq<AssetReference>, n: Seq<char>) -> Seq<Seq<char>>
    decreases assets.len(),
{
    if assets.len() == 0 {
        Seq::empty()
    } else {
        let rest = type_users(assets.drop_last(), n);
        if assets.last().asset_type@ == n {
            rest.push(assets.last().short_name@)
        } else {
            rest
        }
    }
}

/// The blocking list for an entity is empty exactly when no asset
/// references the entity.
pub proof fn lemma_entity_users_empty(assets: Seq<AssetReference>, n: Seq<char>)
    ensures
        entity_users(assets, n).len() == 0 <==> !uses_entity(assets, n),
    decreases assets.len(),
{
    if assets.len() > 0 {
        lemma_entity_users_empty(assets.drop_last(), n);
        assert(forall|k: int|
            0 <= k < assets.len() - 1 ==> assets[k] == assets.drop_last()[k]);
        if entity_users(assets, n).len() == 0 {
            assert(assets.last().entity@ != n);
        }
        if uses_entity(assets, n) {
            let k = choose|k: int| 0 <= k < assets.len() && (#[trigger] assets[k].entity@) == n;
            if k < assets.len() - 1 {
                assert(uses_entity(assets.drop_last(), n));
            }
        }
    }
}

/// The blocking list for an asset type is empty exactly when no asset
/// references the type.
pub proof fn lemma_type_users_empty(assets: Seq<AssetReference>, n: Seq<char>)
    ensures
        type_users(assets, n).len() == 0 <==> !uses_type(assets, n),
    decreases assets.len(),
{
    if assets.len() > 0 {
        lemma_type_users_empty(assets.drop_last(), n);
        assert(forall|k: int|
            0 <= k < assets.len() - 1 ==> assets[k] == assets.drop_last()[k]);
        if type_users(assets, n).len() == 0 {
            assert(assets.last().asset_type@ != n);
        }
        if uses_type(assets, n) {
            let k = choose|k: int| 0 <= k < assets.len() && (#[trigger] assets[k].asset_type@) == n;
            if k < assets.len() - 1 {
                assert(uses_type(assets.drop_last(), n));
            }
        }
    }
}

/// A copy of an optional string.
fn clone_opt_string(o: &Option<String>) -> (out: Option<String>)
    ensures
        out == *o,
{
    match o {
        Some(s) => Some(s.clone()),
        None => None,
    }
}

/// A copy of a review.
pub fn clone_review(r: &Review) -> (out: Review)
    ensures
        out == *r,
{
    Review {
        rating: clone_opt_string(&r.rating),
        analysis: clone_opt_string(&r.analysis),
        last_modified: r.last_modified.clone(),
    }
}

/// A copy of a principle record.
pub fn clone_principle(p: &Principle) -> (out: Principle)
    ensures
        out == *p,
{
    Principle {
        short_name: p.short_name.clone(),
        long_name: p.long_name.clone(),
        guidance: clone_opt_string(&p.guidance),
        last_modified: p.last_modified.clone(),
    }
}

/// A copy of an entity record.
pub fn clone_entity(e: &Entity) -> (out: Entity)
    ensures
        out == *e,
{
    Entity {
        short_name: e.short_name.clone(),
        description: e.description.clone(),
        last_modified: e.last_modified.clone(),
    }
}

/// A copy of an asset type record.
pub fn clone_asset_type(t: &AssetType) -> (out: AssetType)
    ensures
        out == *t,
{
    AssetType {
        short_name: t.short_name.clone(),
        description: t.description.clone(),
        last_modified: t.last_modified.clone(),
    }
}

/// Two asset references carry the same content (their review vectors may
/// be distinct allocations holding equal entries).
pub open spec fn same_asset(a: AssetReference, b: AssetReference) -> bool {
    &&& a.short_name == b.short_name
    &&& a.entity == b.entity
    &&& a.asset_type == b.asset_type
    &&& a.path == b.path
    &&& a.last_modified == b.last_modified
    &&& a.exemplar == b.exemplar
    &&& a.principle_reviews@ == b.principle_reviews@
}

/// A copy of an asset reference, reviews included.
pub fn clone_asset(a: &AssetReference) -> (out: AssetReference)
    ensures
        same_asset(out, *a),
{
    let mut prs: Vec<(String, Review)> = Vec::new();
    let mut i: usize = 0;
    while i < a.principle_reviews.len()
        invariant
            i <= a.principle_reviews@.len(),
            prs@ == a.principle_reviews@.subrange(0, i as int),
        decreases a.principle_reviews@.len() - i,
    {
        let pair = &a.principle_reviews[i];
        prs.push((pair.0.clone(), clone_review(&pair.1)));
        proof {
            assert(prs@ =~= a.principle_reviews@.subrange(0, i + 1));
        }
        i += 1;
    }
    proof {
        assert(prs@ =~= a.principle_reviews@);
    }
    AssetReference {
        short_name: a.short_name.clone(),
        entity: a.entity.clone(),
        asset_type: a.asset_type.clone(),
        path: a.path.clone(),
        last_modified: a.last_modified.clone(),
        exemplar: a.exemplar,
        principle_reviews: prs,
    }
}

/// Whether `a` carries a review under key `p`.
pub fn asset_has_review(a: &AssetReference, p: &str) -> (r: bool)
    ensures
        r == has_review(*a, p@),
{
    let mut j: usize = 0;
    while j < a.principle_reviews.len()
        invariant
            j <= a.principle_reviews@.len(),
            forall|k: int| 0 <= k < j ==> (#[trigger] a.principle_reviews@[k].0@) != p@,
        decreases a.principle_reviews@.len() - j,
    {
        if str_eq(a.principle_reviews[j].0.as_str(), p) {
            return true;
        }
        j += 1;
    }
    false
}

/// The short names of the assets holding a review under key `p`.
pub open spec fn review_holders(assets: Seq<AssetReference>, p: Seq<char>) -> Seq<Seq<char>>
    decreases assets.len(),
{
    if assets.len() == 0 {
        Seq::empty()
    } else {
        let rest = review_holders(assets.drop_last(), p);
        if has_review(assets.last(), p) {
            rest.push(assets.last().short_name@)
        } else {
            rest
        }
    }
}

/// The short names of the assets holding a review under key `p`, as
/// owned strings.
pub fn review_holder_names(assets: &Vec<AssetReference>, p: &str) -> (out: Vec<String>)
    ensures
        crate::errors::str_views(out@) == review_holders(assets@, p@),
{
    let mut out: Vec<String> = Vec::new();
    let mut k: usize = 0;
    while k < assets.len()
        invariant
            k <= assets@.len(),
            crate::errors::str_views(out@) == review_holders(assets@.subrange(0, k as int), p@),
        decreases assets@.len() - k,
    {
        proof {
            let pre = assets@.subrange(0, k as int);
            let cur = assets@.subrange(0, k + 1);
            assert(cur.drop_last() =~= pre);
            assert(cur.last() == assets@[k as int]);
        }
        if asset_has_review(&assets[k], p) {
            out.push(assets[k].short_name.clone());
            proof {
                assert(crate::errors::str_views(out@) =~= crate::errors::str_views(
                    out@.drop_last(),
                ).push(out@.last()@));
            }
        }
        k += 1;
    }
    proof {
        assert(assets@.subrange(0, assets@.len() as int) =~= assets@);
    }
    out
}

/// Rename review key `o` to `n` inside one asset; the review value and
/// its position are kept.
fn rename_key_in_asset(a: &mut AssetReference, o: &str, n: &str)
    requires
        review_keys_unique(*old(a)),
    ensures
        asset_reviews_renamed(*old(a), *final(a), o@, n@),
{
    let mut j: usize = 0;
    let mut found: Option<usize> = None;
    while j < a.principle_reviews.len() && found.is_none()
        invariant
            *a == *old(a),
            j <= a.principle_reviews@.len(),
            match found {
                Some(f) => f < a.principle_reviews@.len() && a.principle_reviews@[f as int].0@
                    == o@,
                None => forall|k: int|
                    0 <= k < j ==> (#[trigger] a.principle_reviews@[k].0@) != o@,
            },
        decreases a.principle_reviews@.len() - j + (if found.is_none() {
            1int
        } else {
            0int
        }),
    {
        if str_eq(a.principle_reviews[j].0.as_str(), o) {
            found = Some(j);
        } else {
            j += 1;
        }
    }
    match found {
        Some(f) => {
            let rv = clone_review(&a.principle_reviews[f].1);
            crate::strutil::vec_set(&mut a.principle_reviews, f, (n.to_owned(), rv));
        },
        None => {},
    }
}

/// Rename review key `o` to `n` in every asset.
fn cascade_rename_reviews(assets: &mut Vec<AssetReference>, o: &str, n: &str)
    requires
        forall|k: int|
            0 <= k < old(assets)@.len() ==> review_keys_unique(#[trigger] old(assets)@[k]),
    ensures
        final(assets)@.len() == old(assets)@.len(),
        forall|k: int|
            0 <= k < old(assets)@.len() ==> asset_reviews_renamed(
                old(assets)@[k],
                #[trigger] final(assets)@[k],
                o@,
                n@,
            ),
{
    let mut k: usize = 0;
    while k < assets.len()
        invariant
            k <= assets@.len(),
            assets@.len() == old(assets)@.len(),
            forall|t: int|
                0 <= t < k ==> asset_reviews_renamed(
                    old(assets)@[t],
                    #[trigger] assets@[t],
                    o@,
                    n@,
                ),
            forall|t: int| k <= t < assets@.len() ==> assets@[t] == old(assets)@[t],
            forall|t: int|
                0 <= t < old(assets)@.len() ==> review_keys_unique(#[trigger] old(assets)@[t]),
        decreases assets@.len() - k,
    {
        let a = &mut assets[k];
        rename_key_in_asset(a, o, n);
        k += 1;
    }
}

/// Remove the review keyed `p` from one asset, if present.
fn remove_key_in_asset(a: &mut AssetReference, p: &str)
    ensures
        reviews_key_removed(*old(a), *final(a), p@),
{
    let mut j: usize = 0;
    let mut found: Option<usize> = None;
    while j < a.principle_reviews.len() && found.is_none()
        invariant
            *a == *old(a),
            j <= a.principle_reviews@.len(),
            match found {
                Some(f) => f < a.principle_reviews@.len() && a.principle_reviews@[f as int].0@
                    == p@,
                None => forall|k: int|
                    0 <= k < j ==> (#[trigger] a.principle_reviews@[k].0@) != p@,
            },
        decreases a.principle_reviews@.len() - j + (if found.is_none() {
            1int
        } else {
            0int
        }),
    {
        if str_eq(a.principle_reviews[j].0.as_str(), p) {
            found = Some(j);
        } else {
            j += 1;
        }
    }
    match found {
        Some(f) => {
            a.principle_reviews.remove(f);
        },
        None => {},
    }
}

/// Remove the review keyed `p` from every asset.
fn cascade_remove_reviews(assets: &mut Vec<AssetReference>, p: &str)
    ensures
        final(assets)@.len() == old(assets)@.len(),
        forall|k: int|
            0 <= k < old(assets)@.len() ==> reviews_key_removed(
                old(assets)@[k],
                #[trigger] final(assets)@[k],
                p@,
            ),
{
    let mut k: usize = 0;
    while k < assets.len()
        invariant
            k <= assets@.len(),
            assets@.len() == old(assets)@.len(),
            forall|t: int|
                0 <= t < k ==> reviews_key_removed(old(assets)@[t], #[trigger] assets@[t], p@),
            forall|t: int| k <= t < assets@.len() ==> assets@[t] == old(assets)@[t],
        decreases assets@.len() - k,
    {
        let a = &mut assets[k];
        remove_key_in_asset(a, p);
        k += 1;
    }
}

/// Retarget one asset from entity `o` to `n`, restamping it.
fn retarget_entity(a: &mut AssetReference, o: &str, n: &str, now: &str)
    ensures
        entity_retargeted(*old(a), *final(a), o@, n@, now@),
{
    if str_eq(a.entity.as_str(), o) {
        a.entity = n.to_owned();
        a.last_modified = now.to_owned();
    }
}

/// Retarget every asset referencing entity `o` to `n`.
fn cascade_entity(assets: &mut Vec<AssetReference>, o: &str, n: &str, now: &str)
    ensures
        final(assets)@.len() == old(assets)@.len(),
        forall|k: int|
            0 <= k < old(assets)@.len() ==> entity_retargeted(
                old(assets)@[k],
                #[trigger] final(assets)@[k],
                o@,
                n@,
                now@,
            ),
{
    let mut k: usize = 0;
    while k < assets.len()
        invariant
            k <= assets@.len(),
            assets@.len() == old(assets)@.len(),
            forall|t: int|
                0 <= t < k ==> entity_retargeted(
                    old(assets)@[t],
                    #[trigger] assets@[t],
                    o@,
                    n@,
                    now@,
                ),
            forall|t: int| k <= t < assets@.len() ==> assets@[t] == old(assets)@[t],
        decreases assets@.len() - k,
    {
        let a = &mut assets[k];
        retarget_entity(a, o, n, now);
        k += 1;
    }
}

/// Retarget one asset from asset type `o` to `n`, restamping it.
fn retarget_type(a: &mut AssetReference, o: &str, n: &str, now: &str)
    ensures
        type_retargeted(*old(a), *final(a), o@, n@, now@),
{
    if str_eq(a.asset_type.as_str(), o) {
        a.asset_type = n.to_owned();
        a.last_modified = now.to_owned();
    }
}

/// Retarget every asset referencing asset type `o` to `n`.
fn cascade_type(assets: &mut Vec<AssetReference>, o: &str, n: &str, now: &str)
    ensures
        final(assets)@.len() == old(assets)@.len(),
        forall|k: int|
            0 <= k < old(assets)@.len() ==> type_retargeted(
                old(assets)@[k],
                #[trigger] final(assets)@[k],
                o@,
                n@,
                now@,
            ),
{
    let mut k: usize = 0;
    while k < assets.len()
        invariant
            k <= assets@.len(),
            assets@.len() == old(assets)@.len(),
            forall|t: int|
                0 <= t < k ==> type_retargeted(
                    old(assets)@[t],
                    #[trigger] assets@[t],
                    o@,
                    n@,
                    now@,
                ),
            forall|t: int| k <= t < assets@.len() ==> assets@[t] == old(assets)@[t],
        decreases assets@.len() - k,
    {
        let a = &mut assets[k];
        retarget_type(a, o, n, now);
        k += 1;
    }
}

/// The short names of the assets referencing entity `n`.
pub fn entity_user_names(assets: &Vec<AssetReference>, n: &str) -> (out: Vec<String>)
    ensures
        crate::errors::str_views(out@) == entity_users(assets@, n@),
{
    let mut out: Vec<String> = Vec::new();
    let mut k: usize = 0;
    while k < assets.len()
        invariant
            k <= assets@.len(),
            crate::errors::str_views(out@) == entity_users(assets@.subrange(0, k as int), n@),
        decreases assets@.len() - k,
    {
        proof {
            let pre = assets@.subrange(0, k as int);
            let cur = assets@.subrange(0, k + 1);
            assert(cur.drop_last() =~= pre);
            assert(cur.last() == assets@[k as int]);
        }
        if str_eq(assets[k].entity.as_str(), n) {
            out.push(assets[k].short_name.clone());
            proof {
                assert(crate::errors::str_views(out@) =~= crate::errors::str_views(
                    out@.drop_last(),
                ).push(out@.last()@));
            }
        }
        k += 1;
    }
    proof {
        assert(assets@.subrange(0, assets@.len() as int) =~= assets@);
    }
    out
}

/// The short names of the assets referencing asset type `n`.
pub fn type_user_names(assets: &Vec<AssetReference>, n: &str) -> (out: Vec<String>)
    ensures
        crate::errors::str_views(out@) == type_users(assets@, n@),
{
    let mut out: Vec<String> = Vec::new();
    let mut k: usize = 0;
    while k < assets.len()
        invariant
            k <= assets@.len(),
            crate::errors::str_views(out@) == type_users(assets@.subrange(0, k as int), n@),
        decreases assets@.len() - k,
    {
        proof {
            let pre = assets@.subrange(0, k as int);
            let cur = assets@.subrange(0, k + 1);
            assert(cur.drop_last() =~= pre);
            assert(cur.last() == assets@[k as int]);
        }
        if str_eq(assets[k].asset_type.as_str(), n) {
            out.push(assets[k].short_name.clone());
            proof {
                assert(crate::errors::str_views(out@) =~= crate::errors::str_views(
                    out@.drop_last(),
                ).push(out@.last()@));
            }
        }
        k += 1;
    }
    proof {
        assert(assets@.subrange(0, assets@.len() as int) =~= assets@);
    }
    out
}

impl JsonStorage {
    /// The short names of all principles, in stored order.
    pub open spec fn principle_names(self) -> Seq<Seq<char>> {
        self.principles@.map_values(|p: Principle| p.short_name@)
    }

    /// A fresh, empty registry stamped with `now`.
    pub fn new(now: &str) -> (st: JsonStorage)
        ensures
            st.wf(),
            st.version@ == "1.0.0"@,
            st.created@ == now@,
            st.last_modified@ == now@,
            st.commands@.len() == 0,
            st.asset_types@.len() == 0,
            st.entities@.len() == 0,
            st.principles@.len() == 0,
            st.asset_references@.len() == 0,
    {
        JsonStorage {
            version: "1.0.0".to_owned(),
            created: now.to_owned(),
            last_modified: now.to_owned(),
            commands: Vec::new(),
            asset_types: Vec::new(),
            entities: Vec::new(),
            principles: Vec::new(),
            asset_references: Vec::new(),
        }
    }

    /// The index of the principle named `name`, if any.
    fn find_principle(&self, name: &str) -> (r: Option<usize>)
        ensures
            match r {
                Some(i) => i < self.principles@.len() && self.principles@[i as int].short_name@
                    == name@,
                None => !self.has_principle(name@),
            },
    {
        let mut i: usize = 0;
        while i < self.principles.len()
            invariant
                i <= self.principles@.len(),
                forall|k: int| 0 <= k < i ==> (#[trigger] self.principles@[k].short_name@) != name@,
            decreases self.principles@.len() - i,
        {
            if str_eq(self.principles[i].short_name.as_str(), name) {
                return Some(i);
            }
            i += 1;
        }
        None
    }

    /// The index of the entity named `name`, if any.
    fn find_entity(&self, name: &str) -> (r: Option<usize>)
        ensures
            match r {
                Some(i) => i < self.entities@.len() && self.entities@[i as int].short_name@
                    == name@,
                None => !self.has_entity(name@),
            },
    {
        let mut i: usize = 0;
        while i < self.entities.len()
            invariant
                i <= self.entities@.len(),
                forall|k: int| 0 <= k < i ==> (#[trigger] self.entities@[k].short_name@) != name@,
            decreases self.entities@.len() - i,
        {
            if str_eq(self.entities[i].short_name.as_str(), name) {
                return Some(i);
            }
            i += 1;
        }
        None
    }

    /// The index of the asset type named `name`, if any.
    fn find_asset_type(&self, name: &str) -> (r: Option<usize>)
        ensures
            match r {
                Some(i) => i < self.asset_types@.len() && self.asset_types@[i as int].short_name@
                    == name@,
                None => !self.has_asset_type(name@),
            },
    {
        let mut i: usize = 0;
        while i < self.asset_types.len()
            invariant
                i <= self.asset_types@.len(),
                forall|k: int|
                    0 <= k < i ==> (#[trigger] self.asset_types@[k].short_name@) != name@,
            decreases self.asset_types@.len() - i,
        {
            if str_eq(self.asset_types[i].short_name.as_str(), name) {
                return Some(i);
            }
            i += 1;
        }
        None
    }

    /// The index of the asset reference named `name`, if any.
    fn find_asset(&self, name: &str) -> (r: Option<usize>)
        ensures
            match r {
                Some(i) => i < self.asset_references@.len() && self.asset_references@[
                    i as int
                ].short_name@ == name@,
                None => !self.has_asset(name@),
            },
    {
        let mut i: usize = 0;
        while i < self.asset_references.len()
            invariant
                i <= self.asset_references@.len(),
                forall|k: int|
                    0 <= k < i ==> (#[trigger] self.asset_references@[k].short_name@) != name@,
            decreases self.asset_references@.len() - i,
        {
            if str_eq(self.asset_references[i].short_name.as_str(), name) {
                return Some(i);
            }
            i += 1;
        }
        None
    }

    /// The index of the command verb stored as `name`, if any.
    fn find_command(&self, name: &str) -> (r: Option<usize>)
        ensures
            match r {
                Some(i) => i < self.commands@.len() && self.commands@[i as int].name@ == name@,
                None => !self.has_command(name@),
            },
    {
        let mut i: usize = 0;
        while i < self.commands.len()
            invariant
                i <= self.commands@.len(),
                forall|k: int| 0 <= k < i ==> (#[trigger] self.commands@[k].name@) != name@,
            decreases self.commands@.len() - i,
        {
            if str_eq(self.commands[i].name.as_str(), name) {
                return Some(i);
            }
            i += 1;
        }
        None
    }

    /// What kind of item holds `name`, looked up in the fixed priority
    /// order principle, entity, asset type, asset reference.
    pub fn find_item_type(&self, name: &str) -> (r: Option<ItemKind>)
        ensures
            match r {
                Some(k) => self.name_taken(name@) && k == self.taken_kind(name@),
                None => !self.name_taken(name@),
            },
    {
        if self.find_principle(name).is_some() {
            Some(ItemKind::Principle)
        } else if self.find_entity(name).is_some() {
            Some(ItemKind::Entity)
        } else if self.find_asset_type(name).is_some() {
            Some(ItemKind::AssetType)
        } else if self.find_asset(name).is_some() {
            Some(ItemKind::Asset)
        } else {
            None
        }
    }

    /// Nothing in the shared namespace holds `name` yet; otherwise the
    /// collision, naming the kind that holds it.
    pub fn check_name_availability(&self, name: &str) -> (r: Result<(), VqlError>)
        ensures
            match r {
                Ok(()) => !self.name_taken(name@),
                Err(e) => self.name_taken(name@) && crate::errors::is_collision(
                    e,
                    name@,
                    self.taken_kind(name@),
                ),
            },
    {
        match self.find_item_type(name) {
            None => Ok(()),
            Some(k) => Err(
                VqlError::NameCollision { name: name.to_owned(), existing_kind: k },
            ),
        }
    }

    /// Add a principle.  The short name must be a single character and
    /// free in the shared namespace.
    pub fn add_principle(
        &mut self,
        short_name: &str,
        long_name: &str,
        guidance: Option<&str>,
        now: &str,
    ) -> (r: Result<(), VqlError>)
        requires
            old(self).wf(),
        ensures
            final(self).wf(),
            match r {
                Ok(()) => !old(self).name_taken(short_name@) && short_name@.len() == 1
                    && principle_added(
                    *old(self),
                    *final(self),
                    short_name@,
                    long_name@,
                    opt_str_view(guidance),
                    now@,
                ),
                Err(e) => *final(self) == *old(self) && {
                    if short_name@.len() != 1 {
                        crate::errors::is_invalid_short_name(e, ItemKind::Principle, short_name@)
                    } else {
                        old(self).name_taken(short_name@) && crate::errors::is_collision(
                            e,
                            short_name@,
                            old(self).taken_kind(short_name@),
                        )
                    }
                },
            },
            r is Err <==> (short_name@.len() != 1 || old(self).name_taken(short_name@)),
    {
        if short_name.unicode_len() != 1 {
            return Err(
                VqlError::InvalidShortName {
                    kind: ItemKind::Principle,
                    name: short_name.to_owned(),
                },
            );
        }
        match self.check_name_availability(short_name) {
            Err(e) => Err(e),
            Ok(()) => {
                let g = match guidance {
                    Some(s) => Some(s.to_owned()),
                    None => None,
                };
                let p = Principle {
                    short_name: short_name.to_owned(),
                    long_name: long_name.to_owned(),
                    guidance: g,
                    last_modified: now.to_owned(),
                };
                self.principles.push(p);
                self.last_modified = now.to_owned();
                proof {
                    assert(self.principles@.drop_last() =~= old(self).principles@);
                    assert(forall|i: int|
                        0 <= i < old(self).principles@.len() ==> self.principles@[i] == old(
                            self,
                        ).principles@[i]);
                }
                Ok(())
            },
        }
    }

    /// Add an entity.  The short name has no length restriction but must
    /// be free in the shared namespace.
    pub fn add_entity(&mut self, short_name: &str, description: &str, now: &str) -> (r: Result<
        (),
        VqlError,
    >)
        requires
            old(self).wf(),
        ensures
            final(self).wf(),
            match r {
                Ok(()) => !old(self).name_taken(short_name@) && entity_added(
                    *old(self),
                    *final(self),
                    short_name@,
                    description@,
                    now@,
                ),
                Err(e) => *final(self) == *old(self) && old(self).name_taken(short_name@)
                    && crate::errors::is_collision(
                    e,
                    short_name@,
                    old(self).taken_kind(short_name@),
                ),
            },
            r is Err <==> old(self).name_taken(short_name@),
    {
        match self.check_name_availability(short_name) {
            Err(e) => Err(e),
            Ok(()) => {
                let ent = Entity {
                    short_name: short_name.to_owned(),
                    description: description.to_owned(),
                    last_modified: now.to_owned(),
                };
                self.entities.push(ent);
                self.last_modified = now.to_owned();
                proof {
                    assert(self.entities@.drop_last() =~= old(self).entities@);
                    assert(forall|i: int|
                        0 <= i < old(self).entities@.len() ==> self.entities@[i] == old(
                            self,
                        ).entities@[i]);
                }
                Ok(())
            },
        }
    }

    /// Add an asset type.  The short name must be a single character and
    /// free in the shared namespace.
    pub fn add_asset_type(&mut self, short_name: &str, description: &str, now: &str) -> (r: Result<
        (),
        VqlError,
    >)
        requires
            old(self).wf(),
        ensures
            final(self).wf(),
            match r {
                Ok(()) => !old(self).name_taken(short_name@) && short_name@.len() == 1
                    && asset_type_added(
                    *old(self),
                    *final(self),
                    short_name@,
                    description@,
                    now@,
                ),
                Err(e) => *final(self) == *old(self) && {
                    if short_name@.len() != 1 {
                        crate::errors::is_invalid_short_name(e, ItemKind::AssetType, short_name@)
                    } else {
                        old(self).name_taken(short_name@) && crate::errors::is_collision(
                            e,
                            short_name@,
                            old(self).taken_kind(short_name@),
                        )
                    }
                },
            },
            r is Err <==> (short_name@.len() != 1 || old(self).name_taken(short_name@)),
    {
        if short_name.unicode_len() != 1 {
            return Err(
                VqlError::InvalidShortName {
                    kind: ItemKind::AssetType,
                    name: short_name.to_owned(),
                },
            );
        }
        match self.check_name_availability(short_name) {
            Err(e) => Err(e),
            Ok(()) => {
                let at = AssetType {
                    short_name: short_name.to_owned(),
                    description: description.to_owned(),
                    last_modified: now.to_owned(),
                };
                self.asset_types.push(at);
                self.last_modified = now.to_owned();
                proof {
                    assert(self.asset_types@.drop_last() =~= old(self).asset_types@);
                    assert(forall|i: int|
                        0 <= i < old(self).asset_types@.len() ==> self.asset_types@[i] == old(
                            self,
                        ).asset_types@[i]);
                }
                Ok(())
            },
        }
    }

    /// Add an asset reference.  The name must be free; the entity and the
    /// asset type must exist.  The new asset starts as no exemplar, with
    /// no reviews.
    pub fn add_asset_reference(
        &mut self,
        short_name: &str,
        entity: &str,
        asset_type: &str,
        path: &str,
        now: &str,
    ) -> (r: Result<(), VqlError>)
        requires
            old(self).wf(),
        ensures
            final(self).wf(),
            match r {
                Ok(()) => !old(self).name_taken(short_name@) && old(self).has_entity(entity@)
                    && old(self).has_asset_type(asset_type@) && asset_added(
                    *old(self),
                    *final(self),
                    short_name@,
                    entity@,
                    asset_type@,
                    path@,
                    now@,
                ),
                Err(e) => *final(self) == *old(self) && {
                    if old(self).name_taken(short_name@) {
                        crate::errors::is_collision(
                            e,
                            short_name@,
                            old(self).taken_kind(short_name@),
                        )
                    } else if !old(self).has_entity(entity@) {
                        e matches VqlError::UnknownEntity { name } && name@ == entity@
                    } else {
                        !old(self).has_asset_type(asset_type@) && (e matches
                        VqlError::UnknownAssetType { name } && name@ == asset_type@)
                    }
                },
            },
            r is Err <==> (old(self).name_taken(short_name@) || !old(self).has_entity(entity@)
                || !old(self).has_asset_type(asset_type@)),
    {
        match self.check_name_availability(short_name) {
            Err(e) => {
                return Err(e);
            },
            Ok(()) => {},
        }
        if self.find_entity(entity).is_none() {
            return Err(VqlError::UnknownEntity { name: entity.to_owned() });
        }
        if self.find_asset_type(asset_type).is_none() {
            return Err(VqlError::UnknownAssetType { name: asset_type.to_owned() });
        }
        let a = AssetReference {
            short_name: short_name.to_owned(),
            entity: entity.to_owned(),
            asset_type: asset_type.to_owned(),
            path: path.to_owned(),
            last_modified: now.to_owned(),
            exemplar: false,
            principle_reviews: Vec::new(),
        };
        self.asset_references.push(a);
        self.last_modified = now.to_owned();
        proof {
            assert(self.asset_references@.drop_last() =~= old(self).asset_references@);
            assert(forall|i: int|
                0 <= i < old(self).asset_references@.len() ==> self.asset_references@[i] == old(
                    self,
                ).asset_references@[i]);
        }
        Ok(())
    }

    /// Register a command verb.  The name is stored without any leading
    /// colons; registering an existing verb fails.
    pub fn add_command(&mut self, name: &str, description: &str, now: &str) -> (r: Result<
        (),
        VqlError,
    >)
        requires
            old(self).wf(),
        ensures
            final(self).wf(),
            match r {
                Ok(()) => !old(self).has_command(strip_lead(name@, ':')) && command_added(
                    *old(self),
                    *final(self),
                    name@,
                    description@,
                    now@,
                ),
                Err(e) => *final(self) == *old(self) && (e matches VqlError::CommandExists {
                    name: en,
                } && en@ == strip_lead(name@, ':')),
            },
            r is Err <==> old(self).has_command(strip_lead(name@, ':')),
    {
        let nv = chars_of(name);
        let sv = strip_lead_vec(&nv, ':');
        let stripped = string_from(&sv);
        if self.find_command(stripped.as_str()).is_some() {
            return Err(VqlError::CommandExists { name: stripped });
        }
        let c = CommandConfig {
            name: stripped,
            description: description.to_owned(),
            last_modified: now.to_owned(),
            original_name: None,
            built_in: false,
        };
        self.commands.push(c);
        self.last_modified = now.to_owned();
        proof {
            assert(self.commands@.drop_last() =~= old(self).commands@);
            assert(forall|i: int|
                0 <= i < old(self).commands@.len() ==> self.commands@[i] == old(self).commands@[i]);
        }
        Ok(())
    }

    /// Rename a command verb.  Fails if the new name is taken or the old
    /// one is unknown; the first rename of a built-in records its
    /// original name.
    pub fn rename_command(&mut self, old_name: &str, new_name: &str, now: &str) -> (r: Result<
        (),
        VqlError,
    >)
        requires
            old(self).wf(),
        ensures
            final(self).wf(),
            match r {
                Ok(()) => old(self).has_command(strip_lead(old_name@, ':')) && !old(
                    self,
                ).has_command(strip_lead(new_name@, ':')) && command_renamed(
                    *old(self),
                    *final(self),
                    strip_lead(old_name@, ':'),
                    strip_lead(new_name@, ':'),
                    now@,
                ),
                Err(e) => *final(self) == *old(self) && {
                    if old(self).has_command(strip_lead(new_name@, ':')) {
                        e matches VqlError::CommandExists { name: en } && en@ == strip_lead(
                            new_name@,
                            ':',
                        )
                    } else {
                        !old(self).has_command(strip_lead(old_name@, ':')) && (e matches
                        VqlError::NotFound { kind, name: en } && kind == ItemKind::Command && en@
                            == strip_lead(old_name@, ':'))
                    }
                },
            },
            r is Err <==> (old(self).has_command(strip_lead(new_name@, ':')) || !old(
                self,
            ).has_command(strip_lead(old_name@, ':'))),
    {
        let ov = chars_of(old_name);
        let osv = strip_lead_vec(&ov, ':');
        let o = string_from(&osv);
        let nv = chars_of(new_name);
        let nsv = strip_lead_vec(&nv, ':');
        let n = string_from(&nsv);
        if self.find_command(n.as_str()).is_some() {
            return Err(VqlError::CommandExists { name: n });
        }
        let i = match self.find_command(o.as_str()) {
            Some(i) => i,
            None => {
                return Err(VqlError::NotFound { kind: ItemKind::Command, name: o });
            },
        };
        let c = &mut self.commands[i];
        if c.built_in && c.original_name.is_none() {
            c.original_name = Some(o);
        }
        c.name = n;
        c.last_modified = now.to_owned();
        self.last_modified = now.to_owned();
        proof {
            assert(forall|k: int|
                0 <= k < old(self).commands@.len() && k != i ==> self.commands@[k] == old(
                    self,
                ).commands@[k]);
            assert(forall|k: int|
                0 <= k < old(self).commands@.len() && k != i ==> (
                #[trigger] old(self).commands@[k].name@) != strip_lead(old_name@, ':'));
        }
        Ok(())
    }

    /// The command verb stored under the colon-stripped form of `name`.
    pub fn get_command(&self, name: &str) -> (r: Option<&CommandConfig>)
        ensures
            match r {
                Some(c) => self.has_command(strip_lead(name@, ':')) && c.name@ == strip_lead(
                    name@,
                    ':',
                ) && exists|i: int| 0 <= i < self.commands@.len() && self.commands@[i] == *c,
                None => !self.has_command(strip_lead(name@, ':')),
            },
    {
        let nv = chars_of(name);
        let sv = strip_lead_vec(&nv, ':');
        let stripped = string_from(&sv);
        match self.find_command(stripped.as_str()) {
            Some(i) => {
                proof {
                    let cs = self.commands@;
                    assert(cs[i as int] == cs[i as int]);
                }
                Some(&self.commands[i])
            },
            None => None,
        }
    }

    /// Whether a command verb exists under the colon-stripped form of
    /// `name`.
    pub fn command_exists(&self, name: &str) -> (r: bool)
        ensures
            r == self.has_command(strip_lead(name@, ':')),
    {
        let nv = chars_of(name);
        let sv = strip_lead_vec(&nv, ':');
        let stripped = string_from(&sv);
        self.find_command(stripped.as_str()).is_some()
    }

    /// Set the exemplar flag of an asset.
    pub fn set_asset_exemplar(&mut self, asset_name: &str, status: bool, now: &str) -> (r: Result<
        (),
        VqlError,
    >)
        requires
            old(self).wf(),
        ensures
            final(self).wf(),
            match r {
                Ok(()) => old(self).has_asset(asset_name@) && exemplar_set(
                    *old(self),
                    *final(self),
                    asset_name@,
                    status,
                    now@,
                ),
                Err(e) => *final(self) == *old(self) && crate::errors::is_not_found(
                    e,
                    ItemKind::Asset,
                    asset_name@,
                ),
            },
            r is Err <==> !old(self).has_asset(asset_name@),
    {
        let i = match self.find_asset(asset_name) {
            Some(i) => i,
            None => {
                return Err(VqlError::NotFound { kind: ItemKind::Asset, name: asset_name.to_owned() });
            },
        };
        let a = &mut self.asset_references[i];
        a.exemplar = status;
        a.last_modified = now.to_owned();
        self.last_modified = now.to_owned();
        proof {
            assert(forall|k: int|
                0 <= k < old(self).asset_references@.len() && k != i ==> self.asset_references@[k]
                    == old(self).asset_references@[k]);
            assert(forall|k: int|
                0 <= k < old(self).asset_references@.len() && k != i ==> (
                #[trigger] old(self).asset_references@[k].short_name@) != asset_name@);
        }
        Ok(())
    }

    /// The short names of all principles, as owned strings.
    pub fn principle_names_vec(&self) -> (out: Vec<String>)
        ensures
            crate::errors::str_views(out@) == self.principle_names(),
    {
        let mut out: Vec<String> = Vec::new();
        let mut i: usize = 0;
        while i < self.principles.len()
            invariant
                i <= self.principles@.len(),
                out@.len() == i,
                forall|k: int| 0 <= k < i ==> (#[trigger] out@[k]@) == self.principles@[k].short_name@,
            decreases self.principles@.len() - i,
        {
            out.push(self.principles[i].short_name.clone());
            i += 1;
        }
        proof {
            assert(crate::errors::str_views(out@) =~= self.principle_names());
        }
        out
    }

    /// Whether a principle named `name` exists.
    pub fn principle_exists(&self, name: &str) -> (r: bool)
        ensures
            r == self.has_principle(name@),
    {
        self.find_principle(name).is_some()
    }

    /// Whether an asset reference named `name` exists.
    pub fn asset_exists(&self, name: &str) -> (r: bool)
        ensures
            r == self.has_asset(name@),
    {
        self.find_asset(name).is_some()
    }

    /// The principle stored under `name`, if any.
    pub fn get_principle(&self, name: &str) -> (r: Option<&Principle>)
        requires
            self.wf(),
        ensures
            match r {
                Some(p) => self.has_principle(name@) && *p == self.principle_of(name@),
                None => !self.has_principle(name@),
            },
    {
        match self.find_principle(name) {
            Some(i) => {
                proof {
                    let c = choose|c: int|
                        0 <= c < self.principles@.len() && (
                        #[trigger] self.principles@[c].short_name@) == name@;
                    assert(c == i as int);
                }
                Some(&self.principles[i])
            },
            None => None,
        }
    }

    /// The asset reference stored under `name`, if any.
    pub fn get_asset(&self, name: &str) -> (r: Option<&AssetReference>)
        requires
            self.wf(),
        ensures
            match r {
                Some(a) => self.has_asset(name@) && *a == self.asset_of(name@),
                None => !self.has_asset(name@),
            },
    {
        match self.find_asset(name) {
            Some(i) => {
                proof {
                    let c = choose|c: int|
                        0 <= c < self.asset_references@.len() && (
                        #[trigger] self.asset_references@[c].short_name@) == name@;
                    assert(c == i as int);
                }
                Some(&self.asset_references[i])
            },
            None => None,
        }
    }

    /// The short names of all asset references, in stored order.
    pub open spec fn asset_names(self) -> Seq<Seq<char>> {
        self.asset_references@.map_values(|a: AssetReference| a.short_name@)
    }

    /// The short names of all asset references, as owned strings.
    pub fn asset_names_vec(&self) -> (out: Vec<String>)
        ensures
            crate::errors::str_views(out@) == self.asset_names(),
    {
        let mut out: Vec<String> = Vec::new();
        let mut i: usize = 0;
        while i < self.asset_references.len()
            invariant
                i <= self.asset_references@.len(),
                out@.len() == i,
                forall|k: int|
                    0 <= k < i ==> (#[trigger] out@[k]@)
                        == self.asset_references@[k].short_name@,
            decreases self.asset_references@.len() - i,
        {
            out.push(self.asset_references[i].short_name.clone());
            i += 1;
        }
        proof {
            assert(crate::errors::str_views(out@) =~= self.asset_names());
        }
        out
    }

    /// A copy of the principle records, in stored order.
    pub fn principles_snapshot(&self) -> (out: Vec<Principle>)
        ensures
            out@ == self.principles@,
    {
        let mut out: Vec<Principle> = Vec::new();
        let mut i: usize = 0;
        while i < self.principles.len()
            invariant
                i <= self.principles@.len(),
                out@ == self.principles@.subrange(0, i as int),
            decreases self.principles@.len() - i,
        {
            out.push(clone_principle(&self.principles[i]));
            proof {
                assert(out@ =~= self.principles@.subrange(0, i + 1));
            }
            i += 1;
        }
        proof {
            assert(out@ =~= self.principles@);
        }
        out
    }

    /// A copy of the entity records, in stored order.
    pub fn entities_snapshot(&self) -> (out: Vec<Entity>)
        ensures
            out@ == self.entities@,
    {
        let mut out: Vec<Entity> = Vec::new();
        let mut i: usize = 0;
        while i < self.entities.len()
            invariant
                i <= self.entities@.len(),
                out@ == self.entities@.subrange(0, i as int),
            decreases self.entities@.len() - i,
        {
            out.push(clone_entity(&self.entities[i]));
            proof {
                assert(out@ =~= self.entities@.subrange(0, i + 1));
            }
            i += 1;
        }
        proof {
            assert(out@ =~= self.entities@);
        }
        out
    }

    /// A copy of the asset type records, in stored order.
    pub fn asset_types_snapshot(&self) -> (out: Vec<AssetType>)
        ensures
            out@ == self.asset_types@,
    {
        let mut out: Vec<AssetType> = Vec::new();
        let mut i: usize = 0;
        while i < self.asset_types.len()
            invariant
                i <= self.asset_types@.len(),
                out@ == self.asset_types@.subrange(0, i as int),
            decreases self.asset_types@.len() - i,
        {
            out.push(clone_asset_type(&self.asset_types[i]));
            proof {
                assert(out@ =~= self.asset_types@.subrange(0, i + 1));
            }
            i += 1;
        }
        proof {
            assert(out@ =~= self.asset_types@);
        }
        out
    }

    /// A copy of the asset reference records, in stored order.
    pub fn assets_snapshot(&self) -> (out: Vec<AssetReference>)
        ensures
            out@.len() == self.asset_references@.len(),
            forall|k: int|
                0 <= k < out@.len() ==> same_asset(
                    #[trigger] out@[k],
                    self.asset_references@[k],
                ),
    {
        let mut out: Vec<AssetReference> = Vec::new();
        let mut i: usize = 0;
        while i < self.asset_references.len()
            invariant
                i <= self.asset_references@.len(),
                out@.len() == i,
                forall|k: int|
                    0 <= k < i ==> same_asset(#[trigger] out@[k], self.asset_references@[k]),
            decreases self.asset_references@.len() - i,
        {
            out.push(clone_asset(&self.asset_references[i]));
            i += 1;
        }
        out
    }

    /// Store a review for an asset under a principle, overwriting any
    /// prior review of that pair.  The rating, when given, must be one of
    /// H, M, L.
    pub fn store_asset_review(
        &mut self,
        asset_name: &str,
        principle: &str,
        rating: Option<&str>,
        analysis: &str,
        now: &str,
    ) -> (r: Result<(), VqlError>)
        requires
            old(self).wf(),
        ensures
            final(self).wf(),
            match r {
                Ok(()) => old(self).has_asset(asset_name@) && old(self).has_principle(principle@)
                    && opt_rating_ok(opt_str_view(rating)) && review_stored(
                    *old(self),
                    *final(self),
                    asset_name@,
                    principle@,
                    opt_str_view(rating),
                    analysis@,
                    now@,
                ),
                Err(e) => *final(self) == *old(self) && {
                    if !old(self).has_asset(asset_name@) {
                        crate::errors::is_not_found(e, ItemKind::Asset, asset_name@)
                    } else if !old(self).has_principle(principle@) {
                        e matches VqlError::UnknownPrinciple { name, available } && name@
                            == principle@ && crate::errors::str_views(available@) == old(
                            self,
                        ).principle_names()
                    } else {
                        !opt_rating_ok(opt_str_view(rating)) && (e matches VqlError::InvalidRating {
                            rating: rs,
                        } && rating matches Some(r0) && rs@ == r0@)
                    }
                },
            },
            r is Err <==> (!old(self).has_asset(asset_name@) || !old(self).has_principle(
                principle@,
            ) || !opt_rating_ok(opt_str_view(rating))),
    {
        let idx = match self.find_asset(asset_name) {
            Some(i) => i,
            None => {
                return Err(VqlError::NotFound { kind: ItemKind::Asset, name: asset_name.to_owned() });
            },
        };
        if self.find_principle(principle).is_none() {
            return Err(
                VqlError::UnknownPrinciple {
                    name: principle.to_owned(),
                    available: self.principle_names_vec(),
                },
            );
        }
        let rating_owned: Option<String> = match rating {
            Some(rs) => {
                if !(str_eq(rs, "H") || str_eq(rs, "M") || str_eq(rs, "L")) {
                    return Err(VqlError::InvalidRating { rating: rs.to_owned() });
                }
                Some(rs.to_owned())
            },
            None => None,
        };
        let rv = Review {
            rating: rating_owned,
            analysis: Some(analysis.to_owned()),
            last_modified: now.to_owned(),
        };
        // Find an existing review entry for this principle.
        let mut j: usize = 0;
        let mut found: Option<usize> = None;
        while j < self.asset_references[idx].principle_reviews.len() && found.is_none()
            invariant
                idx < self.asset_references@.len(),
                j <= self.asset_references@[idx as int].principle_reviews@.len(),
                match found {
                    Some(f) => f < self.asset_references@[idx as int].principle_reviews@.len()
                        && self.asset_references@[idx as int].principle_reviews@[f as int].0@
                        == principle@,
                    None => forall|k: int|
                        0 <= k < j ==> (#[trigger] self.asset_references@[
                            idx as int
                        ].principle_reviews@[k].0@) != principle@,
                },
            decreases self.asset_references@[idx as int].principle_reviews@.len() - j + (
            if found.is_none() {
                1int
            } else {
                0int
            }),
        {
            if str_eq(self.asset_references[idx].principle_reviews[j].0.as_str(), principle) {
                found = Some(j);
            } else {
                j += 1;
            }
        }
        let a = &mut self.asset_references[idx];
        match found {
            Some(f) => {
                let key = a.principle_reviews[f].0.clone();
                crate::strutil::vec_set(&mut a.principle_reviews, f, (key, rv));
            },
            None => {
                a.principle_reviews.push((principle.to_owned(), rv));
                proof {
                    assert(a.principle_reviews@.drop_last() =~= old(self).asset_references@[
                        idx as int
                    ].principle_reviews@);
                }
            },
        }
        a.last_modified = now.to_owned();
        self.last_modified = now.to_owned();
        proof {
            assert(forall|k: int|
                0 <= k < old(self).asset_references@.len() && k != idx
                    ==> self.asset_references@[k] == old(self).asset_references@[k]);
            assert(forall|k: int|
                0 <= k < old(self).asset_references@.len() && k != idx ==> (
                #[trigger] old(self).asset_references@[k].short_name@) != asset_name@);
        }
        Ok(())
    }

    /// Rename a principle.  Every asset reviewed under the old key is
    /// re-keyed to the new one, its review kept unchanged.
    pub fn rename_principle(&mut self, old_name: &str, new_name: &str, now: &str) -> (r: Result<
        (),
        VqlError,
    >)
        requires
            old(self).wf(),
        ensures
            final(self).wf(),
            match r {
                Ok(()) => old(self).has_principle(old_name@) && !old(self).name_taken(new_name@)
                    && principle_renamed(*old(self), *final(self), old_name@, new_name@, now@),
                Err(e) => *final(self) == *old(self) && {
                    if !old(self).has_principle(old_name@) {
                        crate::errors::is_not_found(e, ItemKind::Principle, old_name@)
                    } else {
                        old(self).name_taken(new_name@) && crate::errors::is_collision(
                            e,
                            new_name@,
                            old(self).taken_kind(new_name@),
                        )
                    }
                },
            },
            r is Err <==> (!old(self).has_principle(old_name@) || old(self).name_taken(new_name@)),
    {
        let i = match self.find_principle(old_name) {
            Some(i) => i,
            None => {
                return Err(
                    VqlError::NotFound { kind: ItemKind::Principle, name: old_name.to_owned() },
                );
            },
        };
        match self.check_name_availability(new_name) {
            Err(e) => {
                return Err(e);
            },
            Ok(()) => {},
        }
        let p = &mut self.principles[i];
        p.short_name = new_name.to_owned();
        p.last_modified = now.to_owned();
        cascade_rename_reviews(&mut self.asset_references, old_name, new_name);
        self.last_modified = now.to_owned();
        proof {
            let pre = *old(self);
            let post = *self;
            assert(forall|t: int|
                0 <= t < pre.principles@.len() && t != i ==> post.principles@[t]
                    == pre.principles@[t]);
            assert(forall|t: int|
                0 <= t < pre.principles@.len() && t != i ==> (
                #[trigger] pre.principles@[t].short_name@) != old_name@);
            assert(forall|k: int|
                0 <= k < post.asset_references@.len() ==> (
                #[trigger] post.asset_references@[k].short_name@)
                    == pre.asset_references@[k].short_name@);
            assert forall|k: int|
                0 <= k < post.asset_references@.len() implies review_keys_unique(
                #[trigger] post.asset_references@[k],
            ) by {
                let oa = pre.asset_references@[k];
                let na = post.asset_references@[k];
                assert(review_keys_unique(oa));
                assert forall|x: int, y: int|
                    0 <= x < y < na.principle_reviews@.len() implies (
                #[trigger] na.principle_reviews@[x].0@) != (
                #[trigger] na.principle_reviews@[y].0@) by {
                    assert(pre.has_principle(oa.principle_reviews@[x].0@));
                    assert(pre.has_principle(oa.principle_reviews@[y].0@));
                }
            }
            assert forall|k: int, j: int|
                0 <= k < post.asset_references@.len() && 0 <= j < post.asset_references@[
                    k
                ].principle_reviews@.len() implies post.has_principle(
                #[trigger] post.asset_references@[k].principle_reviews@[j].0@,
            ) by {
                let oa = pre.asset_references@[k];
                let key = oa.principle_reviews@[j].0@;
                assert(pre.has_principle(key));
                let m = choose|m: int|
                    0 <= m < pre.principles@.len() && (#[trigger] pre.principles@[m].short_name@)
                        == key;
                if key == old_name@ {
                    assert(post.principles@[i as int].short_name@ == new_name@);
                } else {
                    assert(m != i);
                    assert(post.principles@[m].short_name@ == key);
                }
            }
        }
        Ok(())
    }

    /// Rename an entity.  Every asset referencing the old name is
    /// retargeted to the new one and restamped.
    pub fn rename_entity(&mut self, old_name: &str, new_name: &str, now: &str) -> (r: Result<
        (),
        VqlError,
    >)
        requires
            old(self).wf(),
        ensures
            final(self).wf(),
            match r {
                Ok(()) => old(self).has_entity(old_name@) && !old(self).name_taken(new_name@)
                    && entity_renamed(*old(self), *final(self), old_name@, new_name@, now@),
                Err(e) => *final(self) == *old(self) && {
                    if !old(self).has_entity(old_name@) {
                        crate::errors::is_not_found(e, ItemKind::Entity, old_name@)
                    } else {
                        old(self).name_taken(new_name@) && crate::errors::is_collision(
                            e,
                            new_name@,
                            old(self).taken_kind(new_name@),
                        )
                    }
                },
            },
            r is Err <==> (!old(self).has_entity(old_name@) || old(self).name_taken(new_name@)),
    {
        let i = match self.find_entity(old_name) {
            Some(i) => i,
            None => {
                return Err(
                    VqlError::NotFound { kind: ItemKind::Entity, name: old_name.to_owned() },
                );
            },
        };
        match self.check_name_availability(new_name) {
            Err(e) => {
                return Err(e);
            },
            Ok(()) => {},
        }
        let en = &mut self.entities[i];
        en.short_name = new_name.to_owned();
        en.last_modified = now.to_owned();
        cascade_entity(&mut self.asset_references, old_name, new_name, now);
        self.last_modified = now.to_owned();
        proof {
            let pre = *old(self);
            let post = *self;
            assert(forall|t: int|
                0 <= t < pre.entities@.len() && t != i ==> post.entities@[t] == pre.entities@[t]);
            assert(forall|t: int|
                0 <= t < pre.entities@.len() && t != i ==> (
                #[trigger] pre.entities@[t].short_name@) != old_name@);
            assert(forall|k: int|
                0 <= k < post.asset_references@.len() ==> (
                #[trigger] post.asset_references@[k].short_name@)
                    == pre.asset_references@[k].short_name@);
            assert(forall|k: int|
                0 <= k < post.asset_references@.len()
                    ==> (#[trigger] post.asset_references@[k]).principle_reviews
                    == pre.asset_references@[k].principle_reviews);
        }
        Ok(())
    }

    /// Rename an asset type.  Every asset referencing the old name is
    /// retargeted to the new one and restamped.
    pub fn rename_asset_type(&mut self, old_name: &str, new_name: &str, now: &str) -> (r: Result<
        (),
        VqlError,
    >)
        requires
            old(self).wf(),
        ensures
            final(self).wf(),
            match r {
                Ok(()) => old(self).has_asset_type(old_name@) && !old(self).name_taken(new_name@)
                    && asset_type_renamed(*old(self), *final(self), old_name@, new_name@, now@),
                Err(e) => *final(self) == *old(self) && {
                    if !old(self).has_asset_type(old_name@) {
                        crate::errors::is_not_found(e, ItemKind::AssetType, old_name@)
                    } else {
                        old(self).name_taken(new_name@) && crate::errors::is_collision(
                            e,
                            new_name@,
                            old(self).taken_kind(new_name@),
                        )
                    }
                },
            },
            r is Err <==> (!old(self).has_asset_type(old_name@) || old(self).name_taken(
                new_name@,
            )),
    {
        let i = match self.find_asset_type(old_name) {
            Some(i) => i,
            None => {
                return Err(
                    VqlError::NotFound { kind: ItemKind::AssetType, name: old_name.to_owned() },
                );
            },
        };
        match self.check_name_availability(new_name) {
            Err(e) => {
                return Err(e);
            },
            Ok(()) => {},
        }
        let at = &mut self.asset_types[i];
        at.short_name = new_name.to_owned();
        at.last_modified = now.to_owned();
        cascade_type(&mut self.asset_references, old_name, new_name, now);
        self.last_modified = now.to_owned();
        proof {
            let pre = *old(self);
            let post = *self;
            assert(forall|t: int|
                0 <= t < pre.asset_types@.len() && t != i ==> post.asset_types@[t]
                    == pre.asset_types@[t]);
            assert(forall|t: int|
                0 <= t < pre.asset_types@.len() && t != i ==> (
                #[trigger] pre.asset_types@[t].short_name@) != old_name@);
            assert(forall|k: int|
                0 <= k < post.asset_references@.len() ==> (
                #[trigger] post.asset_references@[k].short_name@)
                    == pre.asset_references@[k].short_name@);
            assert(forall|k: int|
                0 <= k < post.asset_references@.len()
                    ==> (#[trigger] post.asset_references@[k]).principle_reviews
                    == pre.asset_references@[k].principle_reviews);
        }
        Ok(())
    }

    /// Rename an asset reference.  No cascade: reviews belong to the
    /// asset and move with it.
    pub fn rename_asset_reference(&mut self, old_name: &str, new_name: &str, now: &str) -> (r:
        Result<(), VqlError>)
        requires
            old(self).wf(),
        ensures
            final(self).wf(),
            match r {
                Ok(()) => old(self).has_asset(old_name@) && !old(self).name_taken(new_name@)
                    && asset_renamed(*old(self), *final(self), old_name@, new_name@, now@),
                Err(e) => *final(self) == *old(self) && {
                    if !old(self).has_asset(old_name@) {
                        crate::errors::is_not_found(e, ItemKind::Asset, old_name@)
                    } else {
                        old(self).name_taken(new_name@) && crate::errors::is_collision(
                            e,
                            new_name@,
                            old(self).taken_kind(new_name@),
                        )
                    }
                },
            },
            r is Err <==> (!old(self).has_asset(old_name@) || old(self).name_taken(new_name@)),
    {
        let i = match self.find_asset(old_name) {
            Some(i) => i,
            None => {
                return Err(VqlError::NotFound { kind: ItemKind::Asset, name: old_name.to_owned() });
            },
        };
        match self.check_name_availability(new_name) {
            Err(e) => {
                return Err(e);
            },
            Ok(()) => {},
        }
        let a = &mut self.asset_references[i];
        a.short_name = new_name.to_owned();
        a.last_modified = now.to_owned();
        self.last_modified = now.to_owned();
        proof {
            let pre = *old(self);
            let post = *self;
            assert(forall|t: int|
                0 <= t < pre.asset_references@.len() && t != i ==> post.asset_references@[t]
                    == pre.asset_references@[t]);
            assert(forall|t: int|
                0 <= t < pre.asset_references@.len() && t != i ==> (
                #[trigger] pre.asset_references@[t].short_name@) != old_name@);
        }
        Ok(())
    }

    /// Delete a principle.  Its review is removed from every asset's
    /// review map.
    pub fn delete_principle(&mut self, name: &str, now: &str) -> (r: Result<(), VqlError>)
        requires
            old(self).wf(),
        ensures
            final(self).wf(),
            match r {
                Ok(()) => old(self).has_principle(name@) && principle_deleted(
                    *old(self),
                    *final(self),
                    name@,
                    now@,
                ),
                Err(e) => *final(self) == *old(self) && crate::errors::is_not_found(
                    e,
                    ItemKind::Principle,
                    name@,
                ),
            },
            r is Err <==> !old(self).has_principle(name@),
    {
        let i = match self.find_principle(name) {
            Some(i) => i,
            None => {
                return Err(VqlError::NotFound { kind: ItemKind::Principle, name: name.to_owned() });
            },
        };
        self.principles.remove(i);
        cascade_remove_reviews(&mut self.asset_references, name);
        self.last_modified = now.to_owned();
        proof {
            let pre = *old(self);
            let post = *self;
            pre.principles@.remove_ensures(i as int);
            assert(forall|t: int|
                0 <= t < pre.principles@.len() && t != i ==> (
                #[trigger] pre.principles@[t].short_name@) != name@);
            assert(forall|k: int|
                0 <= k < post.asset_references@.len() ==> (
                #[trigger] post.asset_references@[k].short_name@)
                    == pre.asset_references@[k].short_name@);
            // review maps after the cascade: keys stay unique ...
            assert forall|k: int|
                0 <= k < post.asset_references@.len() implies review_keys_unique(
                #[trigger] post.asset_references@[k],
            ) by {
                let oa = pre.asset_references@[k];
                let na = post.asset_references@[k];
                assert(review_keys_unique(oa));
                if has_review(oa, name@) {
                    let j = choose|j: int|
                        0 <= j < oa.principle_reviews@.len() && (
                        #[trigger] oa.principle_reviews@[j].0@) == name@
                            && na.principle_reviews@ == oa.principle_reviews@.remove(j);
                    oa.principle_reviews@.remove_ensures(j);
                }
            }
            // ... and still name existing principles.
            assert forall|k: int, j: int|
                0 <= k < post.asset_references@.len() && 0 <= j < post.asset_references@[
                    k
                ].principle_reviews@.len() implies post.has_principle(
                #[trigger] post.asset_references@[k].principle_reviews@[j].0@,
            ) by {
                let oa = pre.asset_references@[k];
                let na = post.asset_references@[k];
                assert(review_keys_unique(oa));
                let key = na.principle_reviews@[j].0@;
                if has_review(oa, name@) {
                    let jj = choose|jj: int|
                        0 <= jj < oa.principle_reviews@.len() && (
                        #[trigger] oa.principle_reviews@[jj].0@) == name@
                            && na.principle_reviews@ == oa.principle_reviews@.remove(jj);
                    oa.principle_reviews@.remove_ensures(jj);
                }
                assert(pre.has_principle(key));
                assert(key != name@) by {
                    if has_review(oa, name@) {
                    } else {
                        assert(!has_review(oa, name@));
                    }
                }
                let m = choose|m: int|
                    0 <= m < pre.principles@.len() && (#[trigger] pre.principles@[m].short_name@)
                        == key;
                assert(m != i);
                if m < i {
                    assert(post.principles@[m].short_name@ == key);
                } else {
                    assert(post.principles@[m - 1].short_name@ == key);
                }
            }
        }
        Ok(())
    }

    /// Delete an entity.  Blocked while any asset still references it;
    /// the error lists the blocking assets.
    pub fn delete_entity(&mut self, name: &str, now: &str) -> (r: Result<(), VqlError>)
        requires
            old(self).wf(),
        ensures
            final(self).wf(),
            match r {
                Ok(()) => old(self).has_entity(name@) && !uses_entity(
                    old(self).asset_references@,
                    name@,
                ) && entity_deleted(*old(self), *final(self), name@, now@),
                Err(e) => *final(self) == *old(self) && {
                    if !old(self).has_entity(name@) {
                        crate::errors::is_not_found(e, ItemKind::Entity, name@)
                    } else {
                        uses_entity(old(self).asset_references@, name@)
                            && crate::errors::is_in_use(
                            e,
                            ItemKind::Entity,
                            name@,
                            entity_users(old(self).asset_references@, name@),
                        )
                    }
                },
            },
            r is Err <==> (!old(self).has_entity(name@) || uses_entity(
                old(self).asset_references@,
                name@,
            )),
    {
        let i = match self.find_entity(name) {
            Some(i) => i,
            None => {
                return Err(VqlError::NotFound { kind: ItemKind::Entity, name: name.to_owned() });
            },
        };
        let blocking = entity_user_names(&self.asset_references, name);
        proof {
            lemma_entity_users_empty(self.asset_references@, name@);
        }
        if blocking.len() > 0 {
            return Err(
                VqlError::InUse {
                    kind: ItemKind::Entity,
                    name: name.to_owned(),
                    blocking_assets: blocking,
                },
            );
        }
        self.entities.remove(i);
        self.last_modified = now.to_owned();
        proof {
            old(self).entities@.remove_ensures(i as int);
        }
        Ok(())
    }

    /// Delete an asset type.  Blocked while any asset still references
    /// it; the error lists the blocking assets.
    pub fn delete_asset_type(&mut self, name: &str, now: &str) -> (r: Result<(), VqlError>)
        requires
            old(self).wf(),
        ensures
            final(self).wf(),
            match r {
                Ok(()) => old(self).has_asset_type(name@) && !uses_type(
                    old(self).asset_references@,
                    name@,
                ) && asset_type_deleted(*old(self), *final(self), name@, now@),
                Err(e) => *final(self) == *old(self) && {
                    if !old(self).has_asset_type(name@) {
                        crate::errors::is_not_found(e, ItemKind::AssetType, name@)
                    } else {
                        uses_type(old(self).asset_references@, name@) && crate::errors::is_in_use(
                            e,
                            ItemKind::AssetType,
                            name@,
                            type_users(old(self).asset_references@, name@),
                        )
                    }
                },
            },
            r is Err <==> (!old(self).has_asset_type(name@) || uses_type(
                old(self).asset_references@,
                name@,
            )),
    {
        let i = match self.find_asset_type(name) {
            Some(i) => i,
            None => {
                return Err(
                    VqlError::NotFound { kind: ItemKind::AssetType, name: name.to_owned() },
                );
            },
        };
        let blocking = type_user_names(&self.asset_references, name);
        proof {
            lemma_type_users_empty(self.asset_references@, name@);
        }
        if blocking.len() > 0 {
            return Err(
                VqlError::InUse {
                    kind: ItemKind::AssetType,
                    name: name.to_owned(),
                    blocking_assets: blocking,
                },
            );
        }
        self.asset_types.remove(i);
        self.last_modified = now.to_owned();
        proof {
            old(self).asset_types@.remove_ensures(i as int);
        }
        Ok(())
    }

    /// Delete an asset reference, together with all of its reviews.
    pub fn delete_asset_reference(&mut self, name: &str, now: &str) -> (r: Result<(), VqlError>)
        requires
            old(self).wf(),
        ensures
            final(self).wf(),
            match r {
                Ok(()) => old(self).has_asset(name@) && asset_deleted(
                    *old(self),
                    *final(self),
                    name@,
                    now@,
                ),
                Err(e) => *final(self) == *old(self) && crate::errors::is_not_found(
                    e,
                    ItemKind::Asset,
                    name@,
                ),
            },
            r is Err <==> !old(self).has_asset(name@),
    {
        let i = match self.find_asset(name) {
            Some(i) => i,
            None => {
                return Err(VqlError::NotFound { kind: ItemKind::Asset, name: name.to_owned() });
            },
        };
        self.asset_references.remove(i);
        self.last_modified = now.to_owned();
        proof {
            old(self).asset_references@.remove_ensures(i as int);
        }
        Ok(())
    }

    /// The review of `asset_name` under `principle`, if any.
    pub fn get_asset_review(&self, asset_name: &str, principle: &str) -> (r: Result<
        Option<&Review>,
        VqlError,
    >)
        requires
            self.wf(),
        ensures
            match r {
                Ok(opt) => self.has_asset(asset_name@) && match opt {
                    Some(rv) => has_review(self.asset_of(asset_name@), principle@) && *rv
                        == review_of(self.asset_of(asset_name@), principle@),
                    None => !has_review(self.asset_of(asset_name@), principle@),
                },
                Err(e) => !self.has_asset(asset_name@) && crate::errors::is_not_found(
                    e,
                    ItemKind::Asset,
                    asset_name@,
                ),
            },
            r is Err <==> !self.has_asset(asset_name@),
    {
        let idx = match self.find_asset(asset_name) {
            Some(i) => i,
            None => {
                return Err(VqlError::NotFound { kind: ItemKind::Asset, name: asset_name.to_owned() });
            },
        };
        proof {
            let ghost c = choose|i: int|
                0 <= i < self.asset_references@.len() && (
                #[trigger] self.asset_references@[i].short_name@) == asset_name@;
            assert(c == idx as int);
        }
        let a = &self.asset_references[idx];
        let mut j: usize = 0;
        while j < a.principle_reviews.len()
            invariant
                self.wf(),
                idx < self.asset_references@.len(),
                *a == self.asset_references@[idx as int],
                self.asset_references@[idx as int].short_name@ == asset_name@,
                self.asset_of(asset_name@) == self.asset_references@[idx as int],
                self.has_asset(asset_name@),
                forall|k: int|
                    0 <= k < j ==> (#[trigger] a.principle_reviews@[k].0@) != principle@,
                j <= a.principle_reviews@.len(),
            decreases a.principle_reviews@.len() - j,
        {
            if str_eq(a.principle_reviews[j].0.as_str(), principle) {
                proof {
                    assert(review_keys_unique(self.asset_references@[idx as int]));
                    let ghost d = choose|i: int|
                        0 <= i < a.principle_reviews@.len() && (
                        #[trigger] a.principle_reviews@[i].0@) == principle@;
                    assert(d == j as int);
                }
                return Ok(Some(&a.principle_reviews[j].1));
            }
            j += 1;
        }
        Ok(None)
    }

    /// All reviews of `asset_name`, keyed by principle short name.
    pub fn get_asset_reviews(&self, asset_name: &str) -> (r: Result<
        &Vec<(String, Review)>,
        VqlError,
    >)
        requires
            self.wf(),
        ensures
            match r {
                Ok(prs) => self.has_asset(asset_name@) && prs@ == self.asset_of(
                    asset_name@,
                ).principle_reviews@,
                Err(e) => !self.has_asset(asset_name@) && crate::errors::is_not_found(
                    e,
                    ItemKind::Asset,
                    asset_name@,
                ),
            },
            r is Err <==> !self.has_asset(asset_name@),
    {
        let idx = match self.find_asset(asset_name) {
            Some(i) => i,
            None => {
                return Err(VqlError::NotFound { kind: ItemKind::Asset, name: asset_name.to_owned() });
            },
        };
        proof {
            let ghost c = choose|i: int|
                0 <= i < self.asset_references@.len() && (
                #[trigger] self.asset_references@[i].short_name@) == asset_name@;
            assert(c == idx as int);
        }
        Ok(&self.asset_references[idx].principle_reviews)
    }
}

} // verus!
