//! Error data for store operations, the grammar, and dispatch.
//!
//! Errors are plain data; rendering them as text is left to the caller
//! outside the library.

use vstd::prelude::*;

verus! {

/// The kind of registry item a short name can belong to.
#[derive(Clone, Copy, Debug, PartialEq, Eq, Structural)]
pub enum ItemKind {
    Principle,
    Entity,
    AssetType,
    Asset,
    Command,
}

/// A failure of a store operation, of the grammar, or of dispatch.
/// Every variant carries the context a caller needs to report it.
#[derive(Debug, Clone, PartialEq, Eq)]
pub enum VqlError {
    /// The named item does not exist in the given namespace.
    NotFound { kind: ItemKind, name: String },
    /// The short name is already used, by an item of `existing_kind`.
    NameCollision { name: String, existing_kind: ItemKind },
    /// A delete was blocked because asset references still point at the item.
    InUse { kind: ItemKind, name: String, blocking_assets: Vec<String> },
    /// A short name broke the one-character rule of its kind.
    InvalidShortName { kind: ItemKind, name: String },
    /// An asset reference named an entity that does not exist.
    UnknownEntity { name: String },
    /// An asset reference named an asset type that does not exist.
    UnknownAssetType { name: String },
    /// A review named a principle that does not exist; `available` lists
    /// the short names currently defined.
    UnknownPrinciple { name: String, available: Vec<String> },
    /// A rating was not one of H, M, L.
    InvalidRating { rating: String },
    /// An exemplar flag was not one of the accepted spellings.
    InvalidExemplarFlag { value: String },
    /// A command was recognised but given too few arguments.
    NotEnoughArguments { command: String },
    /// A scoped flag command's second token did not start with a dash.
    InvalidSubcommand { token: String },
    /// A scoped flag command named a sub-operation that does not exist.
    UnknownSubcommand { kind: ItemKind, token: String },
    /// The input matched no rule of the grammar.
    UnknownCommand { raw: String },
    /// The input carried neither prefix and was no bare asset query.
    UnrecognizedFormat { raw: String },
    /// A command verb with that name is already registered.
    CommandExists { name: String },
    /// A whole-project operation found no assets to work on.
    NoAssets,
    /// A principle list reduced to nothing.
    NoValidPrinciples,
    /// An interface-mode switch named an unknown mode.
    UnknownInterfaceMode { mode: String },
    /// A generic rename or delete named nothing in any of the four
    /// namespaces.
    UnknownItem { name: String },
    /// An instruction command named an asset that does not exist;
    /// `available` lists the asset short names currently defined.
    UnknownAsset { name: String, available: Vec<String> },
    /// An absolute path does not lie under the workspace root.
    OutsideWorkspace { path: String, root: String },
}

/// The views of a sequence of strings.
pub open spec fn str_views(ss: Seq<String>) -> Seq<Seq<char>> {
    ss.map_values(|s: String| s@)
}

/// `e` is `NotFound` for the given kind and name.
pub open spec fn is_not_found(e: VqlError, k: ItemKind, n: Seq<char>) -> bool {
    e matches VqlError::NotFound { kind, name } && kind == k && name@ == n
}

/// `e` is `NameCollision` for the given name and existing kind.
pub open spec fn is_collision(e: VqlError, n: Seq<char>, k: ItemKind) -> bool {
    e matches VqlError::NameCollision { name, existing_kind } && name@ == n && existing_kind == k
}

/// `e` is `InvalidShortName` for the given kind and name.
pub open spec fn is_invalid_short_name(e: VqlError, k: ItemKind, n: Seq<char>) -> bool {
    e matches VqlError::InvalidShortName { kind, name } && kind == k && name@ == n
}

/// `e` is `InUse` for the given kind and name, with the given blockers.
pub open spec fn is_in_use(e: VqlError, k: ItemKind, n: Seq<char>, blocking: Seq<Seq<char>>) -> bool {
    e matches VqlError::InUse { kind, name, blocking_assets } && kind == k && name@ == n
        && str_views(blocking_assets@) == blocking
}

} // verus!
