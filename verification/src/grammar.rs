//! The command grammar: one input line is classified into a typed
//! command or a parse error.
//!
//! Two surface syntaxes resolve to the same command set.  A line starting
//! with a colon is read as functional syntax (`name.st(p, text)`,
//! `pr.add(a, Arch)`, `rn(a, b)`, `name?(p)`); a line starting with a
//! dash is read as flag syntax (`-st name p text`, `-pr -add a Arch`); a
//! bare line may still be an asset query (`name ? (p)`).  Functional
//! parsing falls through to flag parsing when no functional rule fits.
//!
//! The whole grammar is stated as the spec function `spec_parse`;
//! `parse_command` returns exactly what `spec_parse` names for its input.

use vstd::prelude::*;
use crate::errors::{ItemKind, VqlError};
use crate::strutil::find_ch;
use crate::strutil::trim_front;
use crate::strutil::trimmed;
use crate::strutil::strip_both;
use crate::strutil::word_prefix_len;
use crate::strutil::is_ascii_lower;
use crate::strutil::subvec;
use crate::strutil::trim_vec;
use crate::strutil::strip_both_vec;
use crate::strutil::find_from;
use crate::strutil::lemma_find_ch_at;
use crate::strutil::lemma_find_ch_absent;
use crate::strutil::split_trimmed;
use crate::strutil::join_with;
use crate::strutil::eq_str;
use crate::strutil::has_prefix;
use crate::strutil::chars_of;
use crate::strutil::string_from;

verus! {

/// A parsed command: what one input line asks the registry to do.
#[derive(Debug, Clone, PartialEq)]
pub enum Command {
    /// Switch command interception on or off.
    VqlMode { on: bool },
    /// Switch between the talking surfaces.
    InterfaceMode { mcp: bool },
    /// Rename whatever item holds the old name.
    RenameGeneric { old_name: String, new_name: String },
    /// Delete whatever item holds the name.
    DeleteGeneric { name: String },
    /// List everything.
    ListAll,
    ListPrinciples,
    ListEntities,
    ListAssetTypes,
    ListAssetReferences,
    AddPrinciple { short_name: String, long_name: String, guidance: Option<String> },
    AddEntity { short_name: String, description: String },
    AddAssetType { short_name: String, description: String },
    AddAssetReference { short_name: String, entity: String, asset_type: String, path: String },
    /// Bulk-load principles from a structured-heading document.
    LoadPrinciples { path: String },
    /// Show an asset and its reviews; `principles` is the raw selector
    /// between the parentheses, when one was given.
    ShowAsset { name: String, principles: Option<String> },
    StoreReview { asset: String, principle: String, content: String },
    /// `value` is the raw exemplar flag, interpreted at dispatch.
    SetExemplar { asset: String, value: String },
    /// `rating` is the raw letter, validated at dispatch.
    SetCompliance { asset: String, principle: String, rating: String },
    /// Assemble review instructions for one asset.
    ReviewAsset { asset: String, args: String },
    /// Assemble refactor instructions for one asset.
    RefactorAsset { asset: String, args: String },
    GlobalReview { args: String },
    GlobalRefactor { args: String },
    RenamePrinciple { old_name: String, new_name: String },
    RenameEntity { old_name: String, new_name: String },
    RenameAssetType { old_name: String, new_name: String },
    RenameAssetReference { old_name: String, new_name: String },
    DeletePrinciple { name: String },
    DeleteEntity { name: String },
    DeleteAssetType { name: String },
    DeleteAssetReference { name: String },
    /// Set up the registry directory, at the given path or in place.
    Setup { path: Option<String> },
}

/// The view of a command: the same shape over character sequences.
pub enum CommandV {
    VqlMode { on: bool },
    InterfaceMode { mcp: bool },
    RenameGeneric { old_name: Seq<char>, new_name: Seq<char> },
    DeleteGeneric { name: Seq<char> },
    ListAll,
    ListPrinciples,
    ListEntities,
    ListAssetTypes,
    ListAssetReferences,
    AddPrinciple { short_name: Seq<char>, long_name: Seq<char>, guidance: Option<Seq<char>> },
    AddEntity { short_name: Seq<char>, description: Seq<char> },
    AddAssetType { short_name: Seq<char>, description: Seq<char> },
    AddAssetReference {
        short_name: Seq<char>,
        entity: Seq<char>,
        asset_type: Seq<char>,
        path: Seq<char>,
    },
    LoadPrinciples { path: Seq<char> },
    ShowAsset { name: Seq<char>, principles: Option<Seq<char>> },
    StoreReview { asset: Seq<char>, principle: Seq<char>, content: Seq<char> },
    SetExemplar { asset: Seq<char>, value: Seq<char> },
    SetCompliance { asset: Seq<char>, principle: Seq<char>, rating: Seq<char> },
    ReviewAsset { asset: Seq<char>, args: Seq<char> },
    RefactorAsset { asset: Seq<char>, args: Seq<char> },
    GlobalReview { args: Seq<char> },
    GlobalRefactor { args: Seq<char> },
    RenamePrinciple { old_name: Seq<char>, new_name: Seq<char> },
    RenameEntity { old_name: Seq<char>, new_name: Seq<char> },
    RenameAssetType { old_name: Seq<char>, new_name: Seq<char> },
    RenameAssetReference { old_name: Seq<char>, new_name: Seq<char> },
    DeletePrinciple { name: Seq<char> },
    DeleteEntity { name: Seq<char> },
    DeleteAssetType { name: Seq<char> },
    DeleteAssetReference { name: Seq<char> },
    Setup { path: Option<Seq<char>> },
}

/// The view of a parsed command.
pub open spec fn cview(c: Command) -> CommandV {
    match c {
        Command::VqlMode { on } => CommandV::VqlMode { on },
        Command::InterfaceMode { mcp } => CommandV::InterfaceMode { mcp },
        Command::RenameGeneric { old_name, new_name } => CommandV::RenameGeneric {
            old_name: old_name@,
            new_name: new_name@,
        },
        Command::DeleteGeneric { name } => CommandV::DeleteGeneric { name: name@ },
        Command::ListAll => CommandV::ListAll,
        Command::ListPrinciples => CommandV::ListPrinciples,
        Command::ListEntities => CommandV::ListEntities,
        Command::ListAssetTypes => CommandV::ListAssetTypes,
        Command::ListAssetReferences => CommandV::ListAssetReferences,
        Command::AddPrinciple { short_name, long_name, guidance } => CommandV::AddPrinciple {
            short_name: short_name@,
            long_name: long_name@,
            guidance: crate::store::opt_view(guidance),
        },
        Command::AddEntity { short_name, description } => CommandV::AddEntity {
            short_name: short_name@,
            description: description@,
        },
        Command::AddAssetType { short_name, description } => CommandV::AddAssetType {
            short_name: short_name@,
            description: description@,
        },
        Command::AddAssetReference { short_name, entity, asset_type, path } => {
            CommandV::AddAssetReference {
                short_name: short_name@,
                entity: entity@,
                asset_type: asset_type@,
                path: path@,
            }
        },
        Command::LoadPrinciples { path } => CommandV::LoadPrinciples { path: path@ },
        Command::ShowAsset { name, principles } => CommandV::ShowAsset {
            name: name@,
            principles: crate::store::opt_view(principles),
        },
        Command::StoreReview { asset, principle, content } => CommandV::StoreReview {
            asset: asset@,
            principle: principle@,
            content: content@,
        },
        Command::SetExemplar { asset, value } => CommandV::SetExemplar {
            asset: asset@,
            value: value@,
        },
        Command::SetCompliance { asset, principle, rating } => CommandV::SetCompliance {
            asset: asset@,
            principle: principle@,
            rating: rating@,
        },
        Command::ReviewAsset { asset, args } => CommandV::ReviewAsset {
            asset: asset@,
            args: args@,
        },
        Command::RefactorAsset { asset, args } => CommandV::RefactorAsset {
            asset: asset@,
            args: args@,
        },
        Command::GlobalReview { args } => CommandV::GlobalReview { args: args@ },
        Command::GlobalRefactor { args } => CommandV::GlobalRefactor { args: args@ },
        Command::RenamePrinciple { old_name, new_name } => CommandV::RenamePrinciple {
            old_name: old_name@,
            new_name: new_name@,
        },
        Command::RenameEntity { old_name, new_name } => CommandV::RenameEntity {
            old_name: old_name@,
            new_name: new_name@,
        },
        Command::RenameAssetType { old_name, new_name } => CommandV::RenameAssetType {
            old_name: old_name@,
            new_name: new_name@,
        },
        Command::RenameAssetReference { old_name, new_name } => CommandV::RenameAssetReference {
            old_name: old_name@,
            new_name: new_name@,
        },
        Command::DeletePrinciple { name } => CommandV::DeletePrinciple { name: name@ },
        Command::DeleteEntity { name } => CommandV::DeleteEntity { name: name@ },
        Command::DeleteAssetType { name } => CommandV::DeleteAssetType { name: name@ },
        Command::DeleteAssetReference { name } => CommandV::DeleteAssetReference { name: name@ },
        Command::Setup { path } => CommandV::Setup { path: crate::store::opt_view(path) },
    }
}

/// A parse failure, at the view level.
pub enum ParseErrV {
    /// A recognised verb was given too few arguments.
    NotEnough(Seq<char>),
    /// A scoped verb's second token did not start with a dash.
    InvalidSub(Seq<char>),
    /// A scoped verb named an unknown sub-operation.
    UnknownSub(ItemKind, Seq<char>),
    /// A dash-prefixed line matched no verb.
    Unknown(Seq<char>),
    /// The line carried no prefix and was no bare asset query.
    Unrecognized(Seq<char>),
}

/// What parsing one line yields, at the view level.
pub enum ParseOutV {
    Cmd(CommandV),
    Fail(ParseErrV),
}

/// The parse error `e` carries the view-level failure `ev`.
pub open spec fn err_matches(e: VqlError, ev: ParseErrV) -> bool {
    match ev {
        ParseErrV::NotEnough(u) => e matches VqlError::NotEnoughArguments { command } && command@
            == u,
        ParseErrV::InvalidSub(t) => e matches VqlError::InvalidSubcommand { token } && token@ == t,
        ParseErrV::UnknownSub(k, t) => e matches VqlError::UnknownSubcommand { kind, token } && kind
            == k && token@ == t,
        ParseErrV::Unknown(raw) => e matches VqlError::UnknownCommand { raw: r } && r@ == raw,
        ParseErrV::Unrecognized(raw) => e matches VqlError::UnrecognizedFormat { raw: r } && r@
            == raw,
    }
}

/// The parse result `r` is the view-level outcome `o`.
pub open spec fn out_matches(r: Result<Command, VqlError>, o: ParseOutV) -> bool {
    match o {
        ParseOutV::Cmd(cv) => r matches Ok(c) && cview(c) == cv,
        ParseOutV::Fail(ev) => r matches Err(e) && err_matches(e, ev),
    }
}

/// A call form with two comma-separated arguments after a prefix of
/// length `p`: `xx(a, b)`.  The first argument runs to the first comma
/// and may not be empty; the second runs to the closing parenthesis and
/// may contain commas but no parenthesis.  Both come back trimmed.
pub open spec fn match_pair_call(c: Seq<char>, p: int) -> Option<(Seq<char>, Seq<char>)> {
    if c.len() >= p + 1 && c.last() == ')' {
        let inner = c.subrange(p, c.len() - 1);
        let i = find_ch(inner, ',');
        if i >= 1 {
            let rest = inner.skip(i + 1);
            if rest.len() >= 1 && find_ch(rest, ')') == -1 {
                Some((trimmed(inner.take(i)), trimmed(rest)))
            } else {
                None
            }
        } else {
            None
        }
    } else {
        None
    }
}

/// A call form with one non-empty argument after a prefix of length `p`:
/// `xx(a)`.  The argument comes back trimmed.
pub open spec fn match_single_call(c: Seq<char>, p: int) -> Option<Seq<char>> {
    if c.len() >= p + 1 && c.last() == ')' {
        let inner = c.subrange(p, c.len() - 1);
        if inner.len() >= 1 && find_ch(inner, ')') == -1 {
            Some(trimmed(inner))
        } else {
            None
        }
    } else {
        None
    }
}

/// A call form with one possibly-empty argument after a prefix of length
/// `p`, trimmed and stripped of surrounding quotes: the shape of
/// `-pr.get("path")`.
pub open spec fn match_path_call(c: Seq<char>, p: int) -> Option<Seq<char>> {
    if c.len() >= p + 1 && c.last() == ')' {
        let inner = c.subrange(p, c.len() - 1);
        if find_ch(inner, ')') == -1 {
            Some(strip_both(trimmed(inner), '"'))
        } else {
            None
        }
    } else {
        None
    }
}

/// The principle-add form after its prefix: `(short, long)` or
/// `(short, long, "guidance")`.
pub open spec fn match_pr_add(c: Seq<char>, p: int) -> Option<(Seq<char>, Seq<char>, Option<Seq<char>>)> {
    if c.len() >= p + 1 && c.last() == ')' {
        let inner = c.subrange(p, c.len() - 1);
        let i = find_ch(inner, ',');
        if i >= 1 {
            let rest1 = inner.skip(i + 1);
            let m = find_ch(rest1, ',');
            if m == -1 {
                if rest1.len() >= 1 {
                    Some((trimmed(inner.take(i)), trimmed(rest1), None))
                } else {
                    None
                }
            } else if m >= 1 {
                let rest2 = trim_front(rest1.skip(m + 1));
                if rest2.len() >= 2 && rest2[0] == '"' && rest2.last() == '"' && find_ch(
                    rest2.subrange(1, rest2.len() - 1),
                    '"',
                ) == -1 {
                    Some(
                        (
                            trimmed(inner.take(i)),
                            trimmed(rest1.take(m)),
                            Some(rest2.subrange(1, rest2.len() - 1)),
                        ),
                    )
                } else {
                    None
                }
            } else {
                None
            }
        } else {
            None
        }
    } else {
        None
    }
}

/// The asset-reference-add form after its prefix, with a quoted path:
/// `(short, entity, type, "path")`.
pub open spec fn match_ar_add(c: Seq<char>, p: int) -> Option<
    (Seq<char>, Seq<char>, Seq<char>, Seq<char>),
> {
    if c.len() >= p + 1 && c.last() == ')' {
        let inner = c.subrange(p, c.len() - 1);
        let i1 = find_ch(inner, ',');
        if i1 >= 1 {
            let r1 = inner.skip(i1 + 1);
            let i2 = find_ch(r1, ',');
            if i2 >= 1 {
                let r2 = r1.skip(i2 + 1);
                let i3 = find_ch(r2, ',');
                if i3 >= 1 {
                    let r3 = trim_front(r2.skip(i3 + 1));
                    if r3.len() >= 2 && r3[0] == '"' && r3.last() == '"' && find_ch(
                        r3.subrange(1, r3.len() - 1),
                        '"',
                    ) == -1 {
                        Some(
                            (
                                trimmed(inner.take(i1)),
                                trimmed(r1.take(i2)),
                                trimmed(r2.take(i3)),
                                r3.subrange(1, r3.len() - 1),
                            ),
                        )
                    } else {
                        None
                    }
                } else {
                    None
                }
            } else {
                None
            }
        } else {
            None
        }
    } else {
        None
    }
}

/// The dashed asset-reference-add form after its prefix: the path is the
/// unquoted remainder, trimmed and stripped of surrounding quotes.
pub open spec fn match_dash_ar_add(c: Seq<char>, p: int) -> Option<
    (Seq<char>, Seq<char>, Seq<char>, Seq<char>),
> {
    if c.len() >= p + 1 && c.last() == ')' {
        let inner = c.subrange(p, c.len() - 1);
        let i1 = find_ch(inner, ',');
        if i1 >= 1 {
            let r1 = inner.skip(i1 + 1);
            let i2 = find_ch(r1, ',');
            if i2 >= 1 {
                let r2 = r1.skip(i2 + 1);
                let i3 = find_ch(r2, ',');
                if i3 >= 1 {
                    let r3 = r2.skip(i3 + 1);
                    if find_ch(r3, ')') == -1 {
                        Some(
                            (
                                trimmed(inner.take(i1)),
                                trimmed(r1.take(i2)),
                                trimmed(r2.take(i3)),
                                strip_both(trimmed(r3), '"'),
                            ),
                        )
                    } else {
                        None
                    }
                } else {
                    None
                }
            } else {
                None
            }
        } else {
            None
        }
    } else {
        None
    }
}

/// The parenthesised asset question: `name?(p)`, `name ? (p, q)`.
pub open spec fn match_q_paren(c: Seq<char>) -> Option<(Seq<char>, Seq<char>)> {
    let w = word_prefix_len(c);
    if w >= 1 {
        let r2 = trim_front(c.skip(w));
        if r2.len() >= 1 && r2[0] == '?' {
            let r3 = trim_front(r2.skip(1));
            if r3.len() >= 2 && r3[0] == '(' && r3.last() == ')' && find_ch(
                r3.subrange(1, r3.len() - 1),
                ')',
            ) == -1 {
                Some((c.take(w), r3.subrange(1, r3.len() - 1)))
            } else {
                None
            }
        } else {
            None
        }
    } else {
        None
    }
}

/// The bare asset question: `name?`, `name ?`.
pub open spec fn match_q_simple(c: Seq<char>) -> Option<Seq<char>> {
    let w = word_prefix_len(c);
    if w >= 1 {
        let r2 = trim_front(c.skip(w));
        if r2.len() == 1 && r2[0] == '?' {
            Some(c.take(w))
        } else {
            None
        }
    } else {
        None
    }
}

/// The asset question with an optional selector, as the bare syntax
/// accepts it: `name?`, `name ? (p)`.
pub open spec fn match_q_cli(c: Seq<char>) -> Option<(Seq<char>, Option<Seq<char>>)> {
    let w = word_prefix_len(c);
    if w >= 1 {
        let r2 = trim_front(c.skip(w));
        if r2.len() >= 1 && r2[0] == '?' {
            let r3 = trim_front(r2.skip(1));
            if r3.len() == 0 {
                Some((c.take(w), None))
            } else if r3.len() >= 2 && r3[0] == '(' && r3.last() == ')' && find_ch(
                r3.subrange(1, r3.len() - 1),
                ')',
            ) == -1 {
                Some((c.take(w), Some(r3.subrange(1, r3.len() - 1))))
            } else {
                None
            }
        } else {
            None
        }
    } else {
        None
    }
}

/// An asset method call: `name.xy(args)`, the method exactly two
/// lower-case letters.
pub open spec fn match_method(c: Seq<char>) -> Option<(Seq<char>, char, char, Seq<char>)> {
    let w = word_prefix_len(c);
    if w >= 1 && c.len() >= w + 5 && c[w] == '.' && is_ascii_lower(c[w + 1]) && is_ascii_lower(
        c[w + 2],
    ) && c[w + 3] == '(' && c.last() == ')' && find_ch(c.subrange(w + 4, c.len() - 1), ')') == -1 {
        Some((c.take(w), c[w + 1], c[w + 2], c.subrange(w + 4, c.len() - 1)))
    } else {
        None
    }
}

/// A global command: `-xy(args)`, the verb exactly two lower-case
/// letters.
pub open spec fn match_global(c: Seq<char>) -> Option<(char, char, Seq<char>)> {
    if c.len() >= 5 && c[0] == '-' && is_ascii_lower(c[1]) && is_ascii_lower(c[2]) && c[3] == '('
        && c.last() == ')' && find_ch(c.subrange(4, c.len() - 1), ')') == -1 {
        Some((c[1], c[2], c.subrange(4, c.len() - 1)))
    } else {
        None
    }
}

/// `c` begins with the characters of `p`.
pub open spec fn has_pre(c: Seq<char>, p: Seq<char>) -> bool {
    c.len() >= p.len() && c.subrange(0, p.len() as int) == p
}

/// The view of an optional character vector.
pub open spec fn opt_vec_view(o: Option<Vec<char>>) -> Option<Seq<char>> {
    match o {
        Some(v) => Some(v@),
        None => None,
    }
}

/// Whether `c` is an ASCII lower-case letter.
fn check_lower(c: char) -> (r: bool)
    ensures
        r == is_ascii_lower(c),
{
    let u = c as u32;
    ('a' as u32) <= u && u <= ('z' as u32)
}

/// Match the two-argument call form after a prefix of length `p`.
fn try_pair_call(v: &Vec<char>, p: usize) -> (r: Option<(Vec<char>, Vec<char>)>)
    requires
        p <= v@.len(),
    ensures
        match r {
            Some(t) => match_pair_call(v@, p as int) == Some((t.0@, t.1@)),
            None => match_pair_call(v@, p as int) is None,
        },
{
    let n = v.len();
    if n <= p || v[n - 1] != ')' {
        return None;
    }
    let inner = subvec(v, p, n - 1);
    let i = match find_from(&inner, 0, ',') {
        None => {
            proof {
                lemma_find_ch_absent(inner@, ',');
            }
            return None;
        },
        Some(i) => i,
    };
    proof {
        lemma_find_ch_at(inner@, ',', i as int);
    }
    if i < 1 {
        return None;
    }
    let rest = subvec(&inner, i + 1, inner.len());
    proof {
        assert(rest@ =~= inner@.skip(i + 1));
    }
    if rest.len() < 1 {
        return None;
    }
    match find_from(&rest, 0, ')') {
        Some(j) => {
            proof {
                lemma_find_ch_at(rest@, ')', j as int);
            }
            return None;
        },
        None => {
            proof {
                lemma_find_ch_absent(rest@, ')');
            }
        },
    }
    let g1 = subvec(&inner, 0, i);
    proof {
        assert(g1@ =~= inner@.take(i as int));
    }
    Some((trim_vec(&g1), trim_vec(&rest)))
}

/// Match the one-argument call form after a prefix of length `p`.
fn try_single_call(v: &Vec<char>, p: usize) -> (r: Option<Vec<char>>)
    requires
        p <= v@.len(),
    ensures
        match r {
            Some(t) => match_single_call(v@, p as int) == Some(t@),
            None => match_single_call(v@, p as int) is None,
        },
{
    let n = v.len();
    if n <= p || v[n - 1] != ')' {
        return None;
    }
    let inner = subvec(v, p, n - 1);
    if inner.len() < 1 {
        return None;
    }
    match find_from(&inner, 0, ')') {
        Some(j) => {
            proof {
                lemma_find_ch_at(inner@, ')', j as int);
            }
            return None;
        },
        None => {
            proof {
                lemma_find_ch_absent(inner@, ')');
            }
        },
    }
    Some(trim_vec(&inner))
}

/// Match the path call form (possibly empty argument, quotes stripped)
/// after a prefix of length `p`.
fn try_path_call(v: &Vec<char>, p: usize) -> (r: Option<Vec<char>>)
    requires
        p <= v@.len(),
    ensures
        match r {
            Some(t) => match_path_call(v@, p as int) == Some(t@),
            None => match_path_call(v@, p as int) is None,
        },
{
    let n = v.len();
    if n <= p || v[n - 1] != ')' {
        return None;
    }
    let inner = subvec(v, p, n - 1);
    match find_from(&inner, 0, ')') {
        Some(j) => {
            proof {
                lemma_find_ch_at(inner@, ')', j as int);
            }
            return None;
        },
        None => {
            proof {
                lemma_find_ch_absent(inner@, ')');
            }
        },
    }
    let t = trim_vec(&inner);
    Some(strip_both_vec(&t, '"'))
}

/// Match the principle-add argument form after a prefix of length `p`.
fn try_pr_add(v: &Vec<char>, p: usize) -> (r: Option<(Vec<char>, Vec<char>, Option<Vec<char>>)>)
    requires
        p <= v@.len(),
    ensures
        match r {
            Some(t) => match_pr_add(v@, p as int) == Some(
                (t.0@, t.1@, opt_vec_view(t.2)),
            ),
            None => match_pr_add(v@, p as int) is None,
        },
{
    let n = v.len();
    if n <= p || v[n - 1] != ')' {
        return None;
    }
    let inner = subvec(v, p, n - 1);
    let i = match find_from(&inner, 0, ',') {
        None => {
            proof {
                lemma_find_ch_absent(inner@, ',');
            }
            return None;
        },
        Some(i) => i,
    };
    proof {
        lemma_find_ch_at(inner@, ',', i as int);
    }
    if i < 1 {
        return None;
    }
    let g1 = subvec(&inner, 0, i);
    let rest1 = subvec(&inner, i + 1, inner.len());
    proof {
        assert(g1@ =~= inner@.take(i as int));
        assert(rest1@ =~= inner@.skip(i + 1));
    }
    let m = match find_from(&rest1, 0, ',') {
        None => {
            proof {
                lemma_find_ch_absent(rest1@, ',');
            }
            if rest1.len() < 1 {
                return None;
            }
            return Some((trim_vec(&g1), trim_vec(&rest1), None));
        },
        Some(m) => m,
    };
    proof {
        lemma_find_ch_at(rest1@, ',', m as int);
    }
    if m < 1 {
        return None;
    }
    let g2 = subvec(&rest1, 0, m);
    let r2full = subvec(&rest1, m + 1, rest1.len());
    proof {
        assert(g2@ =~= rest1@.take(m as int));
        assert(r2full@ =~= rest1@.skip(m + 1));
        assert(r2full@.skip(0) =~= r2full@);
    }
    let a = crate::strutil::skip_ws(&r2full, 0);
    let rest2 = subvec(&r2full, a, r2full.len());
    proof {
        assert(rest2@ =~= r2full@.skip(a as int));
        assert(rest2@ == trim_front(r2full@));
    }
    let n2 = rest2.len();
    if n2 < 2 || rest2[0] != '"' || rest2[n2 - 1] != '"' {
        return None;
    }
    let quoted = subvec(&rest2, 1, n2 - 1);
    proof {
        assert(quoted@ =~= rest2@.subrange(1, rest2@.len() - 1));
    }
    match find_from(&quoted, 0, '"') {
        Some(j) => {
            proof {
                lemma_find_ch_at(quoted@, '"', j as int);
            }
            return None;
        },
        None => {
            proof {
                lemma_find_ch_absent(quoted@, '"');
            }
        },
    }
    Some((trim_vec(&g1), trim_vec(&g2), Some(quoted)))
}

/// Match three comma-separated arguments and a trailing quoted path
/// after a prefix of length `p`.
fn try_ar_add(v: &Vec<char>, p: usize) -> (r: Option<(Vec<char>, Vec<char>, Vec<char>, Vec<char>)>)
    requires
        p <= v@.len(),
    ensures
        match r {
            Some(t) => match_ar_add(v@, p as int) == Some((t.0@, t.1@, t.2@, t.3@)),
            None => match_ar_add(v@, p as int) is None,
        },
{
    let n = v.len();
    if n <= p || v[n - 1] != ')' {
        return None;
    }
    let inner = subvec(v, p, n - 1);
    let i1 = match find_from(&inner, 0, ',') {
        None => {
            proof {
                lemma_find_ch_absent(inner@, ',');
            }
            return None;
        },
        Some(i) => i,
    };
    proof {
        lemma_find_ch_at(inner@, ',', i1 as int);
    }
    if i1 < 1 {
        return None;
    }
    let g1 = subvec(&inner, 0, i1);
    let r1 = subvec(&inner, i1 + 1, inner.len());
    proof {
        assert(g1@ =~= inner@.take(i1 as int));
        assert(r1@ =~= inner@.skip(i1 + 1));
    }
    let i2 = match find_from(&r1, 0, ',') {
        None => {
            proof {
                lemma_find_ch_absent(r1@, ',');
            }
            return None;
        },
        Some(i) => i,
    };
    proof {
        lemma_find_ch_at(r1@, ',', i2 as int);
    }
    if i2 < 1 {
        return None;
    }
    let g2 = subvec(&r1, 0, i2);
    let r2 = subvec(&r1, i2 + 1, r1.len());
    proof {
        assert(g2@ =~= r1@.take(i2 as int));
        assert(r2@ =~= r1@.skip(i2 + 1));
    }
    let i3 = match find_from(&r2, 0, ',') {
        None => {
            proof {
                lemma_find_ch_absent(r2@, ',');
            }
            return None;
        },
        Some(i) => i,
    };
    proof {
        lemma_find_ch_at(r2@, ',', i3 as int);
    }
    if i3 < 1 {
        return None;
    }
    let g3 = subvec(&r2, 0, i3);
    let r3full = subvec(&r2, i3 + 1, r2.len());
    proof {
        assert(g3@ =~= r2@.take(i3 as int));
        assert(r3full@ =~= r2@.skip(i3 + 1));
        assert(r3full@.skip(0) =~= r3full@);
    }
    let a = crate::strutil::skip_ws(&r3full, 0);
    let r3 = subvec(&r3full, a, r3full.len());
    proof {
        assert(r3@ =~= r3full@.skip(a as int));
        assert(r3@ == trim_front(r3full@));
    }
    let n3 = r3.len();
    if n3 < 2 || r3[0] != '"' || r3[n3 - 1] != '"' {
        return None;
    }
    let quoted = subvec(&r3, 1, n3 - 1);
    proof {
        assert(quoted@ =~= r3@.subrange(1, r3@.len() - 1));
    }
    match find_from(&quoted, 0, '"') {
        Some(j) => {
            proof {
                lemma_find_ch_at(quoted@, '"', j as int);
            }
            return None;
        },
        None => {
            proof {
                lemma_find_ch_absent(quoted@, '"');
            }
        },
    }
    Some((trim_vec(&g1), trim_vec(&g2), trim_vec(&g3), quoted))
}

/// Match three comma-separated arguments and an unquoted trailing path
/// after a prefix of length `p`.
fn try_dash_ar_add(v: &Vec<char>, p: usize) -> (r: Option<
    (Vec<char>, Vec<char>, Vec<char>, Vec<char>),
>)
    requires
        p <= v@.len(),
    ensures
        match r {
            Some(t) => match_dash_ar_add(v@, p as int) == Some((t.0@, t.1@, t.2@, t.3@)),
            None => match_dash_ar_add(v@, p as int) is None,
        },
{
    let n = v.len();
    if n <= p || v[n - 1] != ')' {
        return None;
    }
    let inner = subvec(v, p, n - 1);
    let i1 = match find_from(&inner, 0, ',') {
        None => {
            proof {
                lemma_find_ch_absent(inner@, ',');
            }
            return None;
        },
        Some(i) => i,
    };
    proof {
        lemma_find_ch_at(inner@, ',', i1 as int);
    }
    if i1 < 1 {
        return None;
    }
    let g1 = subvec(&inner, 0, i1);
    let r1 = subvec(&inner, i1 + 1, inner.len());
    proof {
        assert(g1@ =~= inner@.take(i1 as int));
        assert(r1@ =~= inner@.skip(i1 + 1));
    }
    let i2 = match find_from(&r1, 0, ',') {
        None => {
            proof {
                lemma_find_ch_absent(r1@, ',');
            }
            return None;
        },
        Some(i) => i,
    };
    proof {
        lemma_find_ch_at(r1@, ',', i2 as int);
    }
    if i2 < 1 {
        return None;
    }
    let g2 = subvec(&r1, 0, i2);
    let r2 = subvec(&r1, i2 + 1, r1.len());
    proof {
        assert(g2@ =~= r1@.take(i2 as int));
        assert(r2@ =~= r1@.skip(i2 + 1));
    }
    let i3 = match find_from(&r2, 0, ',') {
        None => {
            proof {
                lemma_find_ch_absent(r2@, ',');
            }
            return None;
        },
        Some(i) => i,
    };
    proof {
        lemma_find_ch_at(r2@, ',', i3 as int);
    }
    if i3 < 1 {
        return None;
    }
    let g3 = subvec(&r2, 0, i3);
    let r3 = subvec(&r2, i3 + 1, r2.len());
    proof {
        assert(g3@ =~= r2@.take(i3 as int));
        assert(r3@ =~= r2@.skip(i3 + 1));
    }
    match find_from(&r3, 0, ')') {
        Some(j) => {
            proof {
                lemma_find_ch_at(r3@, ')', j as int);
            }
            return None;
        },
        None => {
            proof {
                lemma_find_ch_absent(r3@, ')');
            }
        },
    }
    let t = trim_vec(&r3);
    Some((trim_vec(&g1), trim_vec(&g2), trim_vec(&g3), strip_both_vec(&t, '"')))
}

/// Match the parenthesised asset question.
fn try_q_paren(v: &Vec<char>) -> (r: Option<(Vec<char>, Vec<char>)>)
    ensures
        match r {
            Some(t) => match_q_paren(v@) == Some((t.0@, t.1@)),
            None => match_q_paren(v@) is None,
        },
{
    let n = v.len();
    let w = crate::strutil::word_prefix(v);
    if w < 1 {
        return None;
    }
    let a = crate::strutil::skip_ws(v, w);
    if a >= n || v[a] != '?' {
        proof {
            if a < n {
                assert(trim_front(v@.skip(w as int))[0] == v@[a as int]);
            }
        }
        return None;
    }
    proof {
        assert(trim_front(v@.skip(w as int))[0] == v@[a as int]);
        assert(v@.skip(a as int).skip(1) =~= v@.skip(a + 1));
    }
    let b = crate::strutil::skip_ws(v, a + 1);
    proof {
        assert(trim_front(v@.skip(a as int).skip(1)) == v@.skip(b as int));
    }
    if n - b < 2 || v[b] != '(' || v[n - 1] != ')' {
        proof {
            let r3 = v@.skip(b as int);
            if b < n {
                assert(r3[0] == v@[b as int]);
            }
            if n - b >= 1 {
                assert(r3.last() == v@[n - 1]);
            }
        }
        return None;
    }
    let inner = subvec(v, b + 1, n - 1);
    proof {
        let r3 = v@.skip(b as int);
        assert(r3[0] == v@[b as int]);
        assert(r3.last() == v@[n - 1]);
        assert(inner@ =~= r3.subrange(1, r3.len() - 1));
    }
    match find_from(&inner, 0, ')') {
        Some(j) => {
            proof {
                lemma_find_ch_at(inner@, ')', j as int);
            }
            return None;
        },
        None => {
            proof {
                lemma_find_ch_absent(inner@, ')');
            }
        },
    }
    Some((subvec(v, 0, w), inner))
}

/// Match the bare asset question.
fn try_q_simple(v: &Vec<char>) -> (r: Option<Vec<char>>)
    ensures
        match r {
            Some(t) => match_q_simple(v@) == Some(t@),
            None => match_q_simple(v@) is None,
        },
{
    let n = v.len();
    let w = crate::strutil::word_prefix(v);
    if w < 1 {
        return None;
    }
    let a = crate::strutil::skip_ws(v, w);
    proof {
        if a < n {
            assert(trim_front(v@.skip(w as int))[0] == v@[a as int]);
        }
    }
    if a == n - 1 && v[a] == '?' {
        Some(subvec(v, 0, w))
    } else {
        None
    }
}

/// Match the asset question with optional selector.
fn try_q_cli(v: &Vec<char>) -> (r: Option<(Vec<char>, Option<Vec<char>>)>)
    ensures
        match r {
            Some(t) => match_q_cli(v@) == Some((t.0@, opt_vec_view(t.1))),
            None => match_q_cli(v@) is None,
        },
{
    let n = v.len();
    let w = crate::strutil::word_prefix(v);
    if w < 1 {
        return None;
    }
    let a = crate::strutil::skip_ws(v, w);
    if a >= n || v[a] != '?' {
        proof {
            if a < n {
                assert(trim_front(v@.skip(w as int))[0] == v@[a as int]);
            }
        }
        return None;
    }
    proof {
        assert(trim_front(v@.skip(w as int))[0] == v@[a as int]);
        assert(v@.skip(a as int).skip(1) =~= v@.skip(a + 1));
    }
    let b = crate::strutil::skip_ws(v, a + 1);
    proof {
        assert(trim_front(v@.skip(a as int).skip(1)) == v@.skip(b as int));
    }
    if b == n {
        proof {
            assert(v@.skip(b as int) =~= Seq::<char>::empty());
        }
        return Some((subvec(v, 0, w), None));
    }
    if n - b < 2 || v[b] != '(' || v[n - 1] != ')' {
        proof {
            let r3 = v@.skip(b as int);
            assert(r3[0] == v@[b as int]);
            if n - b >= 1 {
                assert(r3.last() == v@[n - 1]);
            }
        }
        return None;
    }
    let inner = subvec(v, b + 1, n - 1);
    proof {
        let r3 = v@.skip(b as int);
        assert(r3[0] == v@[b as int]);
        assert(r3.last() == v@[n - 1]);
        assert(inner@ =~= r3.subrange(1, r3.len() - 1));
    }
    match find_from(&inner, 0, ')') {
        Some(j) => {
            proof {
                lemma_find_ch_at(inner@, ')', j as int);
            }
            return None;
        },
        None => {
            proof {
                lemma_find_ch_absent(inner@, ')');
            }
        },
    }
    Some((subvec(v, 0, w), Some(inner)))
}

/// Match an asset method call.
fn try_method(v: &Vec<char>) -> (r: Option<(Vec<char>, char, char, Vec<char>)>)
    ensures
        match r {
            Some(t) => match_method(v@) == Some((t.0@, t.1, t.2, t.3@)),
            None => match_method(v@) is None,
        },
{
    let n = v.len();
    let w = crate::strutil::word_prefix(v);
    if w < 1 || n - w < 5 {
        return None;
    }
    if v[w] != '.' || !check_lower(v[w + 1]) || !check_lower(v[w + 2]) || v[w + 3] != '(' || v[n
        - 1] != ')' {
        return None;
    }
    let inner = subvec(v, w + 4, n - 1);
    proof {
        assert(inner@ =~= v@.subrange(w + 4, n - 1));
    }
    match find_from(&inner, 0, ')') {
        Some(j) => {
            proof {
                lemma_find_ch_at(inner@, ')', j as int);
            }
            return None;
        },
        None => {
            proof {
                lemma_find_ch_absent(inner@, ')');
            }
        },
    }
    Some((subvec(v, 0, w), v[w + 1], v[w + 2], inner))
}

/// Match a global command.
fn try_global(v: &Vec<char>) -> (r: Option<(char, char, Vec<char>)>)
    ensures
        match r {
            Some(t) => match_global(v@) == Some((t.0, t.1, t.2@)),
            None => match_global(v@) is None,
        },
{
    let n = v.len();
    if n < 5 {
        return None;
    }
    if v[0] != '-' || !check_lower(v[1]) || !check_lower(v[2]) || v[3] != '(' || v[n - 1] != ')' {
        return None;
    }
    let inner = subvec(v, 4, n - 1);
    proof {
        assert(inner@ =~= v@.subrange(4, n - 1));
    }
    match find_from(&inner, 0, ')') {
        Some(j) => {
            proof {
                lemma_find_ch_at(inner@, ')', j as int);
            }
            return None;
        },
        None => {
            proof {
                lemma_find_ch_absent(inner@, ')');
            }
        },
    }
    Some((v[1], v[2], inner))
}

/// The asset-method rules: store, review, refactor, set-exemplar, set-
/// compliance.  `None` means no method rule fired and parsing goes on.
pub open spec fn stage_method(c: Seq<char>) -> Option<ParseOutV> {
    match match_method(c) {
        Some(t) => {
            if t.1 == 's' && t.2 == 't' {
                let parts = split_trimmed(t.3, ',');
                Some(
                    ParseOutV::Cmd(
                        CommandV::StoreReview {
                            asset: t.0,
                            principle: parts[0],
                            content: strip_both(join_with(parts.skip(1), ", "@), '"'),
                        },
                    ),
                )
            } else if t.1 == 'r' && t.2 == 'v' {
                Some(ParseOutV::Cmd(CommandV::ReviewAsset { asset: t.0, args: t.3 }))
            } else if t.1 == 'r' && t.2 == 'f' {
                Some(ParseOutV::Cmd(CommandV::RefactorAsset { asset: t.0, args: t.3 }))
            } else if t.1 == 's' && t.2 == 'e' {
                Some(ParseOutV::Cmd(CommandV::SetExemplar { asset: t.0, value: trimmed(t.3) }))
            } else if t.1 == 's' && t.2 == 'c' {
                let parts = split_trimmed(t.3, ',');
                if parts.len() < 2 {
                    Some(ParseOutV::Fail(ParseErrV::NotEnough("sc"@)))
                } else {
                    Some(
                        ParseOutV::Cmd(
                            CommandV::SetCompliance {
                                asset: t.0,
                                principle: parts[0],
                                rating: parts[1],
                            },
                        ),
                    )
                }
            } else {
                None
            }
        },
        None => None,
    }
}

/// The global rules: whole-project review and refactor, and setup.
pub open spec fn stage_global(c: Seq<char>) -> Option<ParseOutV> {
    match match_global(c) {
        Some(t) => {
            if t.0 == 'r' && t.1 == 'v' {
                Some(ParseOutV::Cmd(CommandV::GlobalReview { args: t.2 }))
            } else if t.0 == 'r' && t.1 == 'f' {
                Some(ParseOutV::Cmd(CommandV::GlobalRefactor { args: t.2 }))
            } else if t.0 == 's' && t.1 == 'u' {
                Some(
                    ParseOutV::Cmd(
                        CommandV::Setup { path: Some(strip_both(trimmed(t.2), '"')) },
                    ),
                )
            } else {
                None
            }
        },
        None => None,
    }
}

/// The functional rules, tried in their fixed precedence order.  `None`
/// means none fired and the line falls through to the flag and bare
/// query rules.
pub open spec fn functional_out(c: Seq<char>) -> Option<ParseOutV> {
    if c == "-vql on"@ {
        Some(ParseOutV::Cmd(CommandV::VqlMode { on: true }))
    } else if c == "-vql off"@ {
        Some(ParseOutV::Cmd(CommandV::VqlMode { on: false }))
    } else if c == "mcp"@ {
        Some(ParseOutV::Cmd(CommandV::InterfaceMode { mcp: true }))
    } else if c == "cli"@ {
        Some(ParseOutV::Cmd(CommandV::InterfaceMode { mcp: false }))
    } else if has_pre(c, "rn("@) && match_pair_call(c, "rn("@.len() as int) is Some {
        match match_pair_call(c, "rn("@.len() as int) {
            Some(t) => Some(
                ParseOutV::Cmd(CommandV::RenameGeneric { old_name: t.0, new_name: t.1 }),
            ),
            None => None,
        }
    } else if has_pre(c, "dl("@) && match_single_call(c, "dl("@.len() as int) is Some {
        match match_single_call(c, "dl("@.len() as int) {
            Some(n) => Some(ParseOutV::Cmd(CommandV::DeleteGeneric { name: n })),
            None => None,
        }
    } else if c == "ls()"@ || c == "ls"@ {
        Some(ParseOutV::Cmd(CommandV::ListAll))
    } else if c == "pr()"@ || c == "pr"@ {
        Some(ParseOutV::Cmd(CommandV::ListPrinciples))
    } else if c == "er()"@ || c == "er"@ {
        Some(ParseOutV::Cmd(CommandV::ListEntities))
    } else if c == "at()"@ || c == "at"@ {
        Some(ParseOutV::Cmd(CommandV::ListAssetTypes))
    } else if c == "ar()"@ || c == "ar"@ {
        Some(ParseOutV::Cmd(CommandV::ListAssetReferences))
    } else if has_pre(c, "pr.add("@) && match_pr_add(c, "pr.add("@.len() as int) is Some {
        match match_pr_add(c, "pr.add("@.len() as int) {
            Some(t) => Some(
                ParseOutV::Cmd(
                    CommandV::AddPrinciple { short_name: t.0, long_name: t.1, guidance: t.2 },
                ),
            ),
            None => None,
        }
    } else if has_pre(c, "er.add("@) && match_pair_call(c, "er.add("@.len() as int) is Some {
        match match_pair_call(c, "er.add("@.len() as int) {
            Some(t) => Some(
                ParseOutV::Cmd(CommandV::AddEntity { short_name: t.0, description: t.1 }),
            ),
            None => None,
        }
    } else if has_pre(c, "at.add("@) && match_pair_call(c, "at.add("@.len() as int) is Some {
        match match_pair_call(c, "at.add("@.len() as int) {
            Some(t) => Some(
                ParseOutV::Cmd(CommandV::AddAssetType { short_name: t.0, description: t.1 }),
            ),
            None => None,
        }
    } else if has_pre(c, "ar.add("@) && match_ar_add(c, "ar.add("@.len() as int) is Some {
        match match_ar_add(c, "ar.add("@.len() as int) {
            Some(t) => Some(
                ParseOutV::Cmd(
                    CommandV::AddAssetReference {
                        short_name: t.0,
                        entity: t.1,
                        asset_type: t.2,
                        path: t.3,
                    },
                ),
            ),
            None => None,
        }
    } else if match_q_paren(c) is Some {
        match match_q_paren(c) {
            Some(t) => Some(
                ParseOutV::Cmd(CommandV::ShowAsset { name: t.0, principles: Some(t.1) }),
            ),
            None => None,
        }
    } else if match_q_simple(c) is Some {
        match match_q_simple(c) {
            Some(n) => Some(ParseOutV::Cmd(CommandV::ShowAsset { name: n, principles: None })),
            None => None,
        }
    } else if has_pre(c, "-pr.get("@) && match_path_call(c, "-pr.get("@.len() as int) is Some {
        match match_path_call(c, "-pr.get("@.len() as int) {
            Some(p) => Some(ParseOutV::Cmd(CommandV::LoadPrinciples { path: p })),
            None => None,
        }
    } else if has_pre(c, "-ar.add("@) && match_dash_ar_add(c, "-ar.add("@.len() as int) is Some {
        match match_dash_ar_add(c, "-ar.add("@.len() as int) {
            Some(t) => Some(
                ParseOutV::Cmd(
                    CommandV::AddAssetReference {
                        short_name: t.0,
                        entity: t.1,
                        asset_type: t.2,
                        path: t.3,
                    },
                ),
            ),
            None => None,
        }
    } else if stage_method(c) is Some {
        stage_method(c)
    } else if stage_global(c) is Some {
        stage_global(c)
    } else if c == "-pr"@ {
        Some(ParseOutV::Cmd(CommandV::ListPrinciples))
    } else if c == "-er"@ {
        Some(ParseOutV::Cmd(CommandV::ListEntities))
    } else if c == "-at"@ {
        Some(ParseOutV::Cmd(CommandV::ListAssetTypes))
    } else if c == "-ar"@ {
        Some(ParseOutV::Cmd(CommandV::ListAssetReferences))
    } else {
        None
    }
}

/// The listing command of a kind.
pub open spec fn list_cmd(kind: ItemKind) -> CommandV {
    match kind {
        ItemKind::Principle => CommandV::ListPrinciples,
        ItemKind::Entity => CommandV::ListEntities,
        ItemKind::AssetType => CommandV::ListAssetTypes,
        _ => CommandV::ListAssetReferences,
    }
}

/// The typed rename command of a kind.
pub open spec fn rename_cmd(kind: ItemKind, o: Seq<char>, n: Seq<char>) -> CommandV {
    match kind {
        ItemKind::Principle => CommandV::RenamePrinciple { old_name: o, new_name: n },
        ItemKind::Entity => CommandV::RenameEntity { old_name: o, new_name: n },
        ItemKind::AssetType => CommandV::RenameAssetType { old_name: o, new_name: n },
        _ => CommandV::RenameAssetReference { old_name: o, new_name: n },
    }
}

/// The typed delete command of a kind.
pub open spec fn delete_cmd(kind: ItemKind, n: Seq<char>) -> CommandV {
    match kind {
        ItemKind::Principle => CommandV::DeletePrinciple { name: n },
        ItemKind::Entity => CommandV::DeleteEntity { name: n },
        ItemKind::AssetType => CommandV::DeleteAssetType { name: n },
        _ => CommandV::DeleteAssetReference { name: n },
    }
}

/// The usage tag of a kind's flag rename.
pub open spec fn rn_usage(kind: ItemKind) -> Seq<char> {
    match kind {
        ItemKind::Principle => "pr rn"@,
        ItemKind::Entity => "er rn"@,
        ItemKind::AssetType => "at rn"@,
        _ => "ar rn"@,
    }
}

/// The usage tag of a kind's flag delete.
pub open spec fn dl_usage(kind: ItemKind) -> Seq<char> {
    match kind {
        ItemKind::Principle => "pr dl"@,
        ItemKind::Entity => "er dl"@,
        ItemKind::AssetType => "at dl"@,
        _ => "ar dl"@,
    }
}

/// The add rule of one kind under flag syntax.
pub open spec fn add_flags(parts: Seq<Seq<char>>, kind: ItemKind) -> ParseOutV {
    match kind {
        ItemKind::Principle => {
            if parts.len() < 4 {
                ParseOutV::Fail(ParseErrV::NotEnough("pr add"@))
            } else {
                ParseOutV::Cmd(
                    CommandV::AddPrinciple {
                        short_name: parts[2],
                        long_name: parts[3],
                        guidance: if parts.len() > 4 {
                            Some(parts[4])
                        } else {
                            None
                        },
                    },
                )
            }
        },
        ItemKind::Entity => {
            if parts.len() < 3 {
                ParseOutV::Fail(ParseErrV::NotEnough("er add"@))
            } else {
                ParseOutV::Cmd(
                    CommandV::AddEntity {
                        short_name: parts[2],
                        description: if parts.len() > 3 {
                            parts[3]
                        } else {
                            parts[2]
                        },
                    },
                )
            }
        },
        ItemKind::AssetType => {
            if parts.len() < 4 {
                ParseOutV::Fail(ParseErrV::NotEnough("at add"@))
            } else {
                ParseOutV::Cmd(
                    CommandV::AddAssetType { short_name: parts[2], description: parts[3] },
                )
            }
        },
        _ => {
            if parts.len() >= 6 {
                ParseOutV::Cmd(
                    CommandV::AddAssetReference {
                        short_name: parts[2],
                        entity: parts[3],
                        asset_type: parts[4],
                        path: parts[5],
                    },
                )
            } else {
                ParseOutV::Fail(ParseErrV::NotEnough("ar add"@))
            }
        },
    }
}

/// A scoped flag command: the verb alone lists; otherwise the second
/// token must itself be dash-prefixed and name a sub-operation.
pub open spec fn scoped_flags(parts: Seq<Seq<char>>, kind: ItemKind) -> ParseOutV {
    if parts.len() <= 1 {
        ParseOutV::Cmd(list_cmd(kind))
    } else if parts[1].len() == 0 || parts[1][0] != '-' {
        ParseOutV::Fail(ParseErrV::InvalidSub(parts[1]))
    } else {
        let sub = crate::strutil::strip_lead(parts[1], '-');
        if sub == "add"@ {
            add_flags(parts, kind)
        } else if sub == "get"@ && kind == ItemKind::Principle {
            if parts.len() < 3 {
                ParseOutV::Fail(ParseErrV::NotEnough("pr get"@))
            } else {
                ParseOutV::Cmd(CommandV::LoadPrinciples { path: parts[2] })
            }
        } else if sub == "rn"@ {
            if parts.len() < 4 {
                ParseOutV::Fail(ParseErrV::NotEnough(rn_usage(kind)))
            } else {
                ParseOutV::Cmd(rename_cmd(kind, parts[2], parts[3]))
            }
        } else if sub == "dl"@ {
            if parts.len() < 3 {
                ParseOutV::Fail(ParseErrV::NotEnough(dl_usage(kind)))
            } else {
                ParseOutV::Cmd(delete_cmd(kind, parts[2]))
            }
        } else {
            ParseOutV::Fail(ParseErrV::UnknownSub(kind, parts[1]))
        }
    }
}

/// The flag syntax: whitespace-separated tokens, the first choosing the
/// verb.
pub open spec fn spec_parse_flags(c: Seq<char>) -> ParseOutV {
    let parts = crate::strutil::split_ws(c);
    if parts.len() == 0 {
        ParseOutV::Fail(ParseErrV::Unknown(c))
    } else {
        let main = crate::strutil::strip_lead(parts[0], '-');
        if main == "rn"@ {
            if parts.len() < 3 {
                ParseOutV::Fail(ParseErrV::NotEnough("rn"@))
            } else {
                ParseOutV::Cmd(CommandV::RenameGeneric { old_name: parts[1], new_name: parts[2] })
            }
        } else if main == "dl"@ {
            if parts.len() < 2 {
                ParseOutV::Fail(ParseErrV::NotEnough("dl"@))
            } else {
                ParseOutV::Cmd(CommandV::DeleteGeneric { name: parts[1] })
            }
        } else if main == "pr"@ {
            scoped_flags(parts, ItemKind::Principle)
        } else if main == "er"@ {
            scoped_flags(parts, ItemKind::Entity)
        } else if main == "at"@ {
            scoped_flags(parts, ItemKind::AssetType)
        } else if main == "ar"@ {
            scoped_flags(parts, ItemKind::Asset)
        } else if main == "st"@ {
            if parts.len() < 4 {
                ParseOutV::Fail(ParseErrV::NotEnough("st"@))
            } else {
                ParseOutV::Cmd(
                    CommandV::StoreReview {
                        asset: parts[1],
                        principle: parts[2],
                        content: strip_both(join_with(parts.skip(3), " "@), '"'),
                    },
                )
            }
        } else if main == "se"@ {
            if parts.len() < 3 {
                ParseOutV::Fail(ParseErrV::NotEnough("se"@))
            } else {
                ParseOutV::Cmd(CommandV::SetExemplar { asset: parts[1], value: parts[2] })
            }
        } else if main == "sc"@ {
            if parts.len() < 4 {
                ParseOutV::Fail(ParseErrV::NotEnough("sc"@))
            } else {
                ParseOutV::Cmd(
                    CommandV::SetCompliance {
                        asset: parts[1],
                        principle: parts[2],
                        rating: parts[3],
                    },
                )
            }
        } else if main == "su"@ {
            if parts.len() > 1 {
                ParseOutV::Cmd(
                    CommandV::Setup {
                        path: Some(strip_both(join_with(parts.skip(1), " "@), '"')),
                    },
                )
            } else {
                ParseOutV::Cmd(CommandV::Setup { path: None })
            }
        } else {
            ParseOutV::Fail(ParseErrV::Unknown(c))
        }
    }
}

/// A line without a colon prefix: flag syntax when dash-prefixed,
/// otherwise a bare asset query or a format failure.
pub open spec fn spec_parse_cli(c: Seq<char>) -> ParseOutV {
    if c.len() > 0 && c[0] == '-' {
        spec_parse_flags(c)
    } else {
        match match_q_cli(c) {
            Some(t) => ParseOutV::Cmd(CommandV::ShowAsset { name: t.0, principles: t.1 }),
            None => ParseOutV::Fail(ParseErrV::Unrecognized(c)),
        }
    }
}

/// Functional syntax, falling through to the other rules when no
/// functional rule fires.
pub open spec fn spec_parse_functional(c: Seq<char>) -> ParseOutV {
    match functional_out(c) {
        Some(o) => o,
        None => spec_parse_cli(c),
    }
}

/// What one input line parses to: functional syntax after a colon,
/// otherwise the flag and bare-query rules.
pub open spec fn spec_parse(s: Seq<char>) -> ParseOutV {
    if s.len() > 0 && s[0] == ':' {
        spec_parse_functional(s.skip(1))
    } else {
        spec_parse_cli(s)
    }
}

/// Parse a scoped flag command (`-pr -add …`, `-er …`).
fn parse_scoped(parts: &Vec<Vec<char>>, kind: ItemKind) -> (r: Result<Command, VqlError>)
    ensures
        out_matches(r, scoped_flags(crate::strutil::views(parts@), kind)),
{
    proof {
        assert(forall|i: int|
            0 <= i < parts@.len() ==> crate::strutil::views(parts@)[i] == parts@[i]@);
    }
    if parts.len() <= 1 {
        return Ok(
            match kind {
                ItemKind::Principle => Command::ListPrinciples,
                ItemKind::Entity => Command::ListEntities,
                ItemKind::AssetType => Command::ListAssetTypes,
                _ => Command::ListAssetReferences,
            },
        );
    }
    let p1 = &parts[1];
    if p1.len() == 0 || p1[0] != '-' {
        return Err(VqlError::InvalidSubcommand { token: string_from(p1) });
    }
    let sub = crate::strutil::strip_lead_vec(p1, '-');
    if eq_str(&sub, "add") {
        match kind {
            ItemKind::Principle => {
                if parts.len() < 4 {
                    Err(VqlError::NotEnoughArguments { command: "pr add".to_owned() })
                } else {
                    let guidance = if parts.len() > 4 {
                        Some(string_from(&parts[4]))
                    } else {
                        None
                    };
                    Ok(
                        Command::AddPrinciple {
                            short_name: string_from(&parts[2]),
                            long_name: string_from(&parts[3]),
                            guidance,
                        },
                    )
                }
            },
            ItemKind::Entity => {
                if parts.len() < 3 {
                    Err(VqlError::NotEnoughArguments { command: "er add".to_owned() })
                } else {
                    let description = if parts.len() > 3 {
                        string_from(&parts[3])
                    } else {
                        string_from(&parts[2])
                    };
                    Ok(
                        Command::AddEntity {
                            short_name: string_from(&parts[2]),
                            description,
                        },
                    )
                }
            },
            ItemKind::AssetType => {
                if parts.len() < 4 {
                    Err(VqlError::NotEnoughArguments { command: "at add".to_owned() })
                } else {
                    Ok(
                        Command::AddAssetType {
                            short_name: string_from(&parts[2]),
                            description: string_from(&parts[3]),
                        },
                    )
                }
            },
            _ => {
                if parts.len() >= 6 {
                    Ok(
                        Command::AddAssetReference {
                            short_name: string_from(&parts[2]),
                            entity: string_from(&parts[3]),
                            asset_type: string_from(&parts[4]),
                            path: string_from(&parts[5]),
                        },
                    )
                } else {
                    Err(VqlError::NotEnoughArguments { command: "ar add".to_owned() })
                }
            },
        }
    } else if eq_str(&sub, "get") && kind == ItemKind::Principle {
        if parts.len() < 3 {
            Err(VqlError::NotEnoughArguments { command: "pr get".to_owned() })
        } else {
            Ok(Command::LoadPrinciples { path: string_from(&parts[2]) })
        }
    } else if eq_str(&sub, "rn") {
        if parts.len() < 4 {
            Err(
                VqlError::NotEnoughArguments {
                    command: match kind {
                        ItemKind::Principle => "pr rn".to_owned(),
                        ItemKind::Entity => "er rn".to_owned(),
                        ItemKind::AssetType => "at rn".to_owned(),
                        _ => "ar rn".to_owned(),
                    },
                },
            )
        } else {
            let o = string_from(&parts[2]);
            let n = string_from(&parts[3]);
            Ok(
                match kind {
                    ItemKind::Principle => Command::RenamePrinciple { old_name: o, new_name: n },
                    ItemKind::Entity => Command::RenameEntity { old_name: o, new_name: n },
                    ItemKind::AssetType => Command::RenameAssetType { old_name: o, new_name: n },
                    _ => Command::RenameAssetReference { old_name: o, new_name: n },
                },
            )
        }
    } else if eq_str(&sub, "dl") {
        if parts.len() < 3 {
            Err(
                VqlError::NotEnoughArguments {
                    command: match kind {
                        ItemKind::Principle => "pr dl".to_owned(),
                        ItemKind::Entity => "er dl".to_owned(),
                        ItemKind::AssetType => "at dl".to_owned(),
                        _ => "ar dl".to_owned(),
                    },
                },
            )
        } else {
            let n = string_from(&parts[2]);
            Ok(
                match kind {
                    ItemKind::Principle => Command::DeletePrinciple { name: n },
                    ItemKind::Entity => Command::DeleteEntity { name: n },
                    ItemKind::AssetType => Command::DeleteAssetType { name: n },
                    _ => Command::DeleteAssetReference { name: n },
                },
            )
        }
    } else {
        Err(VqlError::UnknownSubcommand { kind, token: string_from(p1) })
    }
}

/// Parse a flag command line.
fn parse_flags(v: &Vec<char>) -> (r: Result<Command, VqlError>)
    ensures
        out_matches(r, spec_parse_flags(v@)),
{
    let parts = crate::strutil::split_ws_vec(v);
    proof {
        assert(forall|i: int|
            0 <= i < parts@.len() ==> crate::strutil::views(parts@)[i] == parts@[i]@);
    }
    if parts.len() == 0 {
        return Err(VqlError::UnknownCommand { raw: string_from(v) });
    }
    let main = crate::strutil::strip_lead_vec(&parts[0], '-');
    if eq_str(&main, "rn") {
        if parts.len() < 3 {
            Err(VqlError::NotEnoughArguments { command: "rn".to_owned() })
        } else {
            Ok(
                Command::RenameGeneric {
                    old_name: string_from(&parts[1]),
                    new_name: string_from(&parts[2]),
                },
            )
        }
    } else if eq_str(&main, "dl") {
        if parts.len() < 2 {
            Err(VqlError::NotEnoughArguments { command: "dl".to_owned() })
        } else {
            Ok(Command::DeleteGeneric { name: string_from(&parts[1]) })
        }
    } else if eq_str(&main, "pr") {
        parse_scoped(&parts, ItemKind::Principle)
    } else if eq_str(&main, "er") {
        parse_scoped(&parts, ItemKind::Entity)
    } else if eq_str(&main, "at") {
        parse_scoped(&parts, ItemKind::AssetType)
    } else if eq_str(&main, "ar") {
        parse_scoped(&parts, ItemKind::Asset)
    } else if eq_str(&main, "st") {
        if parts.len() < 4 {
            Err(VqlError::NotEnoughArguments { command: "st".to_owned() })
        } else {
            let joined = crate::strutil::join_from(&parts, 3, " ");
            let content = strip_both_vec(&joined, '"');
            Ok(
                Command::StoreReview {
                    asset: string_from(&parts[1]),
                    principle: string_from(&parts[2]),
                    content: string_from(&content),
                },
            )
        }
    } else if eq_str(&main, "se") {
        if parts.len() < 3 {
            Err(VqlError::NotEnoughArguments { command: "se".to_owned() })
        } else {
            Ok(
                Command::SetExemplar {
                    asset: string_from(&parts[1]),
                    value: string_from(&parts[2]),
                },
            )
        }
    } else if eq_str(&main, "sc") {
        if parts.len() < 4 {
            Err(VqlError::NotEnoughArguments { command: "sc".to_owned() })
        } else {
            Ok(
                Command::SetCompliance {
                    asset: string_from(&parts[1]),
                    principle: string_from(&parts[2]),
                    rating: string_from(&parts[3]),
                },
            )
        }
    } else if eq_str(&main, "su") {
        if parts.len() > 1 {
            let joined = crate::strutil::join_from(&parts, 1, " ");
            let path = strip_both_vec(&joined, '"');
            Ok(Command::Setup { path: Some(string_from(&path)) })
        } else {
            Ok(Command::Setup { path: None })
        }
    } else {
        Err(VqlError::UnknownCommand { raw: string_from(v) })
    }
}

/// Parse a line without a colon prefix.
fn parse_cli(v: &Vec<char>) -> (r: Result<Command, VqlError>)
    ensures
        out_matches(r, spec_parse_cli(v@)),
{
    if v.len() > 0 && v[0] == '-' {
        return parse_flags(v);
    }
    match try_q_cli(v) {
        Some(t) => {
            let principles = match t.1 {
                Some(s) => Some(string_from(&s)),
                None => None,
            };
            Ok(Command::ShowAsset { name: string_from(&t.0), principles })
        },
        None => Err(VqlError::UnrecognizedFormat { raw: string_from(v) }),
    }
}

/// Parse a functional (colon-mode) line, falling through to the other
/// rules when no functional rule fires.
fn parse_functional(v: &Vec<char>) -> (r: Result<Command, VqlError>)
    ensures
        out_matches(r, spec_parse_functional(v@)),
{
    if eq_str(v, "-vql on") {
        return Ok(Command::VqlMode { on: true });
    }
    if eq_str(v, "-vql off") {
        return Ok(Command::VqlMode { on: false });
    }
    if eq_str(v, "mcp") {
        return Ok(Command::InterfaceMode { mcp: true });
    }
    if eq_str(v, "cli") {
        return Ok(Command::InterfaceMode { mcp: false });
    }
    if has_prefix(v, "rn(") {
        match try_pair_call(v, "rn(".unicode_len()) {
            Some(t) => {
                return Ok(
                    Command::RenameGeneric {
                        old_name: string_from(&t.0),
                        new_name: string_from(&t.1),
                    },
                );
            },
            None => {},
        }
    }
    if has_prefix(v, "dl(") {
        match try_single_call(v, "dl(".unicode_len()) {
            Some(n) => {
                return Ok(Command::DeleteGeneric { name: string_from(&n) });
            },
            None => {},
        }
    }
    if eq_str(v, "ls()") || eq_str(v, "ls") {
        return Ok(Command::ListAll);
    }
    if eq_str(v, "pr()") || eq_str(v, "pr") {
        return Ok(Command::ListPrinciples);
    }
    if eq_str(v, "er()") || eq_str(v, "er") {
        return Ok(Command::ListEntities);
    }
    if eq_str(v, "at()") || eq_str(v, "at") {
        return Ok(Command::ListAssetTypes);
    }
    if eq_str(v, "ar()") || eq_str(v, "ar") {
        return Ok(Command::ListAssetReferences);
    }
    if has_prefix(v, "pr.add(") {
        match try_pr_add(v, "pr.add(".unicode_len()) {
            Some(t) => {
                let guidance = match t.2 {
                    Some(g) => Some(string_from(&g)),
                    None => None,
                };
                return Ok(
                    Command::AddPrinciple {
                        short_name: string_from(&t.0),
                        long_name: string_from(&t.1),
                        guidance,
                    },
                );
            },
            None => {},
        }
    }
    if has_prefix(v, "er.add(") {
        match try_pair_call(v, "er.add(".unicode_len()) {
            Some(t) => {
                return Ok(
                    Command::AddEntity {
                        short_name: string_from(&t.0),
                        description: string_from(&t.1),
                    },
                );
            },
            None => {},
        }
    }
    if has_prefix(v, "at.add(") {
        match try_pair_call(v, "at.add(".unicode_len()) {
            Some(t) => {
                return Ok(
                    Command::AddAssetType {
                        short_name: string_from(&t.0),
                        description: string_from(&t.1),
                    },
                );
            },
            None => {},
        }
    }
    if has_prefix(v, "ar.add(") {
        match try_ar_add(v, "ar.add(".unicode_len()) {
            Some(t) => {
                return Ok(
                    Command::AddAssetReference {
                        short_name: string_from(&t.0),
                        entity: string_from(&t.1),
                        asset_type: string_from(&t.2),
                        path: string_from(&t.3),
                    },
                );
            },
            None => {},
        }
    }
    match try_q_paren(v) {
        Some(t) => {
            return Ok(
                Command::ShowAsset {
                    name: string_from(&t.0),
                    principles: Some(string_from(&t.1)),
                },
            );
        },
        None => {},
    }
    match try_q_simple(v) {
        Some(n) => {
            return Ok(Command::ShowAsset { name: string_from(&n), principles: None });
        },
        None => {},
    }
    if has_prefix(v, "-pr.get(") {
        match try_path_call(v, "-pr.get(".unicode_len()) {
            Some(p) => {
                return Ok(Command::LoadPrinciples { path: string_from(&p) });
            },
            None => {},
        }
    }
    if has_prefix(v, "-ar.add(") {
        match try_dash_ar_add(v, "-ar.add(".unicode_len()) {
            Some(t) => {
                return Ok(
                    Command::AddAssetReference {
                        short_name: string_from(&t.0),
                        entity: string_from(&t.1),
                        asset_type: string_from(&t.2),
                        path: string_from(&t.3),
                    },
                );
            },
            None => {},
        }
    }
    match try_method(v) {
        Some(t) => {
            if t.1 == 's' && t.2 == 't' {
                let parts = crate::strutil::split_trimmed_vec(&t.3, ',');
                proof {
                    assert(forall|i: int|
                        0 <= i < parts@.len() ==> crate::strutil::views(parts@)[i]
                            == parts@[i]@);
                }
                let joined = crate::strutil::join_from(&parts, 1, ", ");
                let content = strip_both_vec(&joined, '"');
                return Ok(
                    Command::StoreReview {
                        asset: string_from(&t.0),
                        principle: string_from(&parts[0]),
                        content: string_from(&content),
                    },
                );
            }
            if t.1 == 'r' && t.2 == 'v' {
                return Ok(
                    Command::ReviewAsset { asset: string_from(&t.0), args: string_from(&t.3) },
                );
            }
            if t.1 == 'r' && t.2 == 'f' {
                return Ok(
                    Command::RefactorAsset { asset: string_from(&t.0), args: string_from(&t.3) },
                );
            }
            if t.1 == 's' && t.2 == 'e' {
                let tv = trim_vec(&t.3);
                return Ok(
                    Command::SetExemplar { asset: string_from(&t.0), value: string_from(&tv) },
                );
            }
            if t.1 == 's' && t.2 == 'c' {
                let parts = crate::strutil::split_trimmed_vec(&t.3, ',');
                proof {
                    assert(forall|i: int|
                        0 <= i < parts@.len() ==> crate::strutil::views(parts@)[i]
                            == parts@[i]@);
                }
                if parts.len() < 2 {
                    return Err(VqlError::NotEnoughArguments { command: "sc".to_owned() });
                }
                return Ok(
                    Command::SetCompliance {
                        asset: string_from(&t.0),
                        principle: string_from(&parts[0]),
                        rating: string_from(&parts[1]),
                    },
                );
            }
        },
        None => {},
    }
    match try_global(v) {
        Some(t) => {
            if t.0 == 'r' && t.1 == 'v' {
                return Ok(Command::GlobalReview { args: string_from(&t.2) });
            }
            if t.0 == 'r' && t.1 == 'f' {
                return Ok(Command::GlobalRefactor { args: string_from(&t.2) });
            }
            if t.0 == 's' && t.1 == 'u' {
                let tv = trim_vec(&t.2);
                let p = strip_both_vec(&tv, '"');
                return Ok(Command::Setup { path: Some(string_from(&p)) });
            }
        },
        None => {},
    }
    if eq_str(v, "-pr") {
        return Ok(Command::ListPrinciples);
    }
    if eq_str(v, "-er") {
        return Ok(Command::ListEntities);
    }
    if eq_str(v, "-at") {
        return Ok(Command::ListAssetTypes);
    }
    if eq_str(v, "-ar") {
        return Ok(Command::ListAssetReferences);
    }
    parse_cli(v)
}

/// Classify one input line: a typed command, or a parse error.  The
/// result is exactly what the grammar `spec_parse` names for the input.
pub fn parse_command(input: &str) -> (r: Result<Command, VqlError>)
    ensures
        out_matches(r, spec_parse(input@)),
{
    let v = chars_of(input);
    if v.len() > 0 && v[0] == ':' {
        let rest = subvec(&v, 1, v.len());
        proof {
            assert(rest@ =~= input@.skip(1));
        }
        parse_functional(&rest)
    } else {
        parse_cli(&v)
    }
}

} // verus!
