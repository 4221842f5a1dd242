//! Binding parsed commands to store operations.
//!
//! `process_command` is the pure heart of one invocation: it classifies
//! the input line and applies the matching store operation, yielding a
//! structured outcome with the data a caller needs to report (cascade
//! lists, listings, instruction material).  Loading the registry before
//! and saving it after stay with the caller, as does rendering.

use vstd::prelude::*;
use vstd::string::StringExecFns;
use crate::errors::{ItemKind, VqlError};
use crate::errors::str_views;
use crate::store::JsonStorage;
use crate::store::Principle;
use crate::store::Entity;
use crate::store::AssetType;
use crate::store::AssetReference;
use crate::strutil::chars_of;
use crate::strutil::string_from;
use crate::strutil::trim_vec;
use crate::strutil::eq_str;
use crate::strutil::eq_ci_str;
use crate::strutil::contains_ci_vec;
use crate::strutil::split_trimmed_vec;
use crate::strutil::str_eq;
use crate::strutil::contains_ci;
use crate::strutil::eq_ci;
use crate::strutil::trimmed;
use crate::strutil::split_trimmed;
use crate::strutil::join_with;
use crate::grammar::Command;
use crate::strutil::find_from;
use crate::store::uses_entity;
use crate::store::uses_type;
use crate::store::entity_users;
use crate::store::type_users;

verus! {

/// The compliance letter that free review text announces, when it does:
/// an explicit compliance phrase wins; a bare mention of a level is the
/// fallback.  Matching is blind to ASCII case.
pub open spec fn extracted_rating(text: Seq<char>) -> Option<Seq<char>> {
    if contains_ci(text, "high compliance"@) || contains_ci(text, "compliance: high"@) {
        Some("H"@)
    } else if contains_ci(text, "medium compliance"@) || contains_ci(text, "compliance: medium"@) {
        Some("M"@)
    } else if contains_ci(text, "low compliance"@) || contains_ci(text, "compliance: low"@) {
        Some("L"@)
    } else if contains_ci(text, " high "@) || contains_ci(text, " high."@) || contains_ci(
        text,
        " high,"@,
    ) {
        Some("H"@)
    } else if contains_ci(text, " medium "@) || contains_ci(text, " medium."@) || contains_ci(
        text,
        " medium,"@,
    ) {
        Some("M"@)
    } else if contains_ci(text, " low "@) || contains_ci(text, " low."@) || contains_ci(
        text,
        " low,"@,
    ) {
        Some("L"@)
    } else {
        None
    }
}

/// The rating letter announced by free review text, if any.
pub fn extract_rating_from_text(text: &str) -> (r: Option<String>)
    ensures
        crate::store::opt_view(r) == extracted_rating(text@),
{
    let v = chars_of(text);
    if contains_ci_vec(&v, "high compliance") || contains_ci_vec(&v, "compliance: high") {
        Some("H".to_owned())
    } else if contains_ci_vec(&v, "medium compliance") || contains_ci_vec(&v, "compliance: medium")
        {
        Some("M".to_owned())
    } else if contains_ci_vec(&v, "low compliance") || contains_ci_vec(&v, "compliance: low") {
        Some("L".to_owned())
    } else if contains_ci_vec(&v, " high ") || contains_ci_vec(&v, " high.") || contains_ci_vec(
        &v,
        " high,",
    ) {
        Some("H".to_owned())
    } else if contains_ci_vec(&v, " medium ") || contains_ci_vec(&v, " medium.")
        || contains_ci_vec(&v, " medium,") {
        Some("M".to_owned())
    } else if contains_ci_vec(&v, " low ") || contains_ci_vec(&v, " low.") || contains_ci_vec(
        &v,
        " low,",
    ) {
        Some("L".to_owned())
    } else {
        None
    }
}

/// The truth value an exemplar flag spells, blind to ASCII case; `None`
/// when the flag is not one of the accepted spellings.
pub open spec fn exemplar_flag(s: Seq<char>) -> Option<bool> {
    if eq_ci(s, "true"@) || eq_ci(s, "t"@) || eq_ci(s, "yes"@) || eq_ci(s, "y"@) {
        Some(true)
    } else if eq_ci(s, "false"@) || eq_ci(s, "f"@) || eq_ci(s, "no"@) || eq_ci(s, "n"@) {
        Some(false)
    } else {
        None
    }
}

/// Read an exemplar flag.
pub fn parse_exemplar_flag(v: &Vec<char>) -> (r: Option<bool>)
    ensures
        r == exemplar_flag(v@),
{
    if eq_ci_str(v, "true") || eq_ci_str(v, "t") || eq_ci_str(v, "yes") || eq_ci_str(v, "y") {
        Some(true)
    } else if eq_ci_str(v, "false") || eq_ci_str(v, "f") || eq_ci_str(v, "no") || eq_ci_str(
        v,
        "n",
    ) {
        Some(false)
    } else {
        None
    }
}

/// Whether a string list holds `s`.
fn contains_str(v: &Vec<String>, s: &str) -> (r: bool)
    ensures
        r == str_views(v@).contains(s@),
{
    let mut i: usize = 0;
    while i < v.len()
        invariant
            i <= v@.len(),
            forall|k: int| 0 <= k < i ==> (#[trigger] v@[k]@) != s@,
        decreases v@.len() - i,
    {
        if str_eq(v[i].as_str(), s) {
            proof {
                assert(str_views(v@)[i as int] == v@[i as int]@);
            }
            return true;
        }
        i += 1;
    }
    proof {
        if str_views(v@).contains(s@) {
            let k = choose|k: int| 0 <= k < str_views(v@).len() && str_views(v@)[k] == s@;
            assert(v@[k]@ == s@);
        }
    }
    false
}

/// A principle selector that means "all of them".
pub open spec fn wildcard(args: Seq<char>) -> bool {
    trimmed(args) == "*"@ || trimmed(args) == "-pr"@
}

/// The distinct non-empty pieces of a selector, first occurrences kept
/// in order.
pub open spec fn dedup_pieces(ps: Seq<Seq<char>>) -> Seq<Seq<char>>
    decreases ps.len(),
{
    if ps.len() == 0 {
        Seq::empty()
    } else {
        let rest = dedup_pieces(ps.drop_last());
        if ps.last().len() == 0 || rest.contains(ps.last()) {
            rest
        } else {
            rest.push(ps.last())
        }
    }
}

/// Every non-empty piece names an existing principle.
pub open spec fn pieces_known(ps: Seq<Seq<char>>, st: JsonStorage) -> bool {
    forall|i: int| 0 <= i < ps.len() ==> ((#[trigger] ps[i]).len() > 0 ==> st.has_principle(ps[i]))
}

/// What a principle selector resolves to: every principle for the
/// wildcard, otherwise the distinct named ones in order.
pub open spec fn principle_list_of(args: Seq<char>, st: JsonStorage) -> Seq<Seq<char>> {
    if wildcard(args) {
        st.principle_names()
    } else {
        dedup_pieces(split_trimmed(args, ','))
    }
}

/// A principle selector fails when, not being the wildcard, it names an
/// unknown principle or resolves to nothing.
pub open spec fn plist_err(args: Seq<char>, st: JsonStorage) -> bool {
    !wildcard(args) && (!pieces_known(split_trimmed(args, ','), st) || dedup_pieces(
        split_trimmed(args, ','),
    ).len() == 0)
}

/// Resolve a comma-separated principle selector: the wildcard selects
/// every principle; otherwise each non-empty piece must name an existing
/// principle, and duplicates are dropped.  An unknown piece is reported
/// with the names currently available.
pub open spec fn plist_err_val(args: Seq<char>, st: JsonStorage, e: VqlError) -> bool {
    if !pieces_known(split_trimmed(args, ','), st) {
        let ps = split_trimmed(args, ',');
        e matches VqlError::UnknownPrinciple { name, available } && str_views(available@)
            == st.principle_names() && exists|i: int|
            0 <= i < ps.len() && (#[trigger] ps[i]).len() > 0 && !st.has_principle(ps[i]) && name@
                == ps[i]
    } else {
        e == VqlError::NoValidPrinciples
    }
}

pub fn parse_principle_list(args: &str, st: &JsonStorage) -> (r: Result<Vec<String>, VqlError>)
    ensures
        match r {
            Ok(out) => !plist_err(args@, *st) && str_views(out@) == principle_list_of(args@, *st),
            Err(e) => plist_err(args@, *st) && plist_err_val(args@, *st, e),
        },
{
    let v = chars_of(args);
    let t = trim_vec(&v);
    if eq_str(&t, "*") || eq_str(&t, "-pr") {
        return Ok(st.principle_names_vec());
    }
    let pieces = split_trimmed_vec(&v, ',');
    proof {
        assert(forall|i: int|
            0 <= i < pieces@.len() ==> crate::strutil::views(pieces@)[i] == pieces@[i]@);
    }
    let ghost ps = split_trimmed(args@, ',');
    let mut out: Vec<String> = Vec::new();
    let mut i: usize = 0;
    while i < pieces.len()
        invariant
            i <= pieces@.len(),
            !wildcard(args@),
            ps == split_trimmed(args@, ','),
            crate::strutil::views(pieces@) == ps,
            forall|k: int|
                0 <= k < pieces@.len() ==> crate::strutil::views(pieces@)[k] == pieces@[k]@,
            forall|k: int| 0 <= k < i ==> ((#[trigger] ps[k]).len() > 0 ==> st.has_principle(ps[k])),
            str_views(out@) == dedup_pieces(ps.subrange(0, i as int)),
        decreases pieces@.len() - i,
    {
        proof {
            let pre = ps.subrange(0, i as int);
            let cur = ps.subrange(0, i + 1);
            assert(cur.drop_last() =~= pre);
            assert(cur.last() == ps[i as int]);
        }
        let piece = &pieces[i];
        if piece.len() > 0 {
            let s = string_from(piece);
            if !st.principle_exists(s.as_str()) {
                return Err(
                    VqlError::UnknownPrinciple { name: s, available: st.principle_names_vec() },
                );
            }
            if !contains_str(&out, s.as_str()) {
                out.push(s);
                proof {
                    assert(str_views(out@) =~= str_views(out@.drop_last()).push(out@.last()@));
                }
            }
        }
        i += 1;
    }
    proof {
        assert(ps.subrange(0, ps.len() as int) =~= ps);
    }
    if out.len() == 0 {
        return Err(VqlError::NoValidPrinciples);
    }
    Ok(out)
}

/// What a successfully dispatched command reports.  Outcomes are plain
/// data; rendering is the caller's business.
#[derive(Debug, PartialEq)]
pub enum Outcome {
    /// Command interception switched on or off.
    ModeSet { on: bool },
    /// The talking surface switched.
    InterfaceSet { mcp: bool },
    /// An item was added to the named namespace.
    Added { kind: ItemKind, name: String },
    /// An item was renamed; `affected` lists the assets the rename
    /// cascaded into.
    Renamed { kind: ItemKind, old_name: String, new_name: String, affected: Vec<String> },
    /// A principle was deleted; `affected` lists the assets that lost a
    /// review.
    PrincipleDeleted { name: String, affected: Vec<String> },
    EntityDeleted { name: String },
    AssetTypeDeleted { name: String },
    /// An asset was deleted together with `removed_reviews` reviews.
    AssetDeleted { name: String, removed_reviews: usize },
    /// A review was stored; `rating` is the letter lifted from the text,
    /// if one was.
    ReviewStored { asset: String, principle: String, rating: Option<String> },
    ExemplarMarked { asset: String, value: bool },
    ComplianceSet { asset: String, principle: String, rating: String },
    /// One asset with its reviews; `selected` carries the requested
    /// principle keys when the query named some.
    AssetInfo { asset: AssetReference, selected: Option<Vec<String>> },
    Principles { principles: Vec<Principle> },
    Entities { entities: Vec<Entity> },
    AssetTypes { asset_types: Vec<AssetType> },
    Assets { assets: Vec<AssetReference> },
    /// The full summary listing.
    Everything {
        principles: Vec<Principle>,
        entities: Vec<Entity>,
        asset_types: Vec<AssetType>,
        assets: Vec<AssetReference>,
    },
    /// Review or refactor instruction material: the target asset (or
    /// every asset for the whole-project forms), the principles to apply
    /// with their guidance, and any reference assets named.
    Instructions {
        refactor: bool,
        asset: Option<AssetReference>,
        assets: Vec<AssetReference>,
        principles: Vec<Principle>,
        references: Vec<String>,
    },
    /// The caller should read the named document and feed its lines to
    /// `load_principles_from_lines`.
    PrinciplesLoadRequested { path: String },
    /// The caller should set the registry directory up at the path.
    SetupRequested { path: Option<String> },
}

/// A structured-heading line: `# <Title> (<letter>)` with a single
/// lower-case letter.  Yields the long name and the one-letter short
/// name.
pub open spec fn header_match(line: Seq<char>) -> Option<(Seq<char>, Seq<char>)> {
    if line.len() >= 6 && line[0] == '#' && line[1] == ' ' && line[line.len() - 4] == ' '
        && line[line.len() - 3] == '(' && crate::strutil::is_ascii_lower(line[line.len() - 2])
        && line[line.len() - 1] == ')' {
        Some((line.subrange(2, line.len() - 4), line.subrange(line.len() - 2, line.len() - 1)))
    } else {
        None
    }
}

/// Match a structured heading.
fn try_header(v: &Vec<char>) -> (r: Option<(Vec<char>, Vec<char>)>)
    ensures
        match r {
            Some(t) => header_match(v@) == Some((t.0@, t.1@)),
            None => header_match(v@) is None,
        },
{
    let n = v.len();
    if n < 6 || v[0] != '#' || v[1] != ' ' || v[n - 4] != ' ' || v[n - 3] != '(' || v[n - 1] != ')'
        {
        return None;
    }
    let c = v[n - 2];
    let u = c as u32;
    if !(('a' as u32) <= u && u <= ('z' as u32)) {
        return None;
    }
    Some((crate::strutil::subvec(v, 2, n - 4), crate::strutil::subvec(v, n - 2, n - 1)))
}

/// The principle sections of a structured document, read from line `i`
/// with `cur` the section currently open: each heading closes the open
/// section; body lines join the open section's guidance, newline-
/// separated; the last open section closes at the end.
pub open spec fn md_sections_from(
    ls: Seq<Seq<char>>,
    i: int,
    cur: Option<(Seq<char>, Seq<char>, Seq<char>)>,
) -> Seq<(Seq<char>, Seq<char>, Seq<char>)>
    decreases ls.len() - i,
{
    if i < 0 || i >= ls.len() {
        match cur {
            Some(t) => seq![t],
            None => Seq::empty(),
        }
    } else {
        match header_match(ls[i]) {
            Some(h) => {
                let flushed = match cur {
                    Some(t) => seq![t],
                    None => Seq::empty(),
                };
                flushed + md_sections_from(ls, i + 1, Some((h.1, h.0, Seq::empty())))
            },
            None => {
                match cur {
                    Some(t) => md_sections_from(
                        ls,
                        i + 1,
                        Some(
                            (
                                t.0,
                                t.1,
                                if t.2.len() > 0 {
                                    t.2 + seq!['\n'] + ls[i]
                                } else {
                                    ls[i]
                                },
                            ),
                        ),
                    ),
                    None => md_sections_from(ls, i + 1, None),
                }
            },
        }
    }
}

/// The principle sections of a structured document: (short name, long
/// name, guidance) triples in document order.
pub open spec fn md_sections(ls: Seq<Seq<char>>) -> Seq<(Seq<char>, Seq<char>, Seq<char>)> {
    md_sections_from(ls, 0, None)
}

/// Section `i` of an import cannot be added: its short name is taken in
/// the starting registry, or an earlier section already used it.
pub open spec fn section_collides(
    pre: JsonStorage,
    secs: Seq<(Seq<char>, Seq<char>, Seq<char>)>,
    i: int,
) -> bool {
    pre.name_taken(secs[i].0) || (exists|j: int|
        0 <= j < i && (#[trigger] secs[j]).0 == secs[i].0)
}

/// Every section of an import adds cleanly.
pub open spec fn sections_clean(
    pre: JsonStorage,
    secs: Seq<(Seq<char>, Seq<char>, Seq<char>)>,
) -> bool {
    forall|i: int| 0 <= i < secs.len() ==> !(#[trigger] section_collides(pre, secs, i))
}

/// The first `k` sections of an import, appended to the registry: each
/// becomes one principle stamped `now`; everything else is untouched.
pub open spec fn import_prefix_applied(
    pre: JsonStorage,
    post: JsonStorage,
    secs: Seq<(Seq<char>, Seq<char>, Seq<char>)>,
    k: int,
    now: Seq<char>,
) -> bool {
    &&& post.principles@.len() == pre.principles@.len() + k
    &&& post.principles@.subrange(0, pre.principles@.len() as int) == pre.principles@
    &&& forall|t: int|
        0 <= t < k ==> {
            let p = #[trigger] post.principles@[pre.principles@.len() + t];
            &&& p.short_name@ == secs[t].0
            &&& p.long_name@ == secs[t].1
            &&& crate::store::opt_view(p.guidance) == Some(secs[t].2)
            &&& p.last_modified@ == now
        }
    &&& post.commands == pre.commands
    &&& post.entities == pre.entities
    &&& post.asset_types == pre.asset_types
    &&& post.asset_references == pre.asset_references
    &&& post.version == pre.version
    &&& post.created == pre.created
}

/// The error a failing import reports for its first colliding section: a
/// collision on the section's short name, against an earlier section or
/// the starting registry.
pub open spec fn import_error(
    pre: JsonStorage,
    secs: Seq<(Seq<char>, Seq<char>, Seq<char>)>,
    i: int,
    e: VqlError,
) -> bool {
    e matches VqlError::NameCollision { name, existing_kind } && name@ == secs[i].0
        && existing_kind == (
    if pre.has_principle(secs[i].0) || (exists|j: int|
        0 <= j < i && (#[trigger] secs[j]).0 == secs[i].0) {
        ItemKind::Principle
    } else {
        pre.taken_kind(secs[i].0)
    })
}

/// How membership decomposes in a registry extended by applied import
/// sections: the appended principles contribute exactly the emitted
/// short names; the other namespaces are those of the starting registry.
proof fn lemma_import_taken(
    pre: JsonStorage,
    cur: JsonStorage,
    done: Seq<(Seq<char>, Seq<char>, Seq<char>)>,
    n: Seq<char>,
)
    requires
        cur.principles@.len() == pre.principles@.len() + done.len(),
        cur.principles@.subrange(0, pre.principles@.len() as int) == pre.principles@,
        forall|k: int|
            0 <= k < done.len() ==> (#[trigger] cur.principles@[
                pre.principles@.len() + k
            ]).short_name@ == done[k].0,
        cur.entities == pre.entities,
        cur.asset_types == pre.asset_types,
        cur.asset_references == pre.asset_references,
    ensures
        cur.has_principle(n) <==> (pre.has_principle(n) || exists|j: int|
            0 <= j < done.len() && (#[trigger] done[j]).0 == n),
        cur.name_taken(n) <==> (pre.name_taken(n) || exists|j: int|
            0 <= j < done.len() && (#[trigger] done[j]).0 == n),
        !cur.has_principle(n) ==> cur.taken_kind(n) == pre.taken_kind(n),
{
    let base = pre.principles@.len() as int;
    assert(forall|k: int|
        0 <= k < base ==> cur.principles@.subrange(0, base)[k] == cur.principles@[k]);
    assert(forall|k: int| 0 <= k < base ==> cur.principles@[k] == pre.principles@[k]);
    if cur.has_principle(n) {
        let m = choose|m: int|
            0 <= m < cur.principles@.len() && (#[trigger] cur.principles@[m].short_name@) == n;
        if m < base {
            assert(pre.principles@[m].short_name@ == n);
        } else {
            assert(cur.principles@[base + (m - base)].short_name@ == done[m - base].0);
            assert(done[m - base].0 == n);
        }
    }
    if pre.has_principle(n) {
        let m = choose|m: int|
            0 <= m < pre.principles@.len() && (#[trigger] pre.principles@[m].short_name@) == n;
        assert(cur.principles@[m].short_name@ == n);
    }
    if exists|j: int| 0 <= j < done.len() && (#[trigger] done[j]).0 == n {
        let j = choose|j: int| 0 <= j < done.len() && (#[trigger] done[j]).0 == n;
        assert(cur.principles@[base + j].short_name@ == n);
    }
}

/// Bulk-load principles from the lines of a structured-heading document.
/// Each section becomes one `add_principle` with the section body as
/// guidance, in document order.  It succeeds exactly when no section's
/// short name collides — with the registry or with an earlier section;
/// otherwise the first colliding section's error is returned with the
/// earlier sections applied in memory, and the caller is expected to
/// discard the registry value, as nothing has been persisted.
pub fn load_principles_from_lines(st: &mut JsonStorage, lines: &Vec<String>, now: &str) -> (r:
    Result<usize, VqlError>)
    requires
        old(st).wf(),
    ensures
        final(st).wf(),
        r is Err <==> !sections_clean(*old(st), md_sections(str_views(lines@))),
        match r {
            Ok(n) => {
                let secs = md_sections(str_views(lines@));
                &&& n == secs.len()
                &&& import_prefix_applied(*old(st), *final(st), secs, secs.len() as int, now@)
                &&& (secs.len() == 0 ==> *final(st) == *old(st))
                &&& (secs.len() > 0 ==> final(st).last_modified@ == now@)
            },
            Err(e) => {
                let secs = md_sections(str_views(lines@));
                exists|i: int|
                    {
                        &&& 0 <= i < secs.len()
                        &&& #[trigger] section_collides(*old(st), secs, i)
                        &&& forall|j: int| 0 <= j < i ==> !section_collides(*old(st), secs, j)
                        &&& import_prefix_applied(*old(st), *final(st), secs, i, now@)
                        &&& (i == 0 ==> *final(st) == *old(st))
                        &&& (i > 0 ==> final(st).last_modified@ == now@)
                        &&& import_error(*old(st), secs, i, e)
                    }
            },
        },
{
    let ghost ls = str_views(lines@);
    proof {
        assert(forall|k: int| 0 <= k < lines@.len() ==> str_views(lines@)[k] == lines@[k]@);
    }
    let base_x = st.principles.len();
    let mut cur: Option<(String, String, String)> = None;
    let mut i: usize = 0;
    let ghost base = old(st).principles@.len() as int;
    let ghost mut done: Seq<(Seq<char>, Seq<char>, Seq<char>)> = Seq::empty();
    proof {
        assert(st.principles@.subrange(0, base) =~= old(st).principles@);
    }
    while i < lines.len()
        invariant
            st.wf(),
            i <= lines@.len(),
            ls == str_views(lines@),
            forall|k: int| 0 <= k < lines@.len() ==> ls[k] == lines@[k]@,
            base == old(st).principles@.len(),
            base == base_x as int,
            st.principles@.len() == base + done.len(),
            st.principles@.subrange(0, base) == old(st).principles@,
            forall|k: int|
                0 <= k < done.len() ==> {
                    let p = #[trigger] st.principles@[base + k];
                    &&& p.short_name@ == done[k].0
                    &&& p.long_name@ == done[k].1
                    &&& crate::store::opt_view(p.guidance) == Some(done[k].2)
                    &&& p.last_modified@ == now@
                },
            md_sections(ls) == done + md_sections_from(ls, i as int, opt_triple_view(cur)),
            forall|j: int|
                0 <= j < done.len() ==> !(#[trigger] section_collides(
                    *old(st),
                    md_sections(ls),
                    j,
                )),
            done.len() == 0 ==> *st == *old(st),
            done.len() > 0 ==> st.last_modified@ == now@,
            match cur {
                Some(t) => t.0@.len() == 1,
                None => true,
            },
            st.commands == old(st).commands,
            st.entities == old(st).entities,
            st.asset_types == old(st).asset_types,
            st.asset_references == old(st).asset_references,
            st.version == old(st).version,
            st.created == old(st).created,
        decreases lines@.len() - i,
    {
        let lv = chars_of(lines[i].as_str());
        match try_header(&lv) {
            Some(h) => {
                match cur {
                    Some(t) => {
                        let short = t.0;
                        let long = t.1;
                        let content = t.2;
                        let ghost pre_add = *st;
                        proof {
                            lemma_import_taken(*old(st), pre_add, done, short@);
                            assert(forall|t2: int|
                                0 <= t2 < done.len() ==> md_sections(ls)[t2] == done[t2]);
                            assert(md_sections(ls).len() >= done.len() + 1);
                            assert(md_sections(ls)[done.len() as int] == (short@, long@, content@));
                        }
                        match st.add_principle(
                            short.as_str(),
                            long.as_str(),
                            Some(content.as_str()),
                            now,
                        ) {
                            Ok(()) => {
                                proof {
                                    let ghost iw = done.len() as int;
                                    assert(!section_collides(*old(st), md_sections(ls), iw)) by {
                                        if section_collides(*old(st), md_sections(ls), iw) {
                                            if exists|j: int|
                                                0 <= j < iw && (#[trigger] md_sections(
                                                    ls,
                                                )[j]).0 == md_sections(ls)[iw].0 {
                                                let j = choose|j: int|
                                                    0 <= j < iw && (#[trigger] md_sections(
                                                        ls,
                                                    )[j]).0 == md_sections(ls)[iw].0;
                                                assert(done[j].0 == short@);
                                            }
                                            assert(pre_add.name_taken(short@));
                                        }
                                    }
                                    assert(forall|k: int|
                                        0 <= k < st.principles@.len() - 1 ==> st.principles@[k]
                                            == st.principles@.drop_last()[k]);
                                    done = done.push((short@, long@, content@));
                                    assert(st.principles@.subrange(0, base) =~= st.principles@.drop_last().subrange(0, base));
                                }
                            },
                            Err(e) => {
                                proof {
                                    let ghost secs = md_sections(ls);
                                    let ghost iw = done.len() as int;
                                    assert(pre_add.name_taken(short@));
                                    assert(section_collides(*old(st), secs, iw)) by {
                                        if exists|j: int|
                                            0 <= j < done.len() && (#[trigger] done[j]).0
                                                == short@ {
                                            let j = choose|j: int|
                                                0 <= j < done.len() && (#[trigger] done[j]).0
                                                    == short@;
                                            assert(secs[j].0 == secs[iw].0);
                                        }
                                    }
                                    assert(import_prefix_applied(*old(st), *st, secs, iw, now@));
                                    assert(import_error(*old(st), secs, iw, e)) by {
                                        if pre_add.has_principle(short@) {
                                            assert(pre_add.taken_kind(short@)
                                                == ItemKind::Principle);
                                            if !(*old(st)).has_principle(short@) {
                                                let j = choose|j: int|
                                                    0 <= j < done.len() && (#[trigger] done[j]).0
                                                        == short@;
                                                assert(secs[j].0 == secs[iw].0);
                                            }
                                        } else {
                                            if exists|j: int|
                                                0 <= j < iw && (#[trigger] secs[j]).0
                                                    == secs[iw].0 {
                                                let j = choose|j: int|
                                                    0 <= j < iw && (#[trigger] secs[j]).0
                                                        == secs[iw].0;
                                                assert(done[j].0 == short@);
                                                assert(pre_add.has_principle(short@));
                                            }
                                        }
                                    }
                                }
                                return Err(e);
                            },
                        }
                    },
                    None => {},
                }
                proof {
                    assert(h.1@.len() == 1);
                }
                cur = Some((string_from(&h.1), string_from(&h.0), String::new()));
            },
            None => {
                match cur {
                    Some(t) => {
                        let short = t.0;
                        let long = t.1;
                        let mut content = t.2;
                        if !content.as_str().is_empty() {
                            crate::strutil::push_char(&mut content, '\n');
                            content.append(lines[i].as_str());
                            proof {
                                assert(content@ =~= t.2@ + seq!['\n'] + lines@[i as int]@);
                            }
                        } else {
                            content.append(lines[i].as_str());
                            proof {
                                assert(content@ =~= lines@[i as int]@);
                            }
                        }
                        cur = Some((short, long, content));
                    },
                    None => {
                        cur = None;
                    },
                }
            },
        }
        i += 1;
    }
    match cur {
        Some(t) => {
            let short = t.0;
            let long = t.1;
            let content = t.2;
            let ghost pre_add = *st;
            proof {
                lemma_import_taken(*old(st), pre_add, done, short@);
                assert(forall|t2: int|
                    0 <= t2 < done.len() ==> md_sections(ls)[t2] == done[t2]);
                assert(md_sections(ls).len() == done.len() + 1);
                assert(md_sections(ls)[done.len() as int] == (short@, long@, content@));
            }
            match st.add_principle(short.as_str(), long.as_str(), Some(content.as_str()), now) {
                Ok(()) => {
                    proof {
                        let ghost iw = done.len() as int;
                        assert(!section_collides(*old(st), md_sections(ls), iw)) by {
                            if section_collides(*old(st), md_sections(ls), iw) {
                                if exists|j: int|
                                    0 <= j < iw && (#[trigger] md_sections(ls)[j]).0
                                        == md_sections(ls)[iw].0 {
                                    let j = choose|j: int|
                                        0 <= j < iw && (#[trigger] md_sections(ls)[j]).0
                                            == md_sections(ls)[iw].0;
                                    assert(done[j].0 == short@);
                                }
                                assert(pre_add.name_taken(short@));
                            }
                        }
                        assert(forall|k: int|
                            0 <= k < st.principles@.len() - 1 ==> st.principles@[k]
                                == st.principles@.drop_last()[k]);
                        done = done.push((short@, long@, content@));
                        assert(st.principles@.subrange(0, base) =~= st.principles@.drop_last().subrange(0, base));
                        assert(md_sections(ls) =~= done);
                    }
                },
                Err(e) => {
                    proof {
                        let ghost secs = md_sections(ls);
                        let ghost iw = done.len() as int;
                        assert(pre_add.name_taken(short@));
                        assert(section_collides(*old(st), secs, iw)) by {
                            if exists|j: int|
                                0 <= j < done.len() && (#[trigger] done[j]).0 == short@ {
                                let j = choose|j: int|
                                    0 <= j < done.len() && (#[trigger] done[j]).0 == short@;
                                assert(secs[j].0 == secs[iw].0);
                            }
                        }
                        assert(import_prefix_applied(*old(st), *st, secs, iw, now@));
                        assert(import_error(*old(st), secs, iw, e)) by {
                            if pre_add.has_principle(short@) {
                                assert(pre_add.taken_kind(short@) == ItemKind::Principle);
                                if !(*old(st)).has_principle(short@) {
                                    let j = choose|j: int|
                                        0 <= j < done.len() && (#[trigger] done[j]).0 == short@;
                                    assert(secs[j].0 == secs[iw].0);
                                }
                            } else {
                                if exists|j: int|
                                    0 <= j < iw && (#[trigger] secs[j]).0 == secs[iw].0 {
                                    let j = choose|j: int|
                                        0 <= j < iw && (#[trigger] secs[j]).0 == secs[iw].0;
                                    assert(done[j].0 == short@);
                                    assert(pre_add.has_principle(short@));
                                }
                            }
                        }
                    }
                    return Err(e);
                },
            }
        },
        None => {
            proof {
                assert(done + Seq::<(Seq<char>, Seq<char>, Seq<char>)>::empty() =~= done);
            }
        },
    }
    proof {
        assert(md_sections(ls) == done);
        assert(st.principles@.subrange(0, base) == old(st).principles@);
        assert(sections_clean(*old(st), md_sections(ls)));
        assert(import_prefix_applied(
            *old(st),
            *st,
            md_sections(ls),
            md_sections(ls).len() as int,
            now@,
        ));
    }
    let count = st.principles.len() - base_x;
    Ok(count)
}

/// The view of an open import section.
pub open spec fn opt_triple_view(cur: Option<(String, String, String)>) -> Option<
    (Seq<char>, Seq<char>, Seq<char>),
> {
    match cur {
        Some(t) => Some((t.0@, t.1@, t.2@)),
        None => None,
    }
}

/// A refactor-argument piece that reads as a principle selector: the
/// wildcard verb or an existing principle name.
pub open spec fn princ_piece(p: Seq<char>, st: JsonStorage) -> bool {
    p == "-pr"@ || st.has_principle(p)
}

/// The number of leading principle pieces of a refactor argument list.
pub open spec fn lead_princ(ps: Seq<Seq<char>>, st: JsonStorage) -> int
    decreases ps.len(),
{
    if ps.len() == 0 || !princ_piece(ps[0], st) {
        0
    } else {
        1 + lead_princ(ps.drop_first(), st)
    }
}

/// The selector string a refactor argument hands to the principle-list
/// parser, if any: with commas, the leading principle pieces rejoined;
/// without, the whole argument, unless it plainly names one reference
/// asset.
pub open spec fn refactor_selector(args: Seq<char>, st: JsonStorage) -> Option<Seq<char>> {
    if crate::strutil::find_ch(args, ',') != -1 {
        let ps = split_trimmed(args, ',');
        let k = lead_princ(ps, st);
        if k == 0 {
            None
        } else {
            Some(join_with(ps.take(k), ","@))
        }
    } else if crate::strutil::find_ch(args, '*') == -1 && !crate::strutil::contains_sub(
        args,
        "-pr"@,
    ) && st.has_asset(trimmed(args)) {
        None
    } else {
        Some(args)
    }
}

/// The reference assets a refactor argument names.
pub open spec fn refactor_refs(args: Seq<char>, st: JsonStorage) -> Seq<Seq<char>> {
    if crate::strutil::find_ch(args, ',') != -1 {
        let ps = split_trimmed(args, ',');
        ps.skip(lead_princ(ps, st))
    } else if crate::strutil::find_ch(args, '*') == -1 && !crate::strutil::contains_sub(
        args,
        "-pr"@,
    ) && st.has_asset(trimmed(args)) {
        seq![trimmed(args)]
    } else {
        Seq::empty()
    }
}

/// The principles a refactor argument resolves to.
pub open spec fn refactor_plist(args: Seq<char>, st: JsonStorage) -> Seq<Seq<char>> {
    if crate::strutil::find_ch(args, ',') != -1 {
        let ps = split_trimmed(args, ',');
        let k = lead_princ(ps, st);
        if k == 0 {
            Seq::empty()
        } else {
            principle_list_of(join_with(ps.take(k), ","@), st)
        }
    } else if crate::strutil::find_ch(args, '*') == -1 && !crate::strutil::contains_sub(
        args,
        "-pr"@,
    ) && st.has_asset(trimmed(args)) {
        st.asset_of(trimmed(args)).principle_reviews@.map_values(
            |pr: (String, crate::store::Review)| pr.0@,
        )
    } else {
        principle_list_of(args, st)
    }
}

/// A refactor argument fails exactly when the selector it hands on
/// fails.
pub open spec fn refactor_err(args: Seq<char>, st: JsonStorage) -> bool {
    match refactor_selector(args, st) {
        Some(a) => plist_err(a, st),
        None => false,
    }
}

/// The number of leading principle pieces, executably.
fn lead_princ_x(pieces: &Vec<Vec<char>>, st: &JsonStorage) -> (k: usize)
    ensures
        k == lead_princ(crate::strutil::views(pieces@), *st),
        k <= pieces@.len(),
{
    let ghost vs = crate::strutil::views(pieces@);
    proof {
        assert(forall|t: int| 0 <= t < pieces@.len() ==> vs[t] == pieces@[t]@);
        assert(vs.skip(0) =~= vs);
    }
    let mut i: usize = 0;
    while i < pieces.len() && (eq_str(&pieces[i], "-pr") || st.principle_exists(
        string_from(&pieces[i]).as_str(),
    ))
        invariant
            i <= pieces@.len(),
            vs == crate::strutil::views(pieces@),
            forall|t: int| 0 <= t < pieces@.len() ==> vs[t] == pieces@[t]@,
            lead_princ(vs, *st) == i + lead_princ(vs.skip(i as int), *st),
        decreases pieces@.len() - i,
    {
        proof {
            assert(vs.skip(i as int)[0] == vs[i as int]);
            assert(vs.skip(i as int).drop_first() =~= vs.skip(i + 1));
        }
        i += 1;
    }
    proof {
        if i < pieces@.len() {
            assert(vs.skip(i as int)[0] == vs[i as int]);
        } else {
            assert(vs.skip(i as int) =~= Seq::<Seq<char>>::empty());
        }
        assert(lead_princ(vs.skip(i as int), *st) == 0);
    }
    i
}

/// The principle records behind a list of known names, in list order.
fn principle_records(st: &JsonStorage, names: &Vec<String>) -> (out: Vec<Principle>)
    requires
        st.wf(),
        forall|i: int| 0 <= i < names@.len() ==> st.has_principle(#[trigger] names@[i]@),
    ensures
        out@.len() == names@.len(),
        forall|i: int|
            0 <= i < names@.len() ==> (#[trigger] out@[i]) == st.principle_of(names@[i]@),
{
    let mut out: Vec<Principle> = Vec::new();
    let mut i: usize = 0;
    while i < names.len()
        invariant
            st.wf(),
            i <= names@.len(),
            forall|k: int| 0 <= k < names@.len() ==> st.has_principle(#[trigger] names@[k]@),
            out@.len() == i,
            forall|k: int| 0 <= k < i ==> (#[trigger] out@[k]) == st.principle_of(names@[k]@),
        decreases names@.len() - i,
    {
        if let Some(p) = st.get_principle(names[i].as_str()) {
            out.push(crate::store::clone_principle(p));
        } else {
            proof {
                assert(false);
            }
        }
        i += 1;
    }
    out
}

/// The review keys of one asset, in stored order.
fn review_keys_vec(a: &AssetReference) -> (out: Vec<String>)
    ensures
        str_views(out@) == a.principle_reviews@.map_values(
            |pr: (String, crate::store::Review)| pr.0@,
        ),
{
    let mut out: Vec<String> = Vec::new();
    let mut i: usize = 0;
    while i < a.principle_reviews.len()
        invariant
            i <= a.principle_reviews@.len(),
            out@.len() == i,
            forall|k: int| 0 <= k < i ==> (#[trigger] out@[k]@) == a.principle_reviews@[k].0@,
        decreases a.principle_reviews@.len() - i,
    {
        out.push(a.principle_reviews[i].0.clone());
        i += 1;
    }
    proof {
        assert(str_views(out@) =~= a.principle_reviews@.map_values(
            |pr: (String, crate::store::Review)| pr.0@,
        ));
    }
    out
}

/// Two asset lists carry the same content, element for element.
pub open spec fn assets_match(s: Seq<AssetReference>, t: Seq<AssetReference>) -> bool {
    s.len() == t.len() && forall|k: int|
        0 <= k < s.len() ==> crate::store::same_asset(#[trigger] s[k], t[k])
}

/// The records `recs` are exactly the principles behind `names`.
pub open spec fn principle_records_match(
    recs: Seq<Principle>,
    names: Seq<Seq<char>>,
    st: JsonStorage,
) -> bool {
    recs.len() == names.len() && forall|i: int|
        0 <= i < names.len() ==> (#[trigger] recs[i]) == st.principle_of(names[i])
}

/// The rating letter of a compliance flag, upper-cased; `None` when the
/// flag is not one of H, M, L in either case.
pub open spec fn sc_upper(s: Seq<char>) -> Option<Seq<char>> {
    if s == "H"@ || s == "h"@ {
        Some("H"@)
    } else if s == "M"@ || s == "m"@ {
        Some("M"@)
    } else if s == "L"@ || s == "l"@ {
        Some("L"@)
    } else {
        None
    }
}

/// Every principle short name names a principle.
proof fn lemma_principle_names_known(st: JsonStorage)
    ensures
        forall|i: int|
            0 <= i < st.principle_names().len() ==> st.has_principle(
                #[trigger] st.principle_names()[i],
            ),
{
    assert forall|i: int|
        0 <= i < st.principle_names().len() implies st.has_principle(
        #[trigger] st.principle_names()[i],
    ) by {
        assert(st.principle_names()[i] == st.principles@[i].short_name@);
    }
}

/// When every non-empty piece is known, so is every selected name.
proof fn lemma_dedup_known(ps: Seq<Seq<char>>, st: JsonStorage)
    requires
        pieces_known(ps, st),
    ensures
        forall|i: int|
            0 <= i < dedup_pieces(ps).len() ==> st.has_principle(#[trigger] dedup_pieces(ps)[i]),
    decreases ps.len(),
{
    if ps.len() > 0 {
        assert(forall|k: int| 0 <= k < ps.len() - 1 ==> ps.drop_last()[k] == ps[k]);
        lemma_dedup_known(ps.drop_last(), st);
        let rest = dedup_pieces(ps.drop_last());
        if !(ps.last().len() == 0 || rest.contains(ps.last())) {
            assert(forall|i: int|
                0 <= i < rest.len() ==> rest.push(ps.last())[i] == rest[i]);
        }
    }
}

/// The selected names of a successful selector all name principles.
proof fn lemma_plist_known(args: Seq<char>, st: JsonStorage)
    requires
        !plist_err(args, st),
    ensures
        forall|i: int|
            0 <= i < principle_list_of(args, st).len() ==> st.has_principle(
                #[trigger] principle_list_of(args, st)[i],
            ),
{
    if wildcard(args) {
        lemma_principle_names_known(st);
    } else {
        lemma_dedup_known(split_trimmed(args, ','), st);
    }
}

/// Whether one dispatched command must fail on the given registry.
pub open spec fn dispatch_fails(pre: JsonStorage, cv: crate::grammar::CommandV) -> bool {
    match cv {
        crate::grammar::CommandV::AddPrinciple { short_name, .. } => short_name.len() != 1
            || pre.name_taken(short_name),
        crate::grammar::CommandV::AddEntity { short_name, .. } => pre.name_taken(short_name),
        crate::grammar::CommandV::AddAssetType { short_name, .. } => short_name.len() != 1
            || pre.name_taken(short_name),
        crate::grammar::CommandV::AddAssetReference { short_name, entity, asset_type, .. } => {
            pre.name_taken(short_name) || !pre.has_entity(entity) || !pre.has_asset_type(
                asset_type,
            )
        },
        crate::grammar::CommandV::ShowAsset { name, .. } => !pre.has_asset(name),
        crate::grammar::CommandV::StoreReview { asset, principle, .. } => !pre.has_asset(asset)
            || !pre.has_principle(principle),
        crate::grammar::CommandV::SetExemplar { asset, value } => exemplar_flag(value) is None
            || !pre.has_asset(asset),
        crate::grammar::CommandV::SetCompliance { asset, principle, rating } => sc_upper(rating)
            is None || !pre.has_asset(asset) || !pre.has_principle(principle),
        crate::grammar::CommandV::RenamePrinciple { old_name, new_name } => !pre.has_principle(
            old_name,
        ) || pre.name_taken(new_name),
        crate::grammar::CommandV::RenameEntity { old_name, new_name } => !pre.has_entity(old_name)
            || pre.name_taken(new_name),
        crate::grammar::CommandV::RenameAssetType { old_name, new_name } => !pre.has_asset_type(
            old_name,
        ) || pre.name_taken(new_name),
        crate::grammar::CommandV::RenameAssetReference { old_name, new_name } => !pre.has_asset(
            old_name,
        ) || pre.name_taken(new_name),
        crate::grammar::CommandV::RenameGeneric { old_name, new_name } => !pre.name_taken(
            old_name,
        ) || pre.name_taken(new_name),
        crate::grammar::CommandV::DeletePrinciple { name } => !pre.has_principle(name),
        crate::grammar::CommandV::DeleteEntity { name } => !pre.has_entity(name) || uses_entity(
            pre.asset_references@,
            name,
        ),
        crate::grammar::CommandV::DeleteAssetType { name } => !pre.has_asset_type(name)
            || uses_type(pre.asset_references@, name),
        crate::grammar::CommandV::DeleteAssetReference { name } => !pre.has_asset(name),
        crate::grammar::CommandV::DeleteGeneric { name } => {
            ||| !pre.name_taken(name)
            ||| (pre.taken_kind(name) == ItemKind::Entity && uses_entity(
                pre.asset_references@,
                name,
            ))
            ||| (pre.taken_kind(name) == ItemKind::AssetType && uses_type(
                pre.asset_references@,
                name,
            ))
        },
        crate::grammar::CommandV::ReviewAsset { asset, args } => !pre.has_asset(asset)
            || plist_err(args, pre),
        crate::grammar::CommandV::RefactorAsset { asset, args } => refactor_err(args, pre)
            || !pre.has_asset(asset),
        crate::grammar::CommandV::GlobalReview { args } => plist_err(args, pre)
            || pre.asset_references@.len() == 0,
        crate::grammar::CommandV::GlobalRefactor { args } => plist_err(args, pre)
            || pre.asset_references@.len() == 0,
        _ => false,
    }
}

/// Which error a failing dispatch reports.
pub open spec fn dispatch_err_val(pre: JsonStorage, cv: crate::grammar::CommandV, e: VqlError) -> bool {
    match cv {
        crate::grammar::CommandV::AddPrinciple { short_name, .. } => {
            if short_name.len() != 1 {
                crate::errors::is_invalid_short_name(e, ItemKind::Principle, short_name)
            } else {
                crate::errors::is_collision(e, short_name, pre.taken_kind(short_name))
            }
        },
        crate::grammar::CommandV::AddEntity { short_name, .. } => crate::errors::is_collision(
            e,
            short_name,
            pre.taken_kind(short_name),
        ),
        crate::grammar::CommandV::AddAssetType { short_name, .. } => {
            if short_name.len() != 1 {
                crate::errors::is_invalid_short_name(e, ItemKind::AssetType, short_name)
            } else {
                crate::errors::is_collision(e, short_name, pre.taken_kind(short_name))
            }
        },
        crate::grammar::CommandV::AddAssetReference { short_name, entity, asset_type, .. } => {
            if pre.name_taken(short_name) {
                crate::errors::is_collision(e, short_name, pre.taken_kind(short_name))
            } else if !pre.has_entity(entity) {
                e matches VqlError::UnknownEntity { name } && name@ == entity
            } else {
                e matches VqlError::UnknownAssetType { name } && name@ == asset_type
            }
        },
        crate::grammar::CommandV::ShowAsset { name, .. } => crate::errors::is_not_found(
            e,
            ItemKind::Asset,
            name,
        ),
        crate::grammar::CommandV::StoreReview { asset, principle, .. } => {
            if !pre.has_asset(asset) {
                crate::errors::is_not_found(e, ItemKind::Asset, asset)
            } else {
                e matches VqlError::UnknownPrinciple { name, available } && name@ == principle
                    && str_views(available@) == pre.principle_names()
            }
        },
        crate::grammar::CommandV::SetExemplar { asset, value } => {
            if exemplar_flag(value) is None {
                e matches VqlError::InvalidExemplarFlag { value: v } && v@ == value
            } else {
                crate::errors::is_not_found(e, ItemKind::Asset, asset)
            }
        },
        crate::grammar::CommandV::SetCompliance { asset, principle, rating } => {
            if sc_upper(rating) is None {
                e matches VqlError::InvalidRating { rating: r } && r@ == rating
            } else if !pre.has_asset(asset) {
                crate::errors::is_not_found(e, ItemKind::Asset, asset)
            } else {
                e matches VqlError::UnknownPrinciple { name, available } && name@ == principle
                    && str_views(available@) == pre.principle_names()
            }
        },
        crate::grammar::CommandV::RenamePrinciple { old_name, new_name } => {
            if !pre.has_principle(old_name) {
                crate::errors::is_not_found(e, ItemKind::Principle, old_name)
            } else {
                crate::errors::is_collision(e, new_name, pre.taken_kind(new_name))
            }
        },
        crate::grammar::CommandV::RenameEntity { old_name, new_name } => {
            if !pre.has_entity(old_name) {
                crate::errors::is_not_found(e, ItemKind::Entity, old_name)
            } else {
                crate::errors::is_collision(e, new_name, pre.taken_kind(new_name))
            }
        },
        crate::grammar::CommandV::RenameAssetType { old_name, new_name } => {
            if !pre.has_asset_type(old_name) {
                crate::errors::is_not_found(e, ItemKind::AssetType, old_name)
            } else {
                crate::errors::is_collision(e, new_name, pre.taken_kind(new_name))
            }
        },
        crate::grammar::CommandV::RenameAssetReference { old_name, new_name } => {
            if !pre.has_asset(old_name) {
                crate::errors::is_not_found(e, ItemKind::Asset, old_name)
            } else {
                crate::errors::is_collision(e, new_name, pre.taken_kind(new_name))
            }
        },
        crate::grammar::CommandV::RenameGeneric { old_name, new_name } => {
            if !pre.name_taken(old_name) {
                e matches VqlError::UnknownItem { name } && name@ == old_name
            } else {
                crate::errors::is_collision(e, new_name, pre.taken_kind(new_name))
            }
        },
        crate::grammar::CommandV::DeletePrinciple { name } => crate::errors::is_not_found(
            e,
            ItemKind::Principle,
            name,
        ),
        crate::grammar::CommandV::DeleteEntity { name } => {
            if !pre.has_entity(name) {
                crate::errors::is_not_found(e, ItemKind::Entity, name)
            } else {
                crate::errors::is_in_use(
                    e,
                    ItemKind::Entity,
                    name,
                    entity_users(pre.asset_references@, name),
                )
            }
        },
        crate::grammar::CommandV::DeleteAssetType { name } => {
            if !pre.has_asset_type(name) {
                crate::errors::is_not_found(e, ItemKind::AssetType, name)
            } else {
                crate::errors::is_in_use(
                    e,
                    ItemKind::AssetType,
                    name,
                    type_users(pre.asset_references@, name),
                )
            }
        },
        crate::grammar::CommandV::DeleteAssetReference { name } => crate::errors::is_not_found(
            e,
            ItemKind::Asset,
            name,
        ),
        crate::grammar::CommandV::DeleteGeneric { name } => {
            if !pre.name_taken(name) {
                e matches VqlError::UnknownItem { name: n } && n@ == name
            } else if pre.taken_kind(name) == ItemKind::Entity {
                crate::errors::is_in_use(
                    e,
                    ItemKind::Entity,
                    name,
                    entity_users(pre.asset_references@, name),
                )
            } else {
                crate::errors::is_in_use(
                    e,
                    ItemKind::AssetType,
                    name,
                    type_users(pre.asset_references@, name),
                )
            }
        },
        crate::grammar::CommandV::ReviewAsset { asset, args } => {
            if !pre.has_asset(asset) {
                e matches VqlError::UnknownAsset { name, available } && name@ == asset
                    && str_views(available@) == pre.asset_names()
            } else {
                plist_err_val(args, pre, e)
            }
        },
        crate::grammar::CommandV::RefactorAsset { asset, args } => {
            if refactor_err(args, pre) {
                match refactor_selector(args, pre) {
                    Some(a) => plist_err_val(a, pre, e),
                    None => false,
                }
            } else {
                e matches VqlError::UnknownAsset { name, available } && name@ == asset
                    && str_views(available@) == pre.asset_names()
            }
        },
        crate::grammar::CommandV::GlobalReview { args } => {
            if plist_err(args, pre) {
                plist_err_val(args, pre, e)
            } else {
                e == VqlError::NoAssets
            }
        },
        crate::grammar::CommandV::GlobalRefactor { args } => {
            if plist_err(args, pre) {
                plist_err_val(args, pre, e)
            } else {
                e == VqlError::NoAssets
            }
        },
        _ => false,
    }
}

/// What a successful dispatch did: the registry transition and the
/// outcome data, per command.
pub open spec fn dispatch_ok(
    pre: JsonStorage,
    post: JsonStorage,
    cv: crate::grammar::CommandV,
    out: Outcome,
    now: Seq<char>,
) -> bool {
    match cv {
        crate::grammar::CommandV::VqlMode { on } => post == pre && out == (Outcome::ModeSet { on }),
        crate::grammar::CommandV::InterfaceMode { mcp } => post == pre && out == (
        Outcome::InterfaceSet { mcp }),
        crate::grammar::CommandV::ListAll => post == pre && (out matches Outcome::Everything {
            principles,
            entities,
            asset_types,
            assets,
        } && principles@ == pre.principles@ && entities@ == pre.entities@ && asset_types@
            == pre.asset_types@ && assets_match(assets@, pre.asset_references@)),
        crate::grammar::CommandV::ListPrinciples => post == pre && (out matches
        Outcome::Principles { principles } && principles@ == pre.principles@),
        crate::grammar::CommandV::ListEntities => post == pre && (out matches Outcome::Entities {
            entities,
        } && entities@ == pre.entities@),
        crate::grammar::CommandV::ListAssetTypes => post == pre && (out matches
        Outcome::AssetTypes { asset_types } && asset_types@ == pre.asset_types@),
        crate::grammar::CommandV::ListAssetReferences => post == pre && (out matches
        Outcome::Assets { assets } && assets_match(assets@, pre.asset_references@)),
        crate::grammar::CommandV::AddPrinciple { short_name, long_name, guidance } => {
            &&& crate::store::principle_added(pre, post, short_name, long_name, guidance, now)
            &&& out matches Outcome::Added { kind, name } && kind == ItemKind::Principle && name@
                == short_name
        },
        crate::grammar::CommandV::AddEntity { short_name, description } => {
            &&& crate::store::entity_added(pre, post, short_name, description, now)
            &&& out matches Outcome::Added { kind, name } && kind == ItemKind::Entity && name@
                == short_name
        },
        crate::grammar::CommandV::AddAssetType { short_name, description } => {
            &&& crate::store::asset_type_added(pre, post, short_name, description, now)
            &&& out matches Outcome::Added { kind, name } && kind == ItemKind::AssetType && name@
                == short_name
        },
        crate::grammar::CommandV::AddAssetReference { short_name, entity, asset_type, path } => {
            &&& crate::store::asset_added(pre, post, short_name, entity, asset_type, path, now)
            &&& out matches Outcome::Added { kind, name } && kind == ItemKind::Asset && name@
                == short_name
        },
        crate::grammar::CommandV::LoadPrinciples { path } => post == pre && (out matches
        Outcome::PrinciplesLoadRequested { path: p } && p@ == path),
        crate::grammar::CommandV::Setup { path } => post == pre && (out matches
        Outcome::SetupRequested { path: p } && crate::store::opt_view(p) == path),
        crate::grammar::CommandV::ShowAsset { name, principles } => {
            &&& post == pre
            &&& pre.has_asset(name)
            &&& out matches Outcome::AssetInfo { asset, selected } && crate::store::same_asset(
                asset,
                pre.asset_of(name),
            ) && (match principles {
                None => selected is None,
                Some(sel) => selected matches Some(ss) && str_views(ss@) == (
                if crate::strutil::find_ch(sel, ',') != -1 {
                    split_trimmed(sel, ',')
                } else {
                    seq![sel]
                }),
            })
        },
        crate::grammar::CommandV::StoreReview { asset, principle, content } => {
            &&& crate::store::review_stored(
                pre,
                post,
                asset,
                principle,
                extracted_rating(content),
                content,
                now,
            )
            &&& out matches Outcome::ReviewStored { asset: a, principle: p, rating } && a@ == asset
                && p@ == principle && crate::store::opt_view(rating) == extracted_rating(content)
        },
        crate::grammar::CommandV::SetExemplar { asset, value } => {
            &&& exemplar_flag(value) matches Some(b) && crate::store::exemplar_set(
                pre,
                post,
                asset,
                b,
                now,
            ) && (out matches Outcome::ExemplarMarked { asset: a, value: vb } && a@ == asset && vb
                == b)
        },
        crate::grammar::CommandV::SetCompliance { asset, principle, rating } => {
            &&& sc_upper(rating) matches Some(u) && crate::store::review_stored(
                pre,
                post,
                asset,
                principle,
                Some(u),
                ""@,
                now,
            ) && (out matches Outcome::ComplianceSet { asset: a, principle: p, rating: r } && a@
                == asset && p@ == principle && r@ == u)
        },
        crate::grammar::CommandV::RenamePrinciple { old_name, new_name } => {
            &&& crate::store::principle_renamed(pre, post, old_name, new_name, now)
            &&& out matches Outcome::Renamed { kind, old_name: o, new_name: n, affected } && kind
                == ItemKind::Principle && o@ == old_name && n@ == new_name && str_views(affected@)
                == crate::store::review_holders(pre.asset_references@, old_name)
        },
        crate::grammar::CommandV::RenameEntity { old_name, new_name } => {
            &&& crate::store::entity_renamed(pre, post, old_name, new_name, now)
            &&& out matches Outcome::Renamed { kind, old_name: o, new_name: n, affected } && kind
                == ItemKind::Entity && o@ == old_name && n@ == new_name && str_views(affected@)
                == entity_users(pre.asset_references@, old_name)
        },
        crate::grammar::CommandV::RenameAssetType { old_name, new_name } => {
            &&& crate::store::asset_type_renamed(pre, post, old_name, new_name, now)
            &&& out matches Outcome::Renamed { kind, old_name: o, new_name: n, affected } && kind
                == ItemKind::AssetType && o@ == old_name && n@ == new_name && str_views(affected@)
                == type_users(pre.asset_references@, old_name)
        },
        crate::grammar::CommandV::RenameAssetReference { old_name, new_name } => {
            &&& crate::store::asset_renamed(pre, post, old_name, new_name, now)
            &&& out matches Outcome::Renamed { kind, old_name: o, new_name: n, affected } && kind
                == ItemKind::Asset && o@ == old_name && n@ == new_name && affected@.len() == 0
        },
        crate::grammar::CommandV::RenameGeneric { old_name, new_name } => {
            &&& pre.name_taken(old_name)
            &&& match pre.taken_kind(old_name) {
                ItemKind::Principle => crate::store::principle_renamed(
                    pre,
                    post,
                    old_name,
                    new_name,
                    now,
                ) && (out matches Outcome::Renamed { kind, old_name: o, new_name: n, affected }
                    && kind == ItemKind::Principle && o@ == old_name && n@ == new_name
                    && str_views(affected@) == crate::store::review_holders(
                    pre.asset_references@,
                    old_name,
                )),
                ItemKind::Entity => crate::store::entity_renamed(
                    pre,
                    post,
                    old_name,
                    new_name,
                    now,
                ) && (out matches Outcome::Renamed { kind, old_name: o, new_name: n, affected }
                    && kind == ItemKind::Entity && o@ == old_name && n@ == new_name && str_views(
                    affected@,
                ) == entity_users(pre.asset_references@, old_name)),
                ItemKind::AssetType => crate::store::asset_type_renamed(
                    pre,
                    post,
                    old_name,
                    new_name,
                    now,
                ) && (out matches Outcome::Renamed { kind, old_name: o, new_name: n, affected }
                    && kind == ItemKind::AssetType && o@ == old_name && n@ == new_name
                    && str_views(affected@) == type_users(pre.asset_references@, old_name)),
                _ => crate::store::asset_renamed(pre, post, old_name, new_name, now) && (out
                    matches Outcome::Renamed { kind, old_name: o, new_name: n, affected } && kind
                    == ItemKind::Asset && o@ == old_name && n@ == new_name && affected@.len()
                    == 0),
            }
        },
        crate::grammar::CommandV::DeletePrinciple { name } => {
            &&& crate::store::principle_deleted(pre, post, name, now)
            &&& out matches Outcome::PrincipleDeleted { name: n, affected } && n@ == name
                && str_views(affected@) == crate::store::review_holders(
                pre.asset_references@,
                name,
            )
        },
        crate::grammar::CommandV::DeleteEntity { name } => {
            &&& crate::store::entity_deleted(pre, post, name, now)
            &&& out matches Outcome::EntityDeleted { name: n } && n@ == name
        },
        crate::grammar::CommandV::DeleteAssetType { name } => {
            &&& crate::store::asset_type_deleted(pre, post, name, now)
            &&& out matches Outcome::AssetTypeDeleted { name: n } && n@ == name
        },
        crate::grammar::CommandV::DeleteAssetReference { name } => {
            &&& crate::store::asset_deleted(pre, post, name, now)
            &&& out matches Outcome::AssetDeleted { name: n, removed_reviews } && n@ == name
                && removed_reviews == pre.asset_of(name).principle_reviews@.len()
        },
        crate::grammar::CommandV::DeleteGeneric { name } => {
            &&& pre.name_taken(name)
            &&& match pre.taken_kind(name) {
                ItemKind::Principle => crate::store::principle_deleted(pre, post, name, now) && (
                out matches Outcome::PrincipleDeleted { name: n, affected } && n@ == name
                    && str_views(affected@) == crate::store::review_holders(
                    pre.asset_references@,
                    name,
                )),
                ItemKind::Entity => crate::store::entity_deleted(pre, post, name, now) && (out
                    matches Outcome::EntityDeleted { name: n } && n@ == name),
                ItemKind::AssetType => crate::store::asset_type_deleted(pre, post, name, now) && (
                out matches Outcome::AssetTypeDeleted { name: n } && n@ == name),
                _ => crate::store::asset_deleted(pre, post, name, now) && (out matches
                    Outcome::AssetDeleted { name: n, removed_reviews } && n@ == name
                    && removed_reviews == pre.asset_of(name).principle_reviews@.len()),
            }
        },
        crate::grammar::CommandV::ReviewAsset { asset, args } => {
            &&& post == pre
            &&& pre.has_asset(asset)
            &&& out matches Outcome::Instructions {
                refactor,
                asset: a,
                assets,
                principles,
                references,
            } && refactor == false && (a matches Some(ar) && crate::store::same_asset(
                ar,
                pre.asset_of(asset),
            )) && assets@.len() == 0 && principle_records_match(
                principles@,
                principle_list_of(args, pre),
                pre,
            ) && references@.len() == 0
        },
        crate::grammar::CommandV::RefactorAsset { asset, args } => {
            &&& post == pre
            &&& pre.has_asset(asset)
            &&& out matches Outcome::Instructions {
                refactor,
                asset: a,
                assets,
                principles,
                references,
            } && refactor == true && (a matches Some(ar) && crate::store::same_asset(
                ar,
                pre.asset_of(asset),
            )) && assets@.len() == 0 && principle_records_match(
                principles@,
                refactor_plist(args, pre),
                pre,
            ) && str_views(references@) == refactor_refs(args, pre)
        },
        crate::grammar::CommandV::GlobalReview { args } => {
            &&& post == pre
            &&& out matches Outcome::Instructions {
                refactor,
                asset: a,
                assets,
                principles,
                references,
            } && refactor == false && a is None && assets_match(assets@, pre.asset_references@)
                && principle_records_match(principles@, principle_list_of(args, pre), pre)
                && references@.len() == 0
        },
        crate::grammar::CommandV::GlobalRefactor { args } => {
            &&& post == pre
            &&& out matches Outcome::Instructions {
                refactor,
                asset: a,
                assets,
                principles,
                references,
            } && refactor == true && a is None && assets_match(assets@, pre.asset_references@)
                && principle_records_match(principles@, principle_list_of(args, pre), pre)
                && references@.len() == 0
        },
    }
}

/// Bind one parsed command to its store operation: validate, mutate on
/// success only, and report the outcome data.
#[verifier::rlimit(50)]
pub fn dispatch(st: &mut JsonStorage, cmd: Command, now: &str) -> (r: Result<Outcome, VqlError>)
    requires
        old(st).wf(),
    ensures
        final(st).wf(),
        match r {
            Ok(out) => !dispatch_fails(*old(st), crate::grammar::cview(cmd)) && dispatch_ok(
                *old(st),
                *final(st),
                crate::grammar::cview(cmd),
                out,
                now@,
            ),
            Err(e) => *final(st) == *old(st) && dispatch_fails(
                *old(st),
                crate::grammar::cview(cmd),
            ) && dispatch_err_val(*old(st), crate::grammar::cview(cmd), e),
        },
{
    match cmd {
        Command::VqlMode { on } => Ok(Outcome::ModeSet { on }),
        Command::InterfaceMode { mcp } => Ok(Outcome::InterfaceSet { mcp }),
        Command::ListAll => Ok(
            Outcome::Everything {
                principles: st.principles_snapshot(),
                entities: st.entities_snapshot(),
                asset_types: st.asset_types_snapshot(),
                assets: st.assets_snapshot(),
            },
        ),
        Command::ListPrinciples => Ok(Outcome::Principles { principles: st.principles_snapshot() }),
        Command::ListEntities => Ok(Outcome::Entities { entities: st.entities_snapshot() }),
        Command::ListAssetTypes => Ok(
            Outcome::AssetTypes { asset_types: st.asset_types_snapshot() },
        ),
        Command::ListAssetReferences => Ok(Outcome::Assets { assets: st.assets_snapshot() }),
        Command::AddPrinciple { short_name, long_name, guidance } => {
            let g: Option<&str> = match &guidance {
                Some(s) => Some(s.as_str()),
                None => None,
            };
            match st.add_principle(short_name.as_str(), long_name.as_str(), g, now) {
                Ok(()) => Ok(Outcome::Added { kind: ItemKind::Principle, name: short_name }),
                Err(e) => Err(e),
            }
        },
        Command::AddEntity { short_name, description } => {
            match st.add_entity(short_name.as_str(), description.as_str(), now) {
                Ok(()) => Ok(Outcome::Added { kind: ItemKind::Entity, name: short_name }),
                Err(e) => Err(e),
            }
        },
        Command::AddAssetType { short_name, description } => {
            match st.add_asset_type(short_name.as_str(), description.as_str(), now) {
                Ok(()) => Ok(Outcome::Added { kind: ItemKind::AssetType, name: short_name }),
                Err(e) => Err(e),
            }
        },
        Command::AddAssetReference { short_name, entity, asset_type, path } => {
            match st.add_asset_reference(
                short_name.as_str(),
                entity.as_str(),
                asset_type.as_str(),
                path.as_str(),
                now,
            ) {
                Ok(()) => Ok(Outcome::Added { kind: ItemKind::Asset, name: short_name }),
                Err(e) => Err(e),
            }
        },
        Command::LoadPrinciples { path } => Ok(Outcome::PrinciplesLoadRequested { path }),
        Command::Setup { path } => Ok(Outcome::SetupRequested { path }),
        Command::ShowAsset { name, principles } => {
            let a = match st.get_asset(name.as_str()) {
                Some(a) => crate::store::clone_asset(a),
                None => {
                    return Err(VqlError::NotFound { kind: ItemKind::Asset, name });
                },
            };
            let selected: Option<Vec<String>> = match &principles {
                None => None,
                Some(sel) => {
                    let sv = chars_of(sel.as_str());
                    if find_from(&sv, 0, ',').is_some() {
                        proof {
                            crate::strutil::lemma_find_ch(sv@, ',');
                        }
                        let pieces = split_trimmed_vec(&sv, ',');
                        let mut ss: Vec<String> = Vec::new();
                        let mut i: usize = 0;
                        while i < pieces.len()
                            invariant
                                i <= pieces@.len(),
                                ss@.len() == i,
                                forall|k: int|
                                    0 <= k < i ==> (#[trigger] ss@[k]@) == pieces@[k]@,
                            decreases pieces@.len() - i,
                        {
                            ss.push(string_from(&pieces[i]));
                            i += 1;
                        }
                        proof {
                            assert(str_views(ss@) =~= crate::strutil::views(pieces@));
                        }
                        Some(ss)
                    } else {
                        proof {
                            crate::strutil::lemma_find_ch(sv@, ',');
                        }
                        let mut ss: Vec<String> = Vec::new();
                        ss.push(sel.clone());
                        proof {
                            assert(str_views(ss@) =~= seq![sel@]);
                        }
                        Some(ss)
                    }
                },
            };
            Ok(Outcome::AssetInfo { asset: a, selected })
        },
        Command::StoreReview { asset, principle, content } => {
            let rating = extract_rating_from_text(content.as_str());
            let rref: Option<&str> = match &rating {
                Some(s) => Some(s.as_str()),
                None => None,
            };
            match st.store_asset_review(
                asset.as_str(),
                principle.as_str(),
                rref,
                content.as_str(),
                now,
            ) {
                Ok(()) => Ok(Outcome::ReviewStored { asset, principle, rating }),
                Err(e) => Err(e),
            }
        },
        Command::SetExemplar { asset, value } => {
            let vv = chars_of(value.as_str());
            let b = match parse_exemplar_flag(&vv) {
                Some(b) => b,
                None => {
                    return Err(VqlError::InvalidExemplarFlag { value });
                },
            };
            match st.set_asset_exemplar(asset.as_str(), b, now) {
                Ok(()) => Ok(Outcome::ExemplarMarked { asset, value: b }),
                Err(e) => Err(e),
            }
        },
        Command::SetCompliance { asset, principle, rating } => {
            let upper: &str = if str_eq(rating.as_str(), "H") || str_eq(rating.as_str(), "h") {
                "H"
            } else if str_eq(rating.as_str(), "M") || str_eq(rating.as_str(), "m") {
                "M"
            } else if str_eq(rating.as_str(), "L") || str_eq(rating.as_str(), "l") {
                "L"
            } else {
                return Err(VqlError::InvalidRating { rating });
            };
            match st.store_asset_review(asset.as_str(), principle.as_str(), Some(upper), "", now) {
                Ok(()) => Ok(
                    Outcome::ComplianceSet { asset, principle, rating: upper.to_owned() },
                ),
                Err(e) => Err(e),
            }
        },
        Command::RenamePrinciple { old_name, new_name } => {
            let affected = crate::store::review_holder_names(
                &st.asset_references,
                old_name.as_str(),
            );
            match st.rename_principle(old_name.as_str(), new_name.as_str(), now) {
                Ok(()) => Ok(
                    Outcome::Renamed { kind: ItemKind::Principle, old_name, new_name, affected },
                ),
                Err(e) => Err(e),
            }
        },
        Command::RenameEntity { old_name, new_name } => {
            let affected = crate::store::entity_user_names(&st.asset_references, old_name.as_str());
            match st.rename_entity(old_name.as_str(), new_name.as_str(), now) {
                Ok(()) => Ok(
                    Outcome::Renamed { kind: ItemKind::Entity, old_name, new_name, affected },
                ),
                Err(e) => Err(e),
            }
        },
        Command::RenameAssetType { old_name, new_name } => {
            let affected = crate::store::type_user_names(&st.asset_references, old_name.as_str());
            match st.rename_asset_type(old_name.as_str(), new_name.as_str(), now) {
                Ok(()) => Ok(
                    Outcome::Renamed { kind: ItemKind::AssetType, old_name, new_name, affected },
                ),
                Err(e) => Err(e),
            }
        },
        Command::RenameAssetReference { old_name, new_name } => {
            match st.rename_asset_reference(old_name.as_str(), new_name.as_str(), now) {
                Ok(()) => Ok(
                    Outcome::Renamed {
                        kind: ItemKind::Asset,
                        old_name,
                        new_name,
                        affected: Vec::new(),
                    },
                ),
                Err(e) => Err(e),
            }
        },
        Command::RenameGeneric { old_name, new_name } => {
            match st.find_item_type(old_name.as_str()) {
                None => Err(VqlError::UnknownItem { name: old_name }),
                Some(ItemKind::Principle) => {
                    let affected = crate::store::review_holder_names(
                        &st.asset_references,
                        old_name.as_str(),
                    );
                    match st.rename_principle(old_name.as_str(), new_name.as_str(), now) {
                        Ok(()) => Ok(
                            Outcome::Renamed {
                                kind: ItemKind::Principle,
                                old_name,
                                new_name,
                                affected,
                            },
                        ),
                        Err(e) => Err(e),
                    }
                },
                Some(ItemKind::Entity) => {
                    let affected = crate::store::entity_user_names(
                        &st.asset_references,
                        old_name.as_str(),
                    );
                    match st.rename_entity(old_name.as_str(), new_name.as_str(), now) {
                        Ok(()) => Ok(
                            Outcome::Renamed {
                                kind: ItemKind::Entity,
                                old_name,
                                new_name,
                                affected,
                            },
                        ),
                        Err(e) => Err(e),
                    }
                },
                Some(ItemKind::AssetType) => {
                    let affected = crate::store::type_user_names(
                        &st.asset_references,
                        old_name.as_str(),
                    );
                    match st.rename_asset_type(old_name.as_str(), new_name.as_str(), now) {
                        Ok(()) => Ok(
                            Outcome::Renamed {
                                kind: ItemKind::AssetType,
                                old_name,
                                new_name,
                                affected,
                            },
                        ),
                        Err(e) => Err(e),
                    }
                },
                Some(_) => {
                    match st.rename_asset_reference(old_name.as_str(), new_name.as_str(), now) {
                        Ok(()) => Ok(
                            Outcome::Renamed {
                                kind: ItemKind::Asset,
                                old_name,
                                new_name,
                                affected: Vec::new(),
                            },
                        ),
                        Err(e) => Err(e),
                    }
                },
            }
        },
        Command::DeletePrinciple { name } => {
            let affected = crate::store::review_holder_names(&st.asset_references, name.as_str());
            match st.delete_principle(name.as_str(), now) {
                Ok(()) => Ok(Outcome::PrincipleDeleted { name, affected }),
                Err(e) => Err(e),
            }
        },
        Command::DeleteEntity { name } => {
            match st.delete_entity(name.as_str(), now) {
                Ok(()) => Ok(Outcome::EntityDeleted { name }),
                Err(e) => Err(e),
            }
        },
        Command::DeleteAssetType { name } => {
            match st.delete_asset_type(name.as_str(), now) {
                Ok(()) => Ok(Outcome::AssetTypeDeleted { name }),
                Err(e) => Err(e),
            }
        },
        Command::DeleteAssetReference { name } => {
            let removed_reviews = match st.get_asset(name.as_str()) {
                Some(a) => a.principle_reviews.len(),
                None => 0,
            };
            match st.delete_asset_reference(name.as_str(), now) {
                Ok(()) => Ok(Outcome::AssetDeleted { name, removed_reviews }),
                Err(e) => Err(e),
            }
        },
        Command::DeleteGeneric { name } => {
            match st.find_item_type(name.as_str()) {
                None => Err(VqlError::UnknownItem { name }),
                Some(ItemKind::Principle) => {
                    let affected = crate::store::review_holder_names(
                        &st.asset_references,
                        name.as_str(),
                    );
                    match st.delete_principle(name.as_str(), now) {
                        Ok(()) => Ok(Outcome::PrincipleDeleted { name, affected }),
                        Err(e) => Err(e),
                    }
                },
                Some(ItemKind::Entity) => {
                    match st.delete_entity(name.as_str(), now) {
                        Ok(()) => Ok(Outcome::EntityDeleted { name }),
                        Err(e) => Err(e),
                    }
                },
                Some(ItemKind::AssetType) => {
                    match st.delete_asset_type(name.as_str(), now) {
                        Ok(()) => Ok(Outcome::AssetTypeDeleted { name }),
                        Err(e) => Err(e),
                    }
                },
                Some(_) => {
                    let removed_reviews = match st.get_asset(name.as_str()) {
                        Some(a) => a.principle_reviews.len(),
                        None => 0,
                    };
                    match st.delete_asset_reference(name.as_str(), now) {
                        Ok(()) => Ok(Outcome::AssetDeleted { name, removed_reviews }),
                        Err(e) => Err(e),
                    }
                },
            }
        },
        Command::ReviewAsset { asset, args } => {
            let a = match st.get_asset(asset.as_str()) {
                Some(a) => crate::store::clone_asset(a),
                None => {
                    return Err(
                        VqlError::UnknownAsset { name: asset, available: st.asset_names_vec() },
                    );
                },
            };
            let names = match parse_principle_list(args.as_str(), st) {
                Ok(n) => n,
                Err(e) => {
                    return Err(e);
                },
            };
            proof {
                lemma_plist_known(args@, *st);
                assert(forall|i: int|
                    0 <= i < names@.len() ==> str_views(names@)[i] == names@[i]@);
                assert forall|i: int| 0 <= i < names@.len() implies st.has_principle(
                    #[trigger] names@[i]@,
                ) by {
                    assert(names@[i]@ == principle_list_of(args@, *st)[i]);
                }
            }
            let records = principle_records(st, &names);
            Ok(
                Outcome::Instructions {
                    refactor: false,
                    asset: Some(a),
                    assets: Vec::new(),
                    principles: records,
                    references: Vec::new(),
                },
            )
        },
        Command::RefactorAsset { asset, args } => {
            let va = chars_of(args.as_str());
            let names: Vec<String>;
            let references: Vec<String>;
            match find_from(&va, 0, ',') {
                Some(ci) => {
                    proof {
                        crate::strutil::lemma_find_ch_at(va@, ',', ci as int);
                    }
                    let pieces = split_trimmed_vec(&va, ',');
                    let k = lead_princ_x(&pieces, st);
                    let mut refs: Vec<String> = Vec::new();
                    let mut t: usize = k;
                    while t < pieces.len()
                        invariant
                            k <= t <= pieces@.len(),
                            refs@.len() == t - k,
                            forall|j: int|
                                0 <= j < t - k ==> (#[trigger] refs@[j]@) == pieces@[k + j]@,
                        decreases pieces@.len() - t,
                    {
                        refs.push(string_from(&pieces[t]));
                        t += 1;
                    }
                    proof {
                        assert(str_views(refs@) =~= crate::strutil::views(pieces@).skip(k as int));
                    }
                    references = refs;
                    if k == 0 {
                        names = Vec::new();
                        proof {
                            assert(str_views(names@) =~= Seq::<Seq<char>>::empty());
                        }
                    } else {
                        let mut pvec: Vec<Vec<char>> = Vec::new();
                        let mut t2: usize = 0;
                        while t2 < k
                            invariant
                                t2 <= k <= pieces@.len(),
                                pvec@.len() == t2,
                                forall|j: int|
                                    0 <= j < t2 ==> (#[trigger] pvec@[j]@) == pieces@[j]@,
                            decreases k - t2,
                        {
                            pvec.push(
                                crate::strutil::subvec(&pieces[t2], 0, pieces[t2].len()),
                            );
                            t2 += 1;
                        }
                        let joined = crate::strutil::join_from(&pvec, 0, ",");
                        proof {
                            assert(crate::strutil::views(pvec@).skip(0) =~= crate::strutil::views(
                                pieces@,
                            ).take(k as int));
                        }
                        let js = string_from(&joined);
                        names = match parse_principle_list(js.as_str(), st) {
                            Ok(n) => n,
                            Err(e) => {
                                return Err(e);
                            },
                        };
                        proof {
                            lemma_plist_known(js@, *st);
                            assert(forall|i: int|
                                0 <= i < names@.len() ==> str_views(names@)[i] == names@[i]@);
                            assert forall|i: int|
                                0 <= i < names@.len() implies st.has_principle(
                                #[trigger] names@[i]@,
                            ) by {
                                assert(names@[i]@ == principle_list_of(js@, *st)[i]);
                            }
                        }
                    }
                },
                None => {
                    proof {
                        crate::strutil::lemma_find_ch_absent(va@, ',');
                    }
                    let tv = trim_vec(&va);
                    let ts = string_from(&tv);
                    let no_star = match find_from(&va, 0, '*') {
                        Some(si) => {
                            proof {
                                crate::strutil::lemma_find_ch_at(va@, '*', si as int);
                            }
                            false
                        },
                        None => {
                            proof {
                                crate::strutil::lemma_find_ch_absent(va@, '*');
                            }
                            true
                        },
                    };
                    let no_pr = !crate::strutil::contains_sub_vec(&va, "-pr");
                    let is_asset = st.asset_exists(ts.as_str());
                    if no_star && no_pr && is_asset {
                        let ra = match st.get_asset(ts.as_str()) {
                            Some(ra) => ra,
                            None => {
                                proof {
                                    assert(false);
                                }
                                return Err(VqlError::NoAssets);
                            },
                        };
                        names = review_keys_vec(ra);
                        proof {
                            let c = choose|c: int|
                                0 <= c < st.asset_references@.len() && (
                                #[trigger] st.asset_references@[c].short_name@) == ts@;
                            assert(st.asset_of(ts@) == st.asset_references@[c]);
                            assert(forall|j: int|
                                0 <= j < st.asset_references@[c].principle_reviews@.len()
                                    ==> st.has_principle(
                                    #[trigger] st.asset_references@[
                                        c
                                    ].principle_reviews@[j].0@,
                                ));
                            assert(forall|i: int|
                                0 <= i < names@.len() ==> str_views(names@)[i] == names@[i]@);
                            assert(str_views(names@).len() == names@.len());
                            assert(names@.len() == ra.principle_reviews@.len());
                            assert forall|i: int|
                                0 <= i < names@.len() implies st.has_principle(
                                #[trigger] names@[i]@,
                            ) by {
                                assert(ra.principle_reviews@.map_values(
                                    |pr: (String, crate::store::Review)| pr.0@,
                                )[i] == ra.principle_reviews@[i].0@);
                                assert(names@[i]@ == st.asset_references@[
                                    c
                                ].principle_reviews@[i].0@);
                            }
                        }
                        let mut refs: Vec<String> = Vec::new();
                        refs.push(ts);
                        proof {
                            assert(str_views(refs@) =~= seq![trimmed(args@)]);
                        }
                        references = refs;
                    } else {
                        names = match parse_principle_list(args.as_str(), st) {
                            Ok(n) => n,
                            Err(e) => {
                                return Err(e);
                            },
                        };
                        proof {
                            lemma_plist_known(args@, *st);
                            assert(forall|i: int|
                                0 <= i < names@.len() ==> str_views(names@)[i] == names@[i]@);
                            assert forall|i: int|
                                0 <= i < names@.len() implies st.has_principle(
                                #[trigger] names@[i]@,
                            ) by {
                                assert(names@[i]@ == principle_list_of(args@, *st)[i]);
                            }
                        }
                        references = Vec::new();
                        proof {
                            assert(str_views(references@) =~= Seq::<Seq<char>>::empty());
                        }
                    }
                },
            }
            let a = match st.get_asset(asset.as_str()) {
                Some(a) => crate::store::clone_asset(a),
                None => {
                    return Err(
                        VqlError::UnknownAsset { name: asset, available: st.asset_names_vec() },
                    );
                },
            };
            proof {
                assert(forall|i: int|
                    0 <= i < names@.len() ==> str_views(names@)[i] == names@[i]@);
            }
            let records = principle_records(st, &names);
            Ok(
                Outcome::Instructions {
                    refactor: true,
                    asset: Some(a),
                    assets: Vec::new(),
                    principles: records,
                    references,
                },
            )
        },
        Command::GlobalReview { args } => {
            let names = match parse_principle_list(args.as_str(), st) {
                Ok(n) => n,
                Err(e) => {
                    return Err(e);
                },
            };
            if st.asset_references.len() == 0 {
                return Err(VqlError::NoAssets);
            }
            proof {
                lemma_plist_known(args@, *st);
                assert(forall|i: int|
                    0 <= i < names@.len() ==> str_views(names@)[i] == names@[i]@);
                assert forall|i: int| 0 <= i < names@.len() implies st.has_principle(
                    #[trigger] names@[i]@,
                ) by {
                    assert(names@[i]@ == principle_list_of(args@, *st)[i]);
                }
            }
            let records = principle_records(st, &names);
            Ok(
                Outcome::Instructions {
                    refactor: false,
                    asset: None,
                    assets: st.assets_snapshot(),
                    principles: records,
                    references: Vec::new(),
                },
            )
        },
        Command::GlobalRefactor { args } => {
            let names = match parse_principle_list(args.as_str(), st) {
                Ok(n) => n,
                Err(e) => {
                    return Err(e);
                },
            };
            if st.asset_references.len() == 0 {
                return Err(VqlError::NoAssets);
            }
            proof {
                lemma_plist_known(args@, *st);
                assert(forall|i: int|
                    0 <= i < names@.len() ==> str_views(names@)[i] == names@[i]@);
                assert forall|i: int| 0 <= i < names@.len() implies st.has_principle(
                    #[trigger] names@[i]@,
                ) by {
                    assert(names@[i]@ == principle_list_of(args@, *st)[i]);
                }
            }
            let records = principle_records(st, &names);
            Ok(
                Outcome::Instructions {
                    refactor: true,
                    asset: None,
                    assets: st.assets_snapshot(),
                    principles: records,
                    references: Vec::new(),
                },
            )
        },
    }
}

/// One whole step of an invocation: classify the input line and apply it
/// to the registry, reporting the outcome of exactly the command the
/// grammar names for the input.
pub fn process_command(st: &mut JsonStorage, input: &str, now: &str) -> (r: Result<
    Outcome,
    VqlError,
>)
    requires
        old(st).wf(),
    ensures
        final(st).wf(),
        match crate::grammar::spec_parse(input@) {
            crate::grammar::ParseOutV::Fail(ev) => *final(st) == *old(st) && (r matches Err(e)
                && crate::grammar::err_matches(e, ev)),
            crate::grammar::ParseOutV::Cmd(cv) => match r {
                Ok(out) => !dispatch_fails(*old(st), cv) && dispatch_ok(
                    *old(st),
                    *final(st),
                    cv,
                    out,
                    now@,
                ),
                Err(e) => *final(st) == *old(st) && dispatch_fails(*old(st), cv)
                    && dispatch_err_val(*old(st), cv, e),
            },
        },
{
    match crate::grammar::parse_command(input) {
        Ok(cmd) => dispatch(st, cmd, now),
        Err(e) => Err(e),
    }
}

} // verus!
