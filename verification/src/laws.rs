//! The registry's global laws, proved once over the store relations.
//!
//! Each store operation's contract states exactly how one call changes
//! the registry; the proof functions here derive from those relations the
//! properties that hold across calls: the shared namespace stays
//! collision-free, renames cascade completely, deletes of referenced
//! items are blocked, and a deleted principle leaves no review behind.

use vstd::prelude::*;
use crate::store::JsonStorage;
use crate::store::AssetReference;
use crate::store::principle_added;
use crate::store::entity_added;
use crate::store::asset_type_added;
use crate::store::asset_added;
use crate::store::principle_renamed;
use crate::store::entity_renamed;
use crate::store::asset_type_renamed;
use crate::store::principle_deleted;
use crate::store::entity_retargeted;
use crate::store::type_retargeted;
use crate::store::has_review;
use crate::store::review_of;
use crate::store::review_keys_unique;
use crate::store::uses_entity;
use crate::store::uses_type;
use crate::store::entity_users;
use crate::store::type_users;
use crate::store::lemma_entity_users_empty;
use crate::store::lemma_type_users_empty;

verus! {

/// Namespace uniqueness, principle case: a successful `add_principle`
/// leaves its short name taken, so by the add contracts — which fail
/// with a collision exactly when the name is taken — no later add of any
/// of the four kinds can succeed with the same name.
pub proof fn lemma_principle_added_takes_name(
    pre: JsonStorage,
    post: JsonStorage,
    n: Seq<char>,
    long: Seq<char>,
    g: Option<Seq<char>>,
    now: Seq<char>,
)
    requires
        principle_added(pre, post, n, long, g, now),
    ensures
        post.has_principle(n),
        post.name_taken(n),
{
    assert(post.principles@[post.principles@.len() - 1].short_name@ == n);
}

/// Namespace uniqueness, entity case.
pub proof fn lemma_entity_added_takes_name(
    pre: JsonStorage,
    post: JsonStorage,
    n: Seq<char>,
    description: Seq<char>,
    now: Seq<char>,
)
    requires
        entity_added(pre, post, n, description, now),
    ensures
        post.has_entity(n),
        post.name_taken(n),
{
    assert(post.entities@[post.entities@.len() - 1].short_name@ == n);
}

/// Namespace uniqueness, asset type case.
pub proof fn lemma_asset_type_added_takes_name(
    pre: JsonStorage,
    post: JsonStorage,
    n: Seq<char>,
    description: Seq<char>,
    now: Seq<char>,
)
    requires
        asset_type_added(pre, post, n, description, now),
    ensures
        post.has_asset_type(n),
        post.name_taken(n),
{
    assert(post.asset_types@[post.asset_types@.len() - 1].short_name@ == n);
}

/// Namespace uniqueness, asset reference case.
pub proof fn lemma_asset_added_takes_name(
    pre: JsonStorage,
    post: JsonStorage,
    n: Seq<char>,
    entity: Seq<char>,
    asset_type: Seq<char>,
    path: Seq<char>,
    now: Seq<char>,
)
    requires
        asset_added(pre, post, n, entity, asset_type, path, now),
    ensures
        post.has_asset(n),
        post.name_taken(n),
{
    assert(post.asset_references@[post.asset_references@.len() - 1].short_name@ == n);
}

/// Rename cascade completeness for principles: after renaming principle
/// `o` to `n`, an asset that carried a review under `o` carries none
/// under `o` any more, and carries under `n` the original review value
/// unchanged.
pub proof fn lemma_rename_principle_cascade(
    pre: JsonStorage,
    post: JsonStorage,
    o: Seq<char>,
    n: Seq<char>,
    now: Seq<char>,
    k: int,
)
    requires
        pre.wf(),
        !pre.name_taken(n),
        principle_renamed(pre, post, o, n, now),
        0 <= k < pre.asset_references@.len(),
        has_review(pre.asset_references@[k], o),
    ensures
        !has_review(post.asset_references@[k], o),
        has_review(post.asset_references@[k], n),
        review_of(post.asset_references@[k], n) == review_of(pre.asset_references@[k], o),
{
    let oa = pre.asset_references@[k];
    let na = post.asset_references@[k];
    assert(review_keys_unique(oa));
    let j = choose|j: int|
        0 <= j < oa.principle_reviews@.len() && (#[trigger] oa.principle_reviews@[j].0@) == o;
    assert(na.principle_reviews@[j].0@ == n);
    assert(na.principle_reviews@[j].1 == oa.principle_reviews@[j].1);
    // The old key names a principle, the new one does not yet, so they differ.
    assert(pre.has_principle(o));
    assert(o != n);
    // No other entry can hold the old or the new key.
    assert forall|x: int|
        0 <= x < na.principle_reviews@.len() && x != j implies (
    #[trigger] na.principle_reviews@[x].0@) != o && na.principle_reviews@[x].0@ != n by {
        assert(oa.principle_reviews@[x].0@ != o);
        assert(pre.has_principle(oa.principle_reviews@[x].0@));
        assert(na.principle_reviews@[x] == oa.principle_reviews@[x]);
    }
    assert(!has_review(na, o));
    assert(has_review(na, n));
    let jn = choose|x: int|
        0 <= x < na.principle_reviews@.len() && (#[trigger] na.principle_reviews@[x].0@) == n;
    assert(jn == j);
    let jo = choose|x: int|
        0 <= x < oa.principle_reviews@.len() && (#[trigger] oa.principle_reviews@[x].0@) == o;
    assert(jo == j);
}

/// Rename cascade completeness for entities: after renaming entity `o`
/// to `n`, an asset that referenced `o` references `n`, with its reviews
/// untouched.
pub proof fn lemma_rename_entity_cascade(
    pre: JsonStorage,
    post: JsonStorage,
    o: Seq<char>,
    n: Seq<char>,
    now: Seq<char>,
    k: int,
)
    requires
        entity_renamed(pre, post, o, n, now),
        0 <= k < pre.asset_references@.len(),
        pre.asset_references@[k].entity@ == o,
    ensures
        post.asset_references@[k].entity@ == n,
        post.asset_references@[k].principle_reviews == pre.asset_references@[k].principle_reviews,
        post.asset_references@[k].short_name == pre.asset_references@[k].short_name,
{
    assert(entity_retargeted(pre.asset_references@[k], post.asset_references@[k], o, n, now));
}

/// Rename cascade completeness for asset types.
pub proof fn lemma_rename_asset_type_cascade(
    pre: JsonStorage,
    post: JsonStorage,
    o: Seq<char>,
    n: Seq<char>,
    now: Seq<char>,
    k: int,
)
    requires
        asset_type_renamed(pre, post, o, n, now),
        0 <= k < pre.asset_references@.len(),
        pre.asset_references@[k].asset_type@ == o,
    ensures
        post.asset_references@[k].asset_type@ == n,
        post.asset_references@[k].principle_reviews == pre.asset_references@[k].principle_reviews,
        post.asset_references@[k].short_name == pre.asset_references@[k].short_name,
{
    assert(type_retargeted(pre.asset_references@[k], post.asset_references@[k], o, n, now));
}

/// Delete-blocks-on-use: while some asset references an entity, the
/// blocking list that `delete_entity` reports is not empty — so, by its
/// contract, the delete fails with `InUse` and the registry is unchanged.
pub proof fn lemma_delete_entity_blocked(assets: Seq<AssetReference>, n: Seq<char>)
    requires
        uses_entity(assets, n),
    ensures
        entity_users(assets, n).len() > 0,
{
    lemma_entity_users_empty(assets, n);
}

/// Delete-blocks-on-use for asset types.
pub proof fn lemma_delete_asset_type_blocked(assets: Seq<AssetReference>, n: Seq<char>)
    requires
        uses_type(assets, n),
    ensures
        type_users(assets, n).len() > 0,
{
    lemma_type_users_empty(assets, n);
}

/// The blocking list reported by a refused entity delete names every
/// asset that references the entity.
pub proof fn lemma_entity_users_member(assets: Seq<AssetReference>, n: Seq<char>, k: int)
    requires
        0 <= k < assets.len(),
        assets[k].entity@ == n,
    ensures
        entity_users(assets, n).contains(assets[k].short_name@),
    decreases assets.len(),
{
    if k == assets.len() - 1 {
        assert(entity_users(assets, n).last() == assets[k].short_name@);
    } else {
        assert(assets.drop_last()[k] == assets[k]);
        lemma_entity_users_member(assets.drop_last(), n, k);
        let rest = entity_users(assets.drop_last(), n);
        let w = choose|w: int| 0 <= w < rest.len() && rest[w] == assets[k].short_name@;
        if assets.last().entity@ == n {
            assert(rest.push(assets.last().short_name@)[w] == rest[w]);
        }
    }
}

/// Delete cascade for principles: after deleting principle `p`, no asset
/// carries a review under `p`, and `p` itself is gone — so, by the
/// contract of `get_asset_review`, a later lookup of `(asset, p)` yields
/// the absent case, never a stale value.
pub proof fn lemma_delete_principle_cascade(
    pre: JsonStorage,
    post: JsonStorage,
    p: Seq<char>,
    now: Seq<char>,
    k: int,
)
    requires
        pre.wf(),
        principle_deleted(pre, post, p, now),
        0 <= k < pre.asset_references@.len(),
    ensures
        !has_review(post.asset_references@[k], p),
        !post.has_principle(p),
{
    let oa = pre.asset_references@[k];
    let na = post.asset_references@[k];
    assert(review_keys_unique(oa));
    if has_review(oa, p) {
        let j = choose|j: int|
            0 <= j < oa.principle_reviews@.len() && (#[trigger] oa.principle_reviews@[j].0@) == p
                && na.principle_reviews@ == oa.principle_reviews@.remove(j);
        oa.principle_reviews@.remove_ensures(j);
        assert forall|x: int|
            0 <= x < na.principle_reviews@.len() implies (
        #[trigger] na.principle_reviews@[x].0@) != p by {
            if x < j {
                assert(na.principle_reviews@[x] == oa.principle_reviews@[x]);
            } else {
                assert(na.principle_reviews@[x] == oa.principle_reviews@[x + 1]);
            }
        }
    }
    let i = choose|i: int|
        0 <= i < pre.principles@.len() && (#[trigger] pre.principles@[i].short_name@) == p
            && post.principles@ == pre.principles@.remove(i);
    pre.principles@.remove_ensures(i);
    assert forall|x: int|
        0 <= x < post.principles@.len() implies (#[trigger] post.principles@[x].short_name@)
            != p by {
        if x < i {
            assert(post.principles@[x] == pre.principles@[x]);
        } else {
            assert(post.principles@[x] == pre.principles@[x + 1]);
        }
    }
}

/// A stored review is returned as stored: writing a review and reading
/// the same (asset, principle) pair yields exactly the written rating and
/// analysis.  This connects `store_asset_review`'s relation to the lookup
/// that `get_asset_review` specifies.
pub proof fn lemma_store_then_get(
    pre: JsonStorage,
    post: JsonStorage,
    asset: Seq<char>,
    principle: Seq<char>,
    rating: Option<Seq<char>>,
    analysis: Seq<char>,
    now: Seq<char>,
    k: int,
)
    requires
        pre.wf(),
        crate::store::review_stored(pre, post, asset, principle, rating, analysis, now),
        0 <= k < pre.asset_references@.len(),
        pre.asset_references@[k].short_name@ == asset,
    ensures
        has_review(post.asset_references@[k], principle),
        crate::store::review_matches(
            review_of(post.asset_references@[k], principle),
            rating,
            analysis,
            now,
        ),
{
    let oa = pre.asset_references@[k];
    let na = post.asset_references@[k];
    assert(review_keys_unique(oa));
    if has_review(oa, principle) {
        let j = choose|j: int|
            0 <= j < oa.principle_reviews@.len() && (#[trigger] oa.principle_reviews@[j].0@)
                == principle;
        assert(na.principle_reviews@[j].0 == oa.principle_reviews@[j].0);
        assert(has_review(na, principle));
        let jn = choose|x: int|
            0 <= x < na.principle_reviews@.len() && (#[trigger] na.principle_reviews@[x].0@)
                == principle;
        assert forall|x: int|
            0 <= x < na.principle_reviews@.len() && x != j implies (
        #[trigger] na.principle_reviews@[x].0@) != principle by {
            assert(oa.principle_reviews@[x].0@ != principle);
            assert(na.principle_reviews@[x] == oa.principle_reviews@[x]);
        }
        assert(jn == j);
    } else {
        let last = na.principle_reviews@.len() - 1;
        assert(na.principle_reviews@[last].0@ == principle);
        assert(has_review(na, principle));
        let jn = choose|x: int|
            0 <= x < na.principle_reviews@.len() && (#[trigger] na.principle_reviews@[x].0@)
                == principle;
        assert forall|x: int|
            0 <= x < last implies (#[trigger] na.principle_reviews@[x].0@) != principle by {
            assert(na.principle_reviews@[x] == na.principle_reviews@.drop_last()[x]);
            assert(na.principle_reviews@.drop_last() == oa.principle_reviews@);
        }
        assert(jn == last);
    }
}

/// Stripping the quotes off a quoted, quote-free body yields the body.
proof fn lemma_strip_quoted(text: Seq<char>)
    requires
        text.len() > 0,
        forall|i: int| 0 <= i < text.len() ==> (#[trigger] text[i]) != '"',
    ensures
        crate::strutil::strip_both(seq!['"'] + text + seq!['"'], '"') == text,
{
    let qtext = seq!['"'] + text + seq!['"'];
    assert(qtext[0] == '"');
    let t1 = text + seq!['"'];
    assert(qtext.drop_first() =~= t1);
    assert(t1[0] == text[0]);
    assert(text[0] != '"');
    assert(t1.last() == '"');
    assert(t1.drop_last() =~= text);
    assert(text[text.len() - 1] != '"');
    assert(crate::strutil::strip_both(text, '"') == text);
    assert(crate::strutil::strip_both(t1, '"') == crate::strutil::strip_both(text, '"'));
    assert(crate::strutil::strip_both(qtext, '"') == crate::strutil::strip_both(t1, '"'));
}

/// The functional store form parses to exactly the store command.
#[verifier::rlimit(100)]
proof fn lemma_functional_store(name: Seq<char>, p: Seq<char>, text: Seq<char>)
    requires
        crate::strutil::is_word(name),
        crate::strutil::is_word(p),
        text.len() > 0,
        forall|i: int|
            0 <= i < text.len() ==> !crate::strutil::is_ws(#[trigger] text[i]) && text[i] != ','
                && text[i] != ')' && text[i] != '"',
    ensures
        crate::grammar::spec_parse(
            seq![':'] + name + seq!['.', 's', 't', '('] + p + seq![',', ' ', '"'] + text + seq![
                '"',
                ')',
            ],
        ) == crate::grammar::ParseOutV::Cmd(
            crate::grammar::CommandV::StoreReview { asset: name, principle: p, content: text },
        ),
{
    let f = seq![':'] + name + seq!['.', 's', 't', '('] + p + seq![',', ' ', '"'] + text + seq![
        '"',
        ')',
    ];
    let c = name + seq!['.', 's', 't', '('] + p + seq![',', ' ', '"'] + text + seq!['"', ')'];
    let w = name.len() as int;
    assert(f[0] == ':');
    assert(f.skip(1) =~= c);
    assert(forall|i: int| 0 <= i < w ==> c[i] == name[i]);
    assert(c[w] == '.');
    assert(c[w + 1] == 's');
    assert(c[w + 2] == 't');
    assert(c[w + 3] == '(');
    assert(c.len() == w + 9 + p.len() + text.len());
    assert(c.last() == ')');
    let tail = seq!['.', 's', 't', '('] + p + seq![',', ' ', '"'] + text + seq!['"', ')'];
    assert(c =~= name + tail);
    assert(tail[0] == '.');
    crate::strutil::lemma_wpl_word_concat(name, tail);
    assert(crate::strutil::word_prefix_len(c) == w);
    // None of the fixed words fits: the line is too long.
    reveal_strlit("-vql on");
    reveal_strlit("-vql off");
    reveal_strlit("mcp");
    reveal_strlit("cli");
    reveal_strlit("ls()");
    reveal_strlit("ls");
    reveal_strlit("pr()");
    reveal_strlit("pr");
    reveal_strlit("er()");
    reveal_strlit("er");
    reveal_strlit("at()");
    reveal_strlit("at");
    reveal_strlit("ar()");
    reveal_strlit("ar");
    reveal_strlit("-pr");
    reveal_strlit("-er");
    reveal_strlit("-at");
    reveal_strlit("-ar");
    reveal_strlit("rn(");
    reveal_strlit("dl(");
    reveal_strlit("pr.add(");
    reveal_strlit("er.add(");
    reveal_strlit("at.add(");
    reveal_strlit("ar.add(");
    reveal_strlit("-pr.get(");
    reveal_strlit("-ar.add(");
    assert(c.len() >= 12);
    // No dashed or short-call prefix fits either: the third character is
    // a word character, a dot, or the method's first letter.
    assert(!crate::grammar::has_pre(c, "rn("@)) by {
        if crate::grammar::has_pre(c, "rn("@) {
            assert(c.subrange(0, 3)[2] == c[2]);
            assert(c[2] == '(');
            if w >= 3 {
                assert(crate::strutil::is_word_char(c[2]));
            } else if w == 2 {
                assert(c[2] == '.');
            } else {
                assert(c[2] == 's');
            }
        }
    }
    assert(!crate::grammar::has_pre(c, "dl("@)) by {
        if crate::grammar::has_pre(c, "dl("@) {
            assert(c.subrange(0, 3)[2] == c[2]);
            assert(c[2] == '(');
            if w >= 3 {
                assert(crate::strutil::is_word_char(c[2]));
            } else if w == 2 {
                assert(c[2] == '.');
            } else {
                assert(c[2] == 's');
            }
        }
    }
    assert(!crate::grammar::has_pre(c, "pr.add("@)) by {
        if crate::grammar::has_pre(c, "pr.add("@) {
            assert(c.subrange(0, 7)[1] == c[1]);
            assert(c.subrange(0, 7)[2] == c[2]);
            assert(c.subrange(0, 7)[3] == c[3]);
            if w == 1 {
                assert(c[1] == '.');
            } else if w == 2 {
                assert(c[3] == 's');
            } else {
                assert(crate::strutil::is_word_char(c[2]));
            }
        }
    }
    assert(!crate::grammar::has_pre(c, "er.add("@)) by {
        if crate::grammar::has_pre(c, "er.add("@) {
            assert(c.subrange(0, 7)[1] == c[1]);
            assert(c.subrange(0, 7)[2] == c[2]);
            assert(c.subrange(0, 7)[3] == c[3]);
            if w == 1 {
                assert(c[1] == '.');
            } else if w == 2 {
                assert(c[3] == 's');
            } else {
                assert(crate::strutil::is_word_char(c[2]));
            }
        }
    }
    assert(!crate::grammar::has_pre(c, "at.add("@)) by {
        if crate::grammar::has_pre(c, "at.add("@) {
            assert(c.subrange(0, 7)[1] == c[1]);
            assert(c.subrange(0, 7)[2] == c[2]);
            assert(c.subrange(0, 7)[3] == c[3]);
            if w == 1 {
                assert(c[1] == '.');
            } else if w == 2 {
                assert(c[3] == 's');
            } else {
                assert(crate::strutil::is_word_char(c[2]));
            }
        }
    }
    assert(!crate::grammar::has_pre(c, "ar.add("@)) by {
        if crate::grammar::has_pre(c, "ar.add("@) {
            assert(c.subrange(0, 7)[1] == c[1]);
            assert(c.subrange(0, 7)[2] == c[2]);
            assert(c.subrange(0, 7)[3] == c[3]);
            if w == 1 {
                assert(c[1] == '.');
            } else if w == 2 {
                assert(c[3] == 's');
            } else {
                assert(crate::strutil::is_word_char(c[2]));
            }
        }
    }
    assert(!crate::grammar::has_pre(c, "-pr.get("@)) by {
        if crate::grammar::has_pre(c, "-pr.get("@) {
            assert(c.subrange(0, 8)[0] == c[0]);
            assert(c[0] == '-');
            assert(crate::strutil::is_word_char(c[0]));
        }
    }
    assert(!crate::grammar::has_pre(c, "-ar.add("@)) by {
        if crate::grammar::has_pre(c, "-ar.add("@) {
            assert(c.subrange(0, 8)[0] == c[0]);
            assert(c[0] == '-');
            assert(crate::strutil::is_word_char(c[0]));
        }
    }
    // No question form fits: a dot follows the asset word.
    assert(c.skip(w) =~= tail);
    assert(crate::strutil::trim_front(tail) == tail);
    assert(crate::grammar::match_q_paren(c) is None);
    assert(crate::grammar::match_q_simple(c) is None);
    // The method rule fires with the store method.
    let args = p + seq![',', ' ', '"'] + text + seq!['"'];
    assert(c.subrange(w + 4, c.len() - 1) =~= args);
    assert(forall|i: int| 0 <= i < p.len() ==> args[i] == p[i]);
    assert(args[p.len() as int] == ',');
    assert(args[p.len() as int + 1] == ' ');
    assert(args[p.len() as int + 2] == '"');
    assert(forall|i: int| 0 <= i < text.len() ==> args[p.len() as int + 3 + i] == text[i]);
    assert(args.last() == '"');
    assert(forall|i: int| 0 <= i < args.len() ==> (#[trigger] args[i]) != ')');
    crate::strutil::lemma_find_ch_absent(args, ')');
    assert(c.take(w) =~= name);
    assert(crate::strutil::is_ascii_lower('s') && crate::strutil::is_ascii_lower('t'));
    assert(crate::grammar::match_method(c) == Some((name, 's', 't', args)));
    // The arguments split at the single comma into the principle and the
    // quoted content.
    assert(forall|i: int| 0 <= i < p.len() ==> (#[trigger] args[i]) != ',');
    crate::strutil::lemma_find_ch_at(args, ',', p.len() as int);
    let rest = seq![' ', '"'] + text + seq!['"'];
    assert(args.skip(p.len() as int + 1) =~= rest);
    assert(args.take(p.len() as int) =~= p);
    assert(forall|i: int| 0 <= i < rest.len() ==> (#[trigger] rest[i]) != ',');
    crate::strutil::lemma_find_ch_absent(rest, ',');
    assert(crate::strutil::split_on(rest, ',') == seq![rest]);
    assert(crate::strutil::split_on(args, ',') =~= seq![p, rest]);
    assert(crate::strutil::trimmed(p) == p) by {
        assert(!crate::strutil::is_ws(p[0]));
        assert(crate::strutil::trim_front(p) == p);
        assert(!crate::strutil::is_ws(p[p.len() - 1]));
        assert(crate::strutil::trim_back(p) == p);
    }
    let qtext = seq!['"'] + text + seq!['"'];
    assert(crate::strutil::trimmed(rest) == qtext) by {
        assert(crate::strutil::is_ws(rest[0]));
        assert(rest.drop_first() =~= qtext);
        assert(!crate::strutil::is_ws(qtext[0]));
        assert(crate::strutil::trim_front(qtext) == qtext);
        assert(crate::strutil::trim_front(rest) == crate::strutil::trim_front(qtext));
        assert(qtext[qtext.len() - 1] == '"');
        assert(!crate::strutil::is_ws(qtext[qtext.len() - 1]));
        assert(crate::strutil::trim_back(qtext) == qtext);
    }
    let parts = crate::strutil::split_trimmed(args, ',');
    assert(parts =~= seq![p, qtext]) by {
        assert(parts.len() == 2);
        assert(parts[0] == crate::strutil::trimmed(p));
        assert(parts[1] == crate::strutil::trimmed(rest));
    }
    assert(parts.skip(1) =~= seq![qtext]);
    assert(crate::strutil::join_with(seq![qtext], ", "@) == qtext);
    lemma_strip_quoted(text);
    assert(crate::grammar::stage_method(c) == Some(
        crate::grammar::ParseOutV::Cmd(
            crate::grammar::CommandV::StoreReview { asset: name, principle: p, content: text },
        ),
    ));
    assert(crate::grammar::functional_out(c) == crate::grammar::stage_method(c));
}

/// The flag store form parses to exactly the store command.
proof fn lemma_flag_store(name: Seq<char>, p: Seq<char>, text: Seq<char>)
    requires
        crate::strutil::is_word(name),
        crate::strutil::is_word(p),
        text.len() > 0,
        forall|i: int|
            0 <= i < text.len() ==> !crate::strutil::is_ws(#[trigger] text[i]) && text[i] != ','
                && text[i] != ')' && text[i] != '"',
    ensures
        crate::grammar::spec_parse(
            seq!['-', 's', 't', ' '] + name + seq![' '] + p + seq![' ', '"'] + text + seq!['"'],
        ) == crate::grammar::ParseOutV::Cmd(
            crate::grammar::CommandV::StoreReview { asset: name, principle: p, content: text },
        ),
{
    let g = seq!['-', 's', 't', ' '] + name + seq![' '] + p + seq![' ', '"'] + text + seq!['"'];
    assert(g[0] == '-');
    let t0 = seq!['-', 's', 't'];
    let t3 = seq!['"'] + text + seq!['"'];
    let r2 = p + seq![' '] + t3;
    let r1 = name + seq![' '] + r2;
    assert(g =~= t0 + seq![' '] + r1);
    assert(forall|i: int| 0 <= i < t0.len() ==> !crate::strutil::is_ws(#[trigger] t0[i]));
    assert(forall|i: int|
        0 <= i < name.len() ==> !crate::strutil::is_ws(#[trigger] name[i]));
    assert(forall|i: int| 0 <= i < p.len() ==> !crate::strutil::is_ws(#[trigger] p[i]));
    assert(forall|i: int| 0 <= i < t3.len() ==> !crate::strutil::is_ws(#[trigger] t3[i]));
    crate::strutil::lemma_split_ws_step(t0, r1);
    crate::strutil::lemma_split_ws_step(name, r2);
    crate::strutil::lemma_split_ws_step(p, t3);
    crate::strutil::lemma_split_ws_last(t3);
    let parts = crate::strutil::split_ws(g);
    assert(parts =~= seq![t0, name, p, t3]);
    assert(parts.len() == 4);
    let main = crate::strutil::strip_lead(parts[0], '-');
    assert(main == seq!['s', 't']) by {
        assert(t0[0] == '-');
        assert(t0.drop_first() =~= seq!['s', 't']);
        assert(crate::strutil::strip_lead(seq!['s', 't'], '-') == seq!['s', 't']);
    }
    reveal_strlit("st");
    reveal_strlit("rn");
    reveal_strlit("dl");
    reveal_strlit("pr");
    reveal_strlit("er");
    reveal_strlit("at");
    reveal_strlit("ar");
    reveal_strlit("se");
    reveal_strlit("sc");
    reveal_strlit("su");
    assert(main =~= "st"@);
    assert(parts.skip(3) =~= seq![t3]);
    assert(crate::strutil::join_with(seq![t3], " "@) == t3);
    lemma_strip_quoted(text);
    assert(crate::grammar::spec_parse_flags(g) == crate::grammar::ParseOutV::Cmd(
        crate::grammar::CommandV::StoreReview { asset: name, principle: p, content: text },
    ));
}

/// Grammar equivalence: the functional form `name.st(p, "text")` and
/// the flag form `-st name p "text"` classify to the same store command,
/// so by `dispatch`'s contract both leave the same `review_stored`
/// relation between the starting and the resulting registry.  Stated for
/// word-shaped names and quote-, comma-, parenthesis- and whitespace-free
/// content; beyond that the comma-joining policy makes the two surfaces
/// read content differently.
pub proof fn lemma_grammar_equivalence(name: Seq<char>, p: Seq<char>, text: Seq<char>)
    requires
        crate::strutil::is_word(name),
        crate::strutil::is_word(p),
        text.len() > 0,
        forall|i: int|
            0 <= i < text.len() ==> !crate::strutil::is_ws(#[trigger] text[i]) && text[i] != ','
                && text[i] != ')' && text[i] != '"',
    ensures
        ({
            let f = seq![':'] + name + seq!['.', 's', 't', '('] + p + seq![',', ' ', '"'] + text
                + seq!['"', ')'];
            let g = seq!['-', 's', 't', ' '] + name + seq![' '] + p + seq![' ', '"'] + text
                + seq!['"'];
            &&& crate::grammar::spec_parse(f) == crate::grammar::spec_parse(g)
            &&& crate::grammar::spec_parse(f) == crate::grammar::ParseOutV::Cmd(
                crate::grammar::CommandV::StoreReview {
                    asset: name,
                    principle: p,
                    content: text,
                },
            )
        }),
{
    lemma_functional_store(name, p, text);
    lemma_flag_store(name, p, text);
}

} // verus!
