//! Verified character and string helpers.
//!
//! The command grammar and the registry store work over `Vec<char>` and
//! `String`; this module supplies the primitive scans (find, split, trim,
//! prefix tests) together with the spec functions that describe them.

use vstd::prelude::*;
use vstd::string::StrSliceExecFns;

verus! {

/// A whitespace character, as the grammar understands it.
pub open spec fn is_ws(c: char) -> bool {
    c == ' ' || c == '\t' || c == '\n' || c == '\r'
}

/// A word character: an ASCII letter, a digit, or an underscore.
pub open spec fn is_word_char(c: char) -> bool {
    ||| ('a' as u32) <= (c as u32) && (c as u32) <= ('z' as u32)
    ||| ('A' as u32) <= (c as u32) && (c as u32) <= ('Z' as u32)
    ||| ('0' as u32) <= (c as u32) && (c as u32) <= ('9' as u32)
    ||| c == '_'
}

/// An ASCII lower-case letter.
pub open spec fn is_ascii_lower(c: char) -> bool {
    ('a' as u32) <= (c as u32) && (c as u32) <= ('z' as u32)
}

/// The ASCII-case-folded code point of a character: upper-case ASCII
/// letters map onto their lower-case forms, everything else is itself.
pub open spec fn folded(c: char) -> int {
    if ('A' as u32) <= (c as u32) && (c as u32) <= ('Z' as u32) {
        (c as u32) + 32
    } else {
        (c as u32) as int
    }
}

/// Two characters are equal up to ASCII case.
pub open spec fn eq_ci_char(a: char, b: char) -> bool {
    folded(a) == folded(b)
}

/// Two character sequences are equal up to ASCII case.
pub open spec fn eq_ci(a: Seq<char>, b: Seq<char>) -> bool {
    a.len() == b.len() && forall|i: int| 0 <= i < a.len() ==> eq_ci_char(a[i], b[i])
}

/// `pat` occurs in `s` as a contiguous subsequence.
pub open spec fn contains_sub(s: Seq<char>, pat: Seq<char>) -> bool {
    exists|i: int| 0 <= i && i + pat.len() <= s.len() && (#[trigger] s.subrange(i, i + pat.len()))
        == pat
}

/// `pat` occurs in `s` as a contiguous subsequence, up to ASCII case.
pub open spec fn contains_ci(s: Seq<char>, pat: Seq<char>) -> bool {
    exists|i: int| 0 <= i && i + pat.len() <= s.len() && eq_ci(
        #[trigger] s.subrange(i, i + pat.len()),
        pat,
    )
}

/// The index of the first occurrence of `c` in `s`, or -1 if absent.
pub open spec fn find_ch(s: Seq<char>, c: char) -> int
    decreases s.len(),
{
    if s.len() == 0 {
        -1
    } else if s[0] == c {
        0
    } else {
        let r = find_ch(s.drop_first(), c);
        if r == -1 {
            -1
        } else {
            r + 1
        }
    }
}

/// The characterisation of `find_ch`: -1 exactly when `c` is absent,
/// otherwise the smallest index holding `c`.
pub proof fn lemma_find_ch(s: Seq<char>, c: char)
    ensures
        find_ch(s, c) == -1 <==> (forall|i: int| 0 <= i < s.len() ==> s[i] != c),
        find_ch(s, c) != -1 ==> {
            &&& 0 <= find_ch(s, c) < s.len()
            &&& s[find_ch(s, c)] == c
            &&& forall|i: int| 0 <= i < find_ch(s, c) ==> s[i] != c
        },
    decreases s.len(),
{
    if s.len() == 0 {
    } else if s[0] == c {
    } else {
        lemma_find_ch(s.drop_first(), c);
        assert(forall|i: int| 1 <= i < s.len() ==> s[i] == s.drop_first()[i - 1]);
    }
}

/// The index of the first whitespace character in `s`, or -1 if none.
pub open spec fn find_ws(s: Seq<char>) -> int
    decreases s.len(),
{
    if s.len() == 0 {
        -1
    } else if is_ws(s[0]) {
        0
    } else {
        let r = find_ws(s.drop_first());
        if r == -1 {
            -1
        } else {
            r + 1
        }
    }
}

/// The characterisation of `find_ws`.
pub proof fn lemma_find_ws(s: Seq<char>)
    ensures
        find_ws(s) == -1 <==> (forall|i: int| 0 <= i < s.len() ==> !is_ws(s[i])),
        find_ws(s) != -1 ==> {
            &&& 0 <= find_ws(s) < s.len()
            &&& is_ws(s[find_ws(s)])
            &&& forall|i: int| 0 <= i < find_ws(s) ==> !is_ws(s[i])
        },
    decreases s.len(),
{
    if s.len() == 0 {
    } else if is_ws(s[0]) {
    } else {
        lemma_find_ws(s.drop_first());
        assert(forall|i: int| 1 <= i < s.len() ==> s[i] == s.drop_first()[i - 1]);
    }
}

/// `s` with leading whitespace removed.
pub open spec fn trim_front(s: Seq<char>) -> Seq<char>
    decreases s.len(),
{
    if s.len() > 0 && is_ws(s[0]) {
        trim_front(s.drop_first())
    } else {
        s
    }
}

/// `s` with trailing whitespace removed.
pub open spec fn trim_back(s: Seq<char>) -> Seq<char>
    decreases s.len(),
{
    if s.len() > 0 && is_ws(s[s.len() - 1]) {
        trim_back(s.drop_last())
    } else {
        s
    }
}

/// `s` with whitespace removed from both ends.
pub open spec fn trimmed(s: Seq<char>) -> Seq<char> {
    trim_back(trim_front(s))
}

/// `s` with every leading occurrence of `c` removed.
pub open spec fn strip_lead(s: Seq<char>, c: char) -> Seq<char>
    decreases s.len(),
{
    if s.len() > 0 && s[0] == c {
        strip_lead(s.drop_first(), c)
    } else {
        s
    }
}

/// `s` with every leading and every trailing occurrence of `c` removed.
pub open spec fn strip_both(s: Seq<char>, c: char) -> Seq<char>
    decreases s.len(),
{
    if s.len() > 0 && s[0] == c {
        strip_both(s.drop_first(), c)
    } else if s.len() > 0 && s[s.len() - 1] == c {
        strip_both(s.drop_last(), c)
    } else {
        s
    }
}

/// `s` split at every occurrence of `sep`; empty pieces are kept, so the
/// result always holds one piece more than `s` holds separators.
pub open spec fn split_on(s: Seq<char>, sep: char) -> Seq<Seq<char>>
    decreases s.len(),
{
    let i = find_ch(s, sep);
    if i < 0 {
        seq![s]
    } else if i + 1 <= s.len() {
        seq![s.take(i)] + split_on(s.skip(i + 1), sep)
    } else {
        seq![s]
    }
}

/// `s` split at runs of whitespace; no empty pieces.
pub open spec fn split_ws(s: Seq<char>) -> Seq<Seq<char>>
    decreases s.len(),
{
    if s.len() == 0 {
        Seq::empty()
    } else if is_ws(s[0]) {
        split_ws(s.drop_first())
    } else {
        let i = find_ws(s);
        if i < 0 {
            seq![s]
        } else if 1 <= i && i <= s.len() {
            seq![s.take(i)] + split_ws(s.skip(i))
        } else {
            seq![s]
        }
    }
}

/// The views of a sequence of character vectors.
pub open spec fn views(ps: Seq<Vec<char>>) -> Seq<Seq<char>> {
    ps.map_values(|p: Vec<char>| p@)
}

/// The pieces of `split_on`, each trimmed.
pub open spec fn split_trimmed(s: Seq<char>, sep: char) -> Seq<Seq<char>> {
    split_on(s, sep).map_values(|p: Seq<char>| trimmed(p))
}

/// Overwrite one element of a vector.
pub fn vec_set<T>(v: &mut Vec<T>, i: usize, x: T)
    requires
        i < old(v)@.len(),
    ensures
        final(v)@ == old(v)@.update(i as int, x),
{
    let slot = &mut v[i];
    *slot = x;
}

/// Relies on `String::push` of std: appends exactly one character.
#[verifier::external_body]
pub fn push_char(s: &mut String, c: char)
    ensures
        final(s)@ == old(s)@.push(c),
{
    s.push(c);
}

/// The characters of `s`, one vector element per character.
pub fn chars_of(s: &str) -> (v: Vec<char>)
    ensures
        v@ == s@,
{
    let n = s.unicode_len();
    let mut v: Vec<char> = Vec::new();
    let mut i: usize = 0;
    while i < n
        invariant
            i <= n,
            n == s@.len(),
            v@ == s@.subrange(0, i as int),
        decreases n - i,
    {
        let c = s.get_char(i);
        v.push(c);
        proof {
            assert(v@ =~= s@.subrange(0, i + 1));
        }
        i += 1;
    }
    proof {
        assert(v@ =~= s@);
    }
    v
}

/// A `String` holding exactly the characters of `v`.
pub fn string_from(v: &Vec<char>) -> (s: String)
    ensures
        s@ == v@,
{
    let mut s = String::new();
    let mut i: usize = 0;
    while i < v.len()
        invariant
            i <= v@.len(),
            s@ == v@.subrange(0, i as int),
        decreases v@.len() - i,
    {
        push_char(&mut s, v[i]);
        proof {
            assert(s@ =~= v@.subrange(0, i + 1));
        }
        i += 1;
    }
    proof {
        assert(s@ =~= v@);
    }
    s
}

/// A copy of the range `[from, to)` of `v`.
pub fn subvec(v: &Vec<char>, from: usize, to: usize) -> (out: Vec<char>)
    requires
        from <= to <= v@.len(),
    ensures
        out@ == v@.subrange(from as int, to as int),
{
    let mut out: Vec<char> = Vec::new();
    let mut i: usize = from;
    while i < to
        invariant
            from <= i <= to <= v@.len(),
            out@ == v@.subrange(from as int, i as int),
        decreases to - i,
    {
        out.push(v[i]);
        proof {
            assert(out@ =~= v@.subrange(from as int, i + 1));
        }
        i += 1;
    }
    out
}

/// Whether two string slices hold the same characters.
pub fn str_eq(a: &str, b: &str) -> (r: bool)
    ensures
        r == (a@ == b@),
{
    let na = a.unicode_len();
    let nb = b.unicode_len();
    if na != nb {
        return false;
    }
    let mut i: usize = 0;
    while i < na
        invariant
            i <= na,
            na == a@.len(),
            na == b@.len(),
            forall|j: int| 0 <= j < i ==> a@[j] == b@[j],
        decreases na - i,
    {
        if a.get_char(i) != b.get_char(i) {
            return false;
        }
        i += 1;
    }
    proof {
        assert(a@ =~= b@);
    }
    true
}

/// Whether the characters of `v` are exactly those of `s`.
pub fn eq_str(v: &Vec<char>, s: &str) -> (r: bool)
    ensures
        r == (v@ == s@),
{
    let n = s.unicode_len();
    if v.len() != n {
        return false;
    }
    let mut i: usize = 0;
    while i < n
        invariant
            i <= n,
            n == s@.len(),
            n == v@.len(),
            forall|j: int| 0 <= j < i ==> v@[j] == s@[j],
        decreases n - i,
    {
        if v[i] != s.get_char(i) {
            return false;
        }
        i += 1;
    }
    proof {
        assert(v@ =~= s@);
    }
    true
}

/// The word prefix of a word followed by a non-word tail is the word.
pub proof fn lemma_wpl_word_concat(a: Seq<char>, b: Seq<char>)
    requires
        forall|i: int| 0 <= i < a.len() ==> is_word_char(#[trigger] a[i]),
        b.len() == 0 || !is_word_char(b[0]),
    ensures
        word_prefix_len(a + b) == a.len(),
    decreases a.len(),
{
    if a.len() == 0 {
        assert(a + b =~= b);
    } else {
        assert((a + b)[0] == a[0]);
        assert(forall|i: int| 0 <= i < a.len() - 1 ==> a.drop_first()[i] == a[i + 1]);
        lemma_wpl_word_concat(a.drop_first(), b);
        assert((a + b).drop_first() =~= a.drop_first() + b);
    }
}

/// One whitespace-free token and a space peel off the front of a
/// whitespace split.
pub proof fn lemma_split_ws_step(t: Seq<char>, r: Seq<char>)
    requires
        t.len() > 0,
        forall|i: int| 0 <= i < t.len() ==> !is_ws(#[trigger] t[i]),
    ensures
        split_ws(t + seq![' '] + r) == seq![t] + split_ws(r),
{
    let s = t + seq![' '] + r;
    assert(forall|i: int| 0 <= i < t.len() ==> s[i] == t[i]);
    assert(s[t.len() as int] == ' ');
    assert(!is_ws(s[0]));
    lemma_find_ws_at(s, t.len() as int);
    assert(s.take(t.len() as int) =~= t);
    let s2 = seq![' '] + r;
    assert(s.skip(t.len() as int) =~= s2);
    assert(is_ws(s2[0]));
    assert(s2.drop_first() =~= r);
    assert(split_ws(s2) == split_ws(r));
    assert(split_ws(s) == seq![t] + split_ws(s2));
}

/// A lone whitespace-free token splits to itself.
pub proof fn lemma_split_ws_last(t: Seq<char>)
    requires
        t.len() > 0,
        forall|i: int| 0 <= i < t.len() ==> !is_ws(#[trigger] t[i]),
    ensures
        split_ws(t) == seq![t],
{
    lemma_find_ws_absent(t);
    assert(!is_ws(t[0]));
}

/// A split always yields at least one piece.
pub proof fn lemma_split_on_nonempty(s: Seq<char>, sep: char)
    ensures
        split_on(s, sep).len() >= 1,
{
}

/// The pieces of `v` split at `sep`, each trimmed.
pub fn split_trimmed_vec(v: &Vec<char>, sep: char) -> (out: Vec<Vec<char>>)
    ensures
        views(out@) == split_trimmed(v@, sep),
        out@.len() >= 1,
{
    let raw = split_on_vec(v, sep);
    let mut out: Vec<Vec<char>> = Vec::new();
    let mut i: usize = 0;
    while i < raw.len()
        invariant
            i <= raw@.len(),
            views(raw@) == split_on(v@, sep),
            out@.len() == i,
            forall|k: int| 0 <= k < i ==> (#[trigger] out@[k]@) == trimmed(raw@[k]@),
        decreases raw@.len() - i,
    {
        out.push(trim_vec(&raw[i]));
        i += 1;
    }
    proof {
        lemma_split_on_nonempty(v@, sep);
        assert forall|k: int| 0 <= k < out@.len() implies views(out@)[k] == split_trimmed(
            v@,
            sep,
        )[k] by {
            assert(views(raw@)[k] == raw@[k]@);
        }
        assert(views(out@) =~= split_trimmed(v@, sep));
    }
    out
}

/// Joining a further piece extends the joined text by one separator and
/// that piece (or is the piece itself when nothing was joined yet).
pub proof fn lemma_join_push(ps: Seq<Seq<char>>, x: Seq<char>, sep: Seq<char>)
    ensures
        join_with(ps.push(x), sep) == if ps.len() == 0 {
            x
        } else {
            join_with(ps, sep) + sep + x
        },
    decreases ps.len(),
{
    if ps.len() == 0 {
        assert(ps.push(x).len() == 1);
        assert(ps.push(x)[0] == x);
    } else {
        lemma_join_push(ps.drop_first(), x, sep);
        assert(ps.push(x).drop_first() =~= ps.drop_first().push(x));
        assert(ps.push(x)[0] == ps[0]);
        if ps.len() == 1 {
            assert(join_with(ps, sep) == ps[0]);
        }
    }
}

/// The text of the pieces in `ps` from index `from` on, joined with `sep`.
pub open spec fn join_with(ps: Seq<Seq<char>>, sep: Seq<char>) -> Seq<char>
    decreases ps.len(),
{
    if ps.len() == 0 {
        Seq::empty()
    } else if ps.len() == 1 {
        ps[0]
    } else {
        ps[0] + sep + join_with(ps.drop_first(), sep)
    }
}

/// A word: a non-empty run of word characters.
pub open spec fn is_word(s: Seq<char>) -> bool {
    s.len() > 0 && forall|i: int| 0 <= i < s.len() ==> is_word_char(s[i])
}

/// Whether `c` is a word character.
pub fn check_word_char(c: char) -> (r: bool)
    ensures
        r == is_word_char(c),
{
    let u = c as u32;
    (('a' as u32) <= u && u <= ('z' as u32)) || (('A' as u32) <= u && u <= ('Z' as u32)) || (('0'
        as u32) <= u && u <= ('9' as u32)) || c == '_'
}

/// Whether `v` holds a word.
pub fn check_word(v: &Vec<char>) -> (r: bool)
    ensures
        r == is_word(v@),
{
    if v.len() == 0 {
        return false;
    }
    let mut i: usize = 0;
    while i < v.len()
        invariant
            i <= v@.len(),
            forall|j: int| 0 <= j < i ==> is_word_char(v@[j]),
        decreases v@.len() - i,
    {
        if !check_word_char(v[i]) {
            return false;
        }
        i += 1;
    }
    true
}

/// The number of leading word characters of `s`.
pub open spec fn word_prefix_len(s: Seq<char>) -> int
    decreases s.len(),
{
    if s.len() == 0 || !is_word_char(s[0]) {
        0
    } else {
        1 + word_prefix_len(s.drop_first())
    }
}

/// The length of the leading run of word characters of `v`.
pub fn word_prefix(v: &Vec<char>) -> (w: usize)
    ensures
        w == word_prefix_len(v@),
        w <= v@.len(),
        forall|j: int| 0 <= j < w ==> is_word_char(v@[j]),
        w < v@.len() ==> !is_word_char(v@[w as int]),
{
    let mut i: usize = 0;
    proof {
        assert(v@.skip(0) =~= v@);
    }
    while i < v.len() && check_word_char(v[i])
        invariant
            i <= v@.len(),
            word_prefix_len(v@) == i + word_prefix_len(v@.skip(i as int)),
            forall|j: int| 0 <= j < i ==> is_word_char(v@[j]),
        decreases v@.len() - i,
    {
        proof {
            assert(v@.skip(i as int).drop_first() =~= v@.skip(i + 1));
        }
        i += 1;
    }
    proof {
        if i == v@.len() {
            assert(v@.skip(i as int) =~= Seq::<char>::empty());
        }
        assert(word_prefix_len(v@.skip(i as int)) == 0);
    }
    i
}

/// The position after the run of whitespace starting at `from`.
pub fn skip_ws(v: &Vec<char>, from: usize) -> (r: usize)
    requires
        from <= v@.len(),
    ensures
        from <= r <= v@.len(),
        trim_front(v@.skip(from as int)) == v@.skip(r as int),
        r < v@.len() ==> !is_ws(v@[r as int]),
{
    let mut i: usize = from;
    while i < v.len() && check_ws(v[i])
        invariant
            from <= i <= v@.len(),
            trim_front(v@.skip(from as int)) == trim_front(v@.skip(i as int)),
        decreases v@.len() - i,
    {
        proof {
            assert(v@.skip(i as int).drop_first() =~= v@.skip(i + 1));
        }
        i += 1;
    }
    proof {
        if i == v@.len() {
            assert(v@.skip(i as int) =~= Seq::<char>::empty());
        }
        assert(trim_front(v@.skip(i as int)) == v@.skip(i as int));
    }
    i
}

/// Whether `c` is whitespace.
pub fn check_ws(c: char) -> (r: bool)
    ensures
        r == is_ws(c),
{
    c == ' ' || c == '\t' || c == '\n' || c == '\r'
}

/// The case-folded code point of `c`.
pub fn fold_char(c: char) -> (u: u32)
    ensures
        u == folded(c),
{
    let x = c as u32;
    if ('A' as u32) <= x && x <= ('Z' as u32) {
        x + 32
    } else {
        x
    }
}

/// The first occurrence of `c` in `v` at or after `from`.
pub fn find_from(v: &Vec<char>, from: usize, c: char) -> (r: Option<usize>)
    requires
        from <= v@.len(),
    ensures
        match r {
            Some(j) => from <= j < v@.len() && v@[j as int] == c && forall|k: int|
                from <= k < j ==> v@[k] != c,
            None => forall|k: int| from <= k < v@.len() ==> v@[k] != c,
        },
{
    let mut i: usize = from;
    while i < v.len()
        invariant
            from <= i <= v@.len(),
            forall|k: int| from <= k < i ==> v@[k] != c,
        decreases v@.len() - i,
    {
        if v[i] == c {
            return Some(i);
        }
        i += 1;
    }
    None
}

/// The first whitespace in `v` at or after `from`.
pub fn find_ws_from(v: &Vec<char>, from: usize) -> (r: Option<usize>)
    requires
        from <= v@.len(),
    ensures
        match r {
            Some(j) => from <= j < v@.len() && is_ws(v@[j as int]) && forall|k: int|
                from <= k < j ==> !is_ws(v@[k]),
            None => forall|k: int| from <= k < v@.len() ==> !is_ws(v@[k]),
        },
{
    let mut i: usize = from;
    while i < v.len()
        invariant
            from <= i <= v@.len(),
            forall|k: int| from <= k < i ==> !is_ws(v@[k]),
        decreases v@.len() - i,
    {
        if check_ws(v[i]) {
            return Some(i);
        }
        i += 1;
    }
    None
}

/// A first occurrence pins `find_ch` down.
pub proof fn lemma_find_ch_at(s: Seq<char>, c: char, j: int)
    requires
        0 <= j < s.len(),
        s[j] == c,
        forall|k: int| 0 <= k < j ==> s[k] != c,
    ensures
        find_ch(s, c) == j,
{
    lemma_find_ch(s, c);
}

/// Absence pins `find_ch` at -1.
pub proof fn lemma_find_ch_absent(s: Seq<char>, c: char)
    requires
        forall|k: int| 0 <= k < s.len() ==> s[k] != c,
    ensures
        find_ch(s, c) == -1,
{
    lemma_find_ch(s, c);
}

/// A first whitespace pins `find_ws` down.
pub proof fn lemma_find_ws_at(s: Seq<char>, j: int)
    requires
        0 <= j < s.len(),
        is_ws(s[j]),
        forall|k: int| 0 <= k < j ==> !is_ws(s[k]),
    ensures
        find_ws(s) == j,
{
    lemma_find_ws(s);
}

/// Absence of whitespace pins `find_ws` at -1.
pub proof fn lemma_find_ws_absent(s: Seq<char>)
    requires
        forall|k: int| 0 <= k < s.len() ==> !is_ws(s[k]),
    ensures
        find_ws(s) == -1,
{
    lemma_find_ws(s);
}

/// The pieces of `v` split at `sep`.
pub fn split_on_vec(v: &Vec<char>, sep: char) -> (out: Vec<Vec<char>>)
    ensures
        views(out@) == split_on(v@, sep),
{
    let n = v.len();
    let mut out: Vec<Vec<char>> = Vec::new();
    let mut pos: usize = 0;
    proof {
        assert(v@.skip(0) =~= v@);
        assert(views(out@) =~= Seq::<Seq<char>>::empty());
        assert(views(out@) + split_on(v@, sep) =~= split_on(v@, sep));
    }
    loop
        invariant_except_break
            pos <= n,
            n == v@.len(),
            split_on(v@, sep) == views(out@) + split_on(v@.skip(pos as int), sep),
        ensures
            views(out@) == split_on(v@, sep),
        decreases n - pos,
    {
        let found = find_from(v, pos, sep);
        match found {
            Some(j) => {
                let piece = subvec(v, pos, j);
                proof {
                    let suf = v@.skip(pos as int);
                    assert(forall|k: int| 0 <= k < suf.len() ==> suf[k] == v@[pos + k]);
                    lemma_find_ch_at(suf, sep, j - pos);
                    assert(suf.take(j - pos) =~= v@.subrange(pos as int, j as int));
                    assert(suf.skip(j - pos + 1) =~= v@.skip(j + 1));
                    assert(views(out@.push(piece)) =~= views(out@).push(piece@));
                    assert((views(out@) + seq![piece@]) + split_on(v@.skip(j + 1), sep)
                        =~= views(out@) + (seq![piece@] + split_on(v@.skip(j + 1), sep)));
                }
                out.push(piece);
                pos = j + 1;
            },
            None => {
                let piece = subvec(v, pos, n);
                proof {
                    let suf = v@.skip(pos as int);
                    assert(forall|k: int| 0 <= k < suf.len() ==> suf[k] == v@[pos + k]);
                    lemma_find_ch_absent(suf, sep);
                    assert(suf =~= v@.subrange(pos as int, n as int));
                    assert(views(out@.push(piece)) =~= views(out@).push(piece@));
                    assert(views(out@) + seq![piece@] =~= views(out@).push(piece@));
                }
                out.push(piece);
                break;
            },
        }
    }
    out
}

/// The whitespace-separated pieces of `v`.
pub fn split_ws_vec(v: &Vec<char>) -> (out: Vec<Vec<char>>)
    ensures
        views(out@) == split_ws(v@),
{
    let n = v.len();
    let mut out: Vec<Vec<char>> = Vec::new();
    let mut pos: usize = 0;
    proof {
        assert(v@.skip(0) =~= v@);
        assert(views(out@) =~= Seq::<Seq<char>>::empty());
        assert(views(out@) + split_ws(v@) =~= split_ws(v@));
    }
    loop
        invariant_except_break
            pos <= n,
            n == v@.len(),
            split_ws(v@) == views(out@) + split_ws(v@.skip(pos as int)),
        ensures
            views(out@) == split_ws(v@),
        decreases n - pos + 1,
    {
        let ghost pos0: int = pos as int;
        // Skip a run of whitespace.
        while pos < n && check_ws(v[pos])
            invariant
                pos0 <= pos <= n,
                n == v@.len(),
                split_ws(v@) == views(out@) + split_ws(v@.skip(pos as int)),
            decreases n - pos,
        {
            proof {
                let suf = v@.skip(pos as int);
                assert(suf.drop_first() =~= v@.skip(pos + 1));
            }
            pos = pos + 1;
        }
        if pos == n {
            proof {
                assert(v@.skip(pos as int) =~= Seq::<char>::empty());
                assert(views(out@) + Seq::<Seq<char>>::empty() =~= views(out@));
            }
            break;
        }
        let found = find_ws_from(v, pos);
        match found {
            Some(j) => {
                let piece = subvec(v, pos, j);
                proof {
                    let suf = v@.skip(pos as int);
                    assert(forall|k: int| 0 <= k < suf.len() ==> suf[k] == v@[pos + k]);
                    lemma_find_ws_at(suf, j - pos);
                    assert(suf.take(j - pos) =~= v@.subrange(pos as int, j as int));
                    assert(suf.skip(j - pos) =~= v@.skip(j as int));
                    assert(views(out@.push(piece)) =~= views(out@).push(piece@));
                    assert((views(out@) + seq![piece@]) + split_ws(v@.skip(j as int))
                        =~= views(out@) + (seq![piece@] + split_ws(v@.skip(j as int))));
                }
                out.push(piece);
                pos = j;
            },
            None => {
                let piece = subvec(v, pos, n);
                proof {
                    let suf = v@.skip(pos as int);
                    assert(forall|k: int| 0 <= k < suf.len() ==> suf[k] == v@[pos + k]);
                    lemma_find_ws_absent(suf);
                    assert(suf =~= v@.subrange(pos as int, n as int));
                    assert(views(out@.push(piece)) =~= views(out@).push(piece@));
                    assert(views(out@) + seq![piece@] =~= views(out@).push(piece@));
                }
                out.push(piece);
                break;
            },
        }
    }
    out
}

/// `v` with whitespace removed from both ends.
pub fn trim_vec(v: &Vec<char>) -> (out: Vec<char>)
    ensures
        out@ == trimmed(v@),
{
    let n = v.len();
    let mut a: usize = 0;
    proof {
        assert(v@.skip(0) =~= v@);
    }
    while a < n && check_ws(v[a])
        invariant
            a <= n,
            n == v@.len(),
            trim_front(v@) == trim_front(v@.skip(a as int)),
        decreases n - a,
    {
        proof {
            assert(v@.skip(a as int).drop_first() =~= v@.skip(a + 1));
        }
        a = a + 1;
    }
    proof {
        if a == n {
            assert(v@.skip(a as int) =~= Seq::<char>::empty());
        }
        assert(trim_front(v@) == v@.skip(a as int));
        assert(v@.skip(a as int) =~= v@.subrange(a as int, n as int));
    }
    let mut b: usize = n;
    while b > a && check_ws(v[b - 1])
        invariant
            a <= b <= n,
            n == v@.len(),
            trim_front(v@) == v@.skip(a as int),
            trim_back(v@.skip(a as int)) == trim_back(v@.subrange(a as int, b as int)),
        decreases b,
    {
        proof {
            let cur = v@.subrange(a as int, b as int);
            assert(cur[cur.len() - 1] == v@[b - 1]);
            assert(cur.drop_last() =~= v@.subrange(a as int, b - 1));
        }
        b = b - 1;
    }
    proof {
        let cur = v@.subrange(a as int, b as int);
        if b == a {
            assert(cur =~= Seq::<char>::empty());
        } else {
            assert(cur[cur.len() - 1] == v@[b - 1]);
        }
        assert(trim_back(cur) == cur);
    }
    subvec(v, a, b)
}

/// `v` with every leading and trailing occurrence of `c` removed.
pub fn strip_both_vec(v: &Vec<char>, c: char) -> (out: Vec<char>)
    ensures
        out@ == strip_both(v@, c),
{
    let n = v.len();
    let mut a: usize = 0;
    proof {
        assert(v@.skip(0) =~= v@);
    }
    while a < n && v[a] == c
        invariant
            a <= n,
            n == v@.len(),
            strip_both(v@, c) == strip_both(v@.skip(a as int), c),
        decreases n - a,
    {
        proof {
            assert(v@.skip(a as int).drop_first() =~= v@.skip(a + 1));
        }
        a = a + 1;
    }
    proof {
        assert(v@.skip(a as int) =~= v@.subrange(a as int, n as int));
    }
    let mut b: usize = n;
    while b > a && v[b - 1] == c
        invariant
            a <= b <= n,
            n == v@.len(),
            a < n ==> v@[a as int] != c,
            strip_both(v@, c) == strip_both(v@.skip(a as int), c),
            strip_both(v@.skip(a as int), c) == strip_both(v@.subrange(a as int, b as int), c),
        decreases b,
    {
        proof {
            let cur = v@.subrange(a as int, b as int);
            assert(cur[cur.len() - 1] == v@[b - 1]);
            if cur.len() > 0 {
                assert(cur[0] == v@[a as int]);
            }
            assert(cur.drop_last() =~= v@.subrange(a as int, b - 1));
        }
        b = b - 1;
    }
    proof {
        let cur = v@.subrange(a as int, b as int);
        if b == a {
            assert(cur =~= Seq::<char>::empty());
        } else {
            assert(cur[0] == v@[a as int]);
            assert(cur[cur.len() - 1] == v@[b - 1]);
        }
        assert(strip_both(cur, c) == cur);
    }
    subvec(v, a, b)
}

/// The index after every leading occurrence of `c` in `v`.
pub fn strip_lead_vec(v: &Vec<char>, c: char) -> (out: Vec<char>)
    ensures
        out@ == strip_lead(v@, c),
{
    let n = v.len();
    let mut a: usize = 0;
    proof {
        assert(v@.skip(0) =~= v@);
    }
    while a < n && v[a] == c
        invariant
            a <= n,
            n == v@.len(),
            strip_lead(v@, c) == strip_lead(v@.skip(a as int), c),
        decreases n - a,
    {
        proof {
            assert(v@.skip(a as int).drop_first() =~= v@.skip(a + 1));
        }
        a = a + 1;
    }
    proof {
        if a == n {
            assert(v@.skip(a as int) =~= Seq::<char>::empty());
        }
        assert(strip_lead(v@, c) == v@.skip(a as int));
    }
    subvec(v, a, n)
}

/// Whether `v` begins with the characters of `p`.
pub fn has_prefix(v: &Vec<char>, p: &str) -> (r: bool)
    ensures
        r == (v@.len() >= p@.len() && v@.subrange(0, p@.len() as int) == p@),
{
    let m = p.unicode_len();
    if v.len() < m {
        return false;
    }
    let mut i: usize = 0;
    while i < m
        invariant
            i <= m,
            m == p@.len(),
            m <= v@.len(),
            forall|j: int| 0 <= j < i ==> v@[j] == p@[j],
        decreases m - i,
    {
        if v[i] != p.get_char(i) {
            proof {
                assert(v@.subrange(0, m as int)[i as int] != p@[i as int]);
            }
            return false;
        }
        i += 1;
    }
    proof {
        assert(v@.subrange(0, m as int) =~= p@);
    }
    true
}

/// Whether `v` ends with the characters of `p`.
pub fn has_suffix(v: &Vec<char>, p: &str) -> (r: bool)
    ensures
        r == (v@.len() >= p@.len() && v@.subrange(
            v@.len() - p@.len(),
            v@.len() as int,
        ) == p@),
{
    let m = p.unicode_len();
    let n = v.len();
    if n < m {
        return false;
    }
    let base = n - m;
    let mut i: usize = 0;
    while i < m
        invariant
            i <= m,
            m == p@.len(),
            base == n - m,
            n == v@.len(),
            m <= n,
            forall|j: int| 0 <= j < i ==> v@[base + j] == p@[j],
        decreases m - i,
    {
        if v[base + i] != p.get_char(i) {
            proof {
                assert(v@.subrange(n - m, n as int)[i as int] == v@[base + i]);
            }
            return false;
        }
        i += 1;
    }
    proof {
        assert(v@.subrange(n - m, n as int) =~= p@);
    }
    true
}

/// Whether `v` and `s` are equal up to ASCII case.
pub fn eq_ci_str(v: &Vec<char>, s: &str) -> (r: bool)
    ensures
        r == eq_ci(v@, s@),
{
    let m = s.unicode_len();
    if v.len() != m {
        return false;
    }
    let mut i: usize = 0;
    while i < m
        invariant
            i <= m,
            m == s@.len(),
            m == v@.len(),
            forall|j: int| 0 <= j < i ==> eq_ci_char(v@[j], s@[j]),
        decreases m - i,
    {
        if fold_char(v[i]) != fold_char(s.get_char(i)) {
            return false;
        }
        i += 1;
    }
    true
}

/// Whether `pat` occurs in `v`, up to ASCII case.
pub fn contains_ci_vec(v: &Vec<char>, pat: &str) -> (r: bool)
    ensures
        r == contains_ci(v@, pat@),
{
    let m = pat.unicode_len();
    let n = v.len();
    if n < m {
        proof {
            if contains_ci(v@, pat@) {
                let i = choose|i: int|
                    0 <= i && i + pat@.len() <= v@.len() && eq_ci(
                        #[trigger] v@.subrange(i, i + pat@.len()),
                        pat@,
                    );
                assert(false);
            }
        }
        return false;
    }
    let mut i: usize = 0;
    while i <= n - m
        invariant
            i <= n - m + 1,
            m == pat@.len(),
            n == v@.len(),
            m <= n,
            forall|k: int| 0 <= k < i ==> !eq_ci(#[trigger] v@.subrange(k, k + pat@.len()), pat@),
        decreases n - m - i + 1,
    {
        let mut j: usize = 0;
        let mut ok = true;
        while ok && j < m
            invariant
                j <= m,
                i + m <= n,
                m == pat@.len(),
                n == v@.len(),
                ok ==> forall|l: int| 0 <= l < j ==> eq_ci_char(v@[i + l], pat@[l]),
                !ok ==> !eq_ci(v@.subrange(i as int, i + pat@.len()), pat@),
            decreases m - j + (if ok { 1int } else { 0int }),
        {
            if fold_char(v[i + j]) != fold_char(pat.get_char(j)) {
                ok = false;
                proof {
                    let sub = v@.subrange(i as int, i + pat@.len());
                    assert(sub[j as int] == v@[i + j]);
                    assert(!eq_ci_char(sub[j as int], pat@[j as int]));
                }
            } else {
                j += 1;
            }
        }
        if ok {
            proof {
                let sub = v@.subrange(i as int, i + pat@.len());
                assert(forall|l: int| 0 <= l < pat@.len() ==> sub[l] == v@[i + l]);
                assert(eq_ci(sub, pat@));
            }
            return true;
        }
        i += 1;
    }
    proof {
        assert(forall|k: int| 0 <= k && k + pat@.len() <= v@.len() ==> !eq_ci(
            #[trigger] v@.subrange(k, k + pat@.len()),
            pat@,
        ));
    }
    false
}

/// Whether `pat` occurs in `v`.
pub fn contains_sub_vec(v: &Vec<char>, pat: &str) -> (r: bool)
    ensures
        r == contains_sub(v@, pat@),
{
    let m = pat.unicode_len();
    let n = v.len();
    if n < m {
        proof {
            if contains_sub(v@, pat@) {
                let i = choose|i: int|
                    0 <= i && i + pat@.len() <= v@.len() && (#[trigger] v@.subrange(
                        i,
                        i + pat@.len(),
                    )) == pat@;
                assert(false);
            }
        }
        return false;
    }
    if m == 0 {
        proof {
            assert(v@.subrange(0, 0 + pat@.len() as int) =~= pat@);
        }
        return true;
    }
    let mut i: usize = 0;
    while i <= n - m
        invariant
            i <= n - m + 1,
            m == pat@.len(),
            n == v@.len(),
            1 <= m <= n,
            forall|k: int| 0 <= k < i ==> (#[trigger] v@.subrange(k, k + pat@.len())) != pat@,
        decreases n - m - i + 1,
    {
        let mut j: usize = 0;
        let mut ok = true;
        while ok && j < m
            invariant
                j <= m,
                i + m <= n,
                m == pat@.len(),
                n == v@.len(),
                ok ==> forall|l: int| 0 <= l < j ==> v@[i + l] == pat@[l],
                !ok ==> v@.subrange(i as int, i + pat@.len()) != pat@,
            decreases m - j + (if ok {
                1int
            } else {
                0int
            }),
        {
            if v[i + j] != pat.get_char(j) {
                ok = false;
                proof {
                    let sub = v@.subrange(i as int, i + pat@.len());
                    assert(sub[j as int] == v@[i + j]);
                }
            } else {
                j += 1;
            }
        }
        if ok {
            proof {
                let sub = v@.subrange(i as int, i + pat@.len());
                assert(forall|l: int| 0 <= l < pat@.len() ==> sub[l] == v@[i + l]);
                assert(sub =~= pat@);
            }
            return true;
        }
        i += 1;
    }
    false
}

/// The pieces from `from` on, joined with `sep`.
pub fn join_from(ps: &Vec<Vec<char>>, from: usize, sep: &str) -> (out: Vec<char>)
    requires
        from <= ps@.len(),
    ensures
        out@ == join_with(views(ps@).skip(from as int), sep@),
{
    let sepv = chars_of(sep);
    let mut out: Vec<char> = Vec::new();
    let mut i: usize = from;
    while i < ps.len()
        invariant
            from <= i <= ps@.len(),
            sepv@ == sep@,
            out@ == join_with(views(ps@).subrange(from as int, i as int), sep@),
        decreases ps@.len() - i,
    {
        proof {
            let pre = views(ps@).subrange(from as int, i as int);
            lemma_join_push(pre, ps@[i as int]@, sep@);
            assert(pre.push(ps@[i as int]@) =~= views(ps@).subrange(from as int, i + 1));
        }
        if i > from {
            let mut k: usize = 0;
            while k < sepv.len()
                invariant
                    k <= sepv@.len(),
                    out@ == join_with(views(ps@).subrange(from as int, i as int), sep@)
                        + sepv@.subrange(0, k as int),
                decreases sepv@.len() - k,
            {
                out.push(sepv[k]);
                proof {
                    assert(join_with(views(ps@).subrange(from as int, i as int), sep@)
                        + sepv@.subrange(0, k + 1) =~= (join_with(
                        views(ps@).subrange(from as int, i as int),
                        sep@,
                    ) + sepv@.subrange(0, k as int)).push(sepv@[k as int]));
                }
                k += 1;
            }
            proof {
                assert(sepv@.subrange(0, sepv@.len() as int) =~= sep@);
            }
        } else {
            proof {
                assert(views(ps@).subrange(from as int, i as int).len() == 0);
                assert(out@ =~= Seq::<char>::empty());
            }
        }
        let piece = &ps[i];
        let mut k: usize = 0;
        let ghost pre_out = out@;
        while k < piece.len()
            invariant
                k <= piece@.len(),
                piece@ == ps@[i as int]@,
                out@ == pre_out + piece@.subrange(0, k as int),
            decreases piece@.len() - k,
        {
            out.push(piece[k]);
            proof {
                assert(pre_out + piece@.subrange(0, k + 1) =~= (pre_out + piece@.subrange(
                    0,
                    k as int,
                )).push(piece@[k as int]));
            }
            k += 1;
        }
        proof {
            assert(piece@.subrange(0, piece@.len() as int) =~= piece@);
            let pre = views(ps@).subrange(from as int, i as int);
            if i > from {
                assert(out@ =~= join_with(pre, sep@) + sep@ + ps@[i as int]@);
            } else {
                assert(out@ =~= ps@[i as int]@);
            }
        }
        i += 1;
    }
    proof {
        assert(views(ps@).subrange(from as int, ps@.len() as int) =~= views(ps@).skip(
            from as int,
        ));
    }
    out
}

} // verus!
