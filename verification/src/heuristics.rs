//! Filename heuristics: the logical name and the version token of a release
//! file, read off its filename alone.
//!
//! Both functions are total. A filename that does not carry the release
//! extension, or in which no version can be told apart, yields `None`.

use vstd::prelude::*;
use vstd::string::StrSliceExecFns;
use crate::text::{chars_of, drop_tail, ends_with, prefix_ends_with};

verus! {

/// An ASCII decimal digit.
pub open spec fn is_digit(c: char) -> bool {
    '0' <= c && c <= '9'
}

/// A character that separates the parts of a filename.
pub open spec fn is_separator(c: char) -> bool {
    c == '-' || c == '_'
}

/// The filename without the release extension; `None` where it does not end
/// with that extension.
pub open spec fn stem(filename: Seq<char>) -> Option<Seq<char>> {
    if ends_with(filename, ".jar"@) {
        Some(drop_tail(filename, 4))
    } else {
        None
    }
}

/// Position `i` of `s` holds a digit, and a `.` follows somewhere after it.
pub open spec fn begins_version(s: Seq<char>, i: int) -> bool {
    &&& 0 <= i < s.len()
    &&& is_digit(s[i])
    &&& exists|j: int| i < j < s.len() && s[j] == '.'
}

/// `i` is the first position of `s` that begins a version.
pub open spec fn is_version_start(s: Seq<char>, i: int) -> bool {
    &&& begins_version(s, i)
    &&& forall|k: int| 0 <= k < i ==> !begins_version(s, k)
}

/// The first position of `s` that begins a version, if there is one.
pub open spec fn version_start(s: Seq<char>) -> Option<int> {
    if exists|i: int| is_version_start(s, i) {
        Some(choose|i: int| is_version_start(s, i))
    } else {
        None
    }
}

/// `p` without the separators at its end.
pub open spec fn trim_separators(p: Seq<char>) -> Seq<char>
    decreases p.len(),
{
    if p.len() > 0 && is_separator(p.last()) {
        trim_separators(p.drop_last())
    } else {
        p
    }
}

/// `p` without one loader suffix at its end, if it has one.
pub open spec fn strip_loader(p: Seq<char>) -> Seq<char> {
    if ends_with(p, "-forge"@) || ends_with(p, "_forge"@) {
        drop_tail(p, 6)
    } else if ends_with(p, "-fabric"@) || ends_with(p, "_fabric"@) {
        drop_tail(p, 7)
    } else if ends_with(p, "-mc"@) || ends_with(p, "_mc"@) {
        drop_tail(p, 3)
    } else {
        p
    }
}

/// The logical name of a release file: what stands before its version, with
/// the separators at the end trimmed and one loader suffix removed.
pub open spec fn logical_name(filename: Seq<char>) -> Option<Seq<char>> {
    match stem(filename) {
        Some(s) => match version_start(s) {
            Some(i) => Some(strip_loader(trim_separators(s.take(i)))),
            None => None,
        },
        None => None,
    }
}

/// `i` is the position of the last digit of `s`.
pub open spec fn is_last_digit(s: Seq<char>, i: int) -> bool {
    &&& 0 <= i < s.len()
    &&& is_digit(s[i])
    &&& forall|k: int| i < k < s.len() ==> !is_digit(s[k])
}

/// The position of the last digit of `s`, if it has a digit.
pub open spec fn last_digit(s: Seq<char>) -> Option<int> {
    if exists|i: int| is_last_digit(s, i) {
        Some(choose|i: int| is_last_digit(s, i))
    } else {
        None
    }
}

/// The separator-free stretch of `s` that ends before `end` begins at `start`:
/// a separator, or nothing, stands before `start`.
pub open spec fn is_token_start(s: Seq<char>, start: int, end: int) -> bool {
    &&& 0 <= start <= end <= s.len()
    &&& start == 0 || is_separator(s[start - 1])
    &&& forall|k: int| start <= k < end ==> !is_separator(s[k])
}

/// Where the separator-free stretch of `s` that ends before `end` begins.
pub open spec fn token_start(s: Seq<char>, end: int) -> int {
    choose|start: int| is_token_start(s, start, end)
}

/// The version token of a release file: the separator-free stretch that ends
/// with the last digit before the extension.
pub open spec fn version_token(filename: Seq<char>) -> Option<Seq<char>> {
    match stem(filename) {
        Some(s) => match last_digit(s) {
            Some(i) => Some(s.subrange(token_start(s, i + 1), i + 1)),
            None => None,
        },
        None => None,
    }
}

/// At most one position is the version start.
pub proof fn lemma_version_start_is(s: Seq<char>, i: int)
    requires
        is_version_start(s, i),
    ensures
        version_start(s) == Some(i),
{
    let c = choose|c: int| is_version_start(s, c);
    if c < i {
        assert(!begins_version(s, c));
    } else if i < c {
        assert(!begins_version(s, i));
    }
}

/// Without a digit that a `.` follows there is no version start.
pub proof fn lemma_version_start_none(s: Seq<char>)
    requires
        forall|i: int| 0 <= i < s.len() ==> !begins_version(s, i),
    ensures
        version_start(s) is None,
{
    if exists|i: int| is_version_start(s, i) {
        let c = choose|c: int| is_version_start(s, c);
        assert(begins_version(s, c));
    }
}

/// At most one position is the last digit.
pub proof fn lemma_last_digit_is(s: Seq<char>, i: int)
    requires
        is_last_digit(s, i),
    ensures
        last_digit(s) == Some(i),
{
    let c = choose|c: int| is_last_digit(s, c);
    if c < i {
        assert(!is_digit(s[i]));
    } else if i < c {
        assert(!is_digit(s[c]));
    }
}

/// A sequence without digits has no last digit.
pub proof fn lemma_last_digit_none(s: Seq<char>)
    requires
        forall|i: int| 0 <= i < s.len() ==> !is_digit(s[i]),
    ensures
        last_digit(s) is None,
{
    if exists|i: int| is_last_digit(s, i) {
        let c = choose|c: int| is_last_digit(s, c);
        assert(is_digit(s[c]));
    }
}

/// At most one position is the start of the token that ends before `end`.
pub proof fn lemma_token_start_is(s: Seq<char>, start: int, end: int)
    requires
        is_token_start(s, start, end),
    ensures
        token_start(s, end) == start,
{
    let c = choose|c: int| is_token_start(s, c, end);
    if c < start {
        assert(!is_separator(s[start - 1]));
    } else if start < c {
        assert(!is_separator(s[c - 1]));
    }
}

/// Trimming looks only at the separators at the end.
pub proof fn lemma_trim_separators(p: Seq<char>, end: int)
    requires
        0 <= end <= p.len(),
        forall|k: int| end <= k < p.len() ==> is_separator(p[k]),
        end == 0 || !is_separator(p[end - 1]),
    ensures
        trim_separators(p) == p.take(end),
    decreases p.len(),
{
    if end == p.len() {
        assert(p.take(end) =~= p);
    } else {
        assert(is_separator(p.last()));
        lemma_trim_separators(p.drop_last(), end);
        assert(p.drop_last().take(end) =~= p.take(end));
    }
}

/// An ASCII letter or digit.
pub open spec fn is_alphanumeric(c: char) -> bool {
    is_digit(c) || ('a' <= c && c <= 'z') || ('A' <= c && c <= 'Z')
}

/// The filename built from a mod's name, the game version and the mod version:
/// the three joined by `-`, then the release extension.
pub open spec fn constructed_filename(name: Seq<char>, game: Seq<char>, version: Seq<char>) -> Seq<
    char,
> {
    name + seq!['-'] + game + seq!['-'] + version + ".jar"@
}

/// `s` holds a digit.
pub open spec fn has_digit(s: Seq<char>) -> bool {
    exists|i: int| 0 <= i < s.len() && is_digit(s[i])
}

/// `s` holds a `.`.
pub open spec fn has_dot(s: Seq<char>) -> bool {
    exists|i: int| 0 <= i < s.len() && s[i] == '.'
}

/// The position of the first digit of a sequence that holds one.
proof fn lemma_first_digit(s: Seq<char>) -> (k: int)
    requires
        has_digit(s),
    ensures
        0 <= k < s.len(),
        is_digit(s[k]),
        forall|j: int| 0 <= j < k ==> !is_digit(s[j]),
    decreases s.len(),
{
    let w = choose|i: int| 0 <= i < s.len() && is_digit(s[i]);
    if has_digit(s.take(w)) {
        let k = lemma_first_digit(s.take(w));
        assert(s.take(w)[k] == s[k]);
        assert forall|j: int| 0 <= j < k implies !is_digit(s[j]) by {
            assert(s.take(w)[j] == s[j]);
        }
        k
    } else {
        assert forall|j: int| 0 <= j < w implies !is_digit(s[j]) by {
            assert(s.take(w)[j] == s[j]);
        }
        w
    }
}

/// A sequence of letters and digits carries no loader suffix and no separator
/// to trim.
proof fn lemma_alphanumeric_is_kept(p: Seq<char>)
    requires
        forall|i: int| 0 <= i < p.len() ==> is_alphanumeric(p[i]),
    ensures
        strip_loader(trim_separators(p)) == p,
{
    reveal_strlit("-forge");
    reveal_strlit("_forge");
    reveal_strlit("-fabric");
    reveal_strlit("_fabric");
    reveal_strlit("-mc");
    reveal_strlit("_mc");
    if p.len() > 0 {
        assert(is_alphanumeric(p.last()));
    }
    assert(trim_separators(p) == p);
    if p.len() >= 6 {
        assert(is_alphanumeric(p[p.len() - 6]));
        assert(p.subrange(p.len() - 6, p.len() as int)[0] == p[p.len() - 6]);
    }
    if p.len() >= 7 {
        assert(is_alphanumeric(p[p.len() - 7]));
        assert(p.subrange(p.len() - 7, p.len() as int)[0] == p[p.len() - 7]);
    }
    if p.len() >= 3 {
        assert(is_alphanumeric(p[p.len() - 3]));
        assert(p.subrange(p.len() - 3, p.len() as int)[0] == p[p.len() - 3]);
    }
}

/// The heuristics on a constructed filename.
///
/// Take a name of ASCII letters and digits, and a filename built from it, a
/// game version and a mod version. Let a digit stand in the name or at the
/// head of the game version, a `.` in one of the two versions, and let the mod
/// version be free of separators and end with a digit. Then the logical name
/// is the name up to its first digit, so the whole name where it has no digit,
/// and the version token is the mod version.
pub proof fn lemma_constructed_filename(name: Seq<char>, game: Seq<char>, version: Seq<char>)
    requires
        forall|i: int| 0 <= i < name.len() ==> is_alphanumeric(name[i]),
        has_digit(name) || (game.len() > 0 && is_digit(game[0])),
        has_dot(game) || has_dot(version),
        version.len() > 0,
        is_digit(version.last()),
        forall|i: int| 0 <= i < version.len() ==> !is_separator(version[i]),
    ensures
        logical_name(constructed_filename(name, game, version)) matches Some(p) && p.is_prefix_of(
            name,
        ),
        !has_digit(name) ==> logical_name(constructed_filename(name, game, version)) == Some(name),
        version_token(constructed_filename(name, game, version)) == Some(version),
{
    reveal_strlit(".jar");
    let f = constructed_filename(name, game, version);
    let s = name + seq!['-'] + game + seq!['-'] + version;
    let n = name.len() as int;
    let g = game.len() as int;
    assert(f.subrange(f.len() - 4, f.len() as int) =~= ".jar"@);
    assert(drop_tail(f, 4) =~= s);
    assert(stem(f) == Some(s));
    // a `.` stands behind the name
    let dot = if has_dot(game) {
        n + 1 + choose|i: int| 0 <= i < game.len() && game[i] == '.'
    } else {
        n + g + 2 + choose|i: int| 0 <= i < version.len() && version[i] == '.'
    };
    assert(n < dot < s.len() && s[dot] == '.');
    let k = if has_digit(name) {
        lemma_first_digit(name)
    } else {
        n + 1
    };
    if has_digit(name) {
        assert(s[k] == name[k]);
        assert(s.take(k) =~= name.take(k));
    } else {
        assert(s[k] == game[0]);
        assert(s.take(k) =~= name + seq!['-']);
        lemma_trim_separators(name + seq!['-'], n);
        assert((name + seq!['-']).take(n) =~= name);
        assert(name.take(n) =~= name);
    }
    assert(k != dot);
    assert(begins_version(s, k));
    assert forall|j: int| 0 <= j < k implies !begins_version(s, j) by {
        if j < n {
            assert(s[j] == name[j]);
        } else {
            assert(s[j] == '-');
        }
    }
    lemma_version_start_is(s, k);
    let p = if has_digit(name) {
        name.take(k)
    } else {
        name
    };
    assert(trim_separators(s.take(k)) == trim_separators(p)) by {
        if has_digit(name) {
        } else {
            assert(name.len() == 0 || is_alphanumeric(name.last()));
            assert(trim_separators(name) == name);
        }
    }
    assert forall|i: int| 0 <= i < p.len() implies is_alphanumeric(p[i]) by {
        assert(p[i] == name[i]);
    }
    lemma_alphanumeric_is_kept(p);
    assert(trim_separators(p) == p) by {
        assert(p.len() == 0 || is_alphanumeric(p.last()));
    }
    assert(logical_name(f) == Some(p));
    assert(p.is_prefix_of(name)) by {
        assert(name.subrange(0, p.len() as int) =~= p);
    }
    // the version token
    let last = s.len() - 1;
    let start = s.len() - version.len();
    assert(s[last] == version.last());
    assert(is_last_digit(s, last));
    lemma_last_digit_is(s, last);
    assert(s[start - 1] == '-');
    assert forall|j: int| start <= j < s.len() implies !is_separator(s[j]) by {
        assert(s[j] == version[j - start]);
    }
    lemma_token_start_is(s, start, last + 1);
    assert(s.subrange(start, last + 1) =~= version);
}

fn digit(c: char) -> (r: bool)
    ensures
        r == is_digit(c),
{
    c >= '0' && c <= '9'
}

fn separator(c: char) -> (r: bool)
    ensures
        r == is_separator(c),
{
    c == '-' || c == '_'
}

/// The length of the stem of the filename that `cs` holds, if it carries the
/// release extension.
fn stem_len(cs: &Vec<char>) -> (r: Option<usize>)
    ensures
        match r {
            Some(n) => n + 4 == cs.len() && stem(cs@) == Some(cs@.take(n as int)),
            None => stem(cs@) is None,
        },
{
    let ext = chars_of(".jar");
    proof {
        reveal_strlit(".jar");
        assert(cs@.take(cs@.len() as int) =~= cs@);
    }
    if prefix_ends_with(cs, cs.len(), &ext) {
        Some(cs.len() - 4)
    } else {
        None
    }
}

/// How many characters of the loader suffix, if any, end the first `end`
/// characters of `cs`.
fn loader_suffix_len(cs: &Vec<char>, end: usize) -> (cut: usize)
    requires
        end <= cs.len(),
    ensures
        cut <= end,
        cs@.take(end - cut) == strip_loader(cs@.take(end as int)),
{
    proof {
        reveal_strlit("-forge");
        reveal_strlit("_forge");
        reveal_strlit("-fabric");
        reveal_strlit("_fabric");
        reveal_strlit("-mc");
        reveal_strlit("_mc");
    }
    let ghost p = cs@.take(end as int);
    let cut: usize = if prefix_ends_with(cs, end, &chars_of("-forge")) || prefix_ends_with(
        cs,
        end,
        &chars_of("_forge"),
    ) {
        6
    } else if prefix_ends_with(cs, end, &chars_of("-fabric")) || prefix_ends_with(
        cs,
        end,
        &chars_of("_fabric"),
    ) {
        7
    } else if prefix_ends_with(cs, end, &chars_of("-mc")) || prefix_ends_with(
        cs,
        end,
        &chars_of("_mc"),
    ) {
        3
    } else {
        0
    };
    proof {
        assert(p.take(p.len() - cut) =~= cs@.take(end - cut));
    }
    cut
}

/// Extracts the logical name of a release file from its filename.
///
/// The name is what stands before the first digit that a `.` follows
/// somewhere later in the stem, without the separators at its end and without
/// one loader suffix. The result borrows from `filename`.
pub fn extract_mod_name(filename: &str) -> (name: Option<&str>)
    ensures
        name.deep_view() == logical_name(filename@),
{
    let cs = chars_of(filename);
    let n: usize = match stem_len(&cs) {
        Some(n) => n,
        None => {
            return None;
        },
    };
    let ghost s = cs@.take(n as int);
    let mut i: usize = 0;
    while i < n && !digit(cs[i])
        invariant
            i <= n <= cs.len(),
            s == cs@.take(n as int),
            forall|k: int| 0 <= k < i ==> !is_digit(s[k]),
        decreases n - i,
    {
        i += 1;
    }
    if i == n {
        proof {
            lemma_version_start_none(s);
        }
        return None;
    }
    let mut j: usize = i + 1;
    while j < n && cs[j] != '.'
        invariant
            i < j <= n <= cs.len(),
            s == cs@.take(n as int),
            forall|k: int| i < k < j ==> s[k] != '.',
        decreases n - j,
    {
        j += 1;
    }
    if j == n {
        proof {
            assert forall|k: int| 0 <= k < s.len() implies !begins_version(s, k) by {
                if k > i && is_digit(s[k]) {
                }
            }
            lemma_version_start_none(s);
        }
        return None;
    }
    proof {
        assert(s[j as int] == '.');
        assert(begins_version(s, i as int));
        lemma_version_start_is(s, i as int);
    }
    let mut end: usize = i;
    while end > 0 && separator(cs[end - 1])
        invariant
            end <= i < n <= cs.len(),
            s == cs@.take(n as int),
            forall|k: int| end <= k < i ==> is_separator(s[k]),
        decreases end,
    {
        end -= 1;
    }
    proof {
        lemma_trim_separators(s.take(i as int), end as int);
        assert(s.take(i as int).take(end as int) =~= cs@.take(end as int));
    }
    let cut = loader_suffix_len(&cs, end);
    let name = filename.substring_char(0, end - cut);
    proof {
        assert(name@ =~= cs@.take(end - cut));
    }
    Some(name)
}

/// Extracts the version token of a release file from its filename.
///
/// The token ends with the last digit of the stem and begins after the
/// nearest separator before that digit, or at the start of the filename. The
/// result borrows from `filename`.
pub fn extract_version(filename: &str) -> (version: Option<&str>)
    ensures
        version.deep_view() == version_token(filename@),
{
    let cs = chars_of(filename);
    let n: usize = match stem_len(&cs) {
        Some(n) => n,
        None => {
            return None;
        },
    };
    let ghost s = cs@.take(n as int);
    let mut end: usize = n;
    while end > 0 && !digit(cs[end - 1])
        invariant
            end <= n <= cs.len(),
            s == cs@.take(n as int),
            forall|k: int| end <= k < n ==> !is_digit(s[k]),
        decreases end,
    {
        end -= 1;
    }
    if end == 0 {
        proof {
            lemma_last_digit_none(s);
        }
        return None;
    }
    proof {
        lemma_last_digit_is(s, end - 1);
    }
    let mut start: usize = end;
    while start > 0 && !separator(cs[start - 1])
        invariant
            start <= end <= n <= cs.len(),
            s == cs@.take(n as int),
            forall|k: int| start <= k < end ==> !is_separator(s[k]),
        decreases start,
    {
        start -= 1;
    }
    proof {
        lemma_token_start_is(s, start as int, end as int);
    }
    let version = filename.substring_char(start, end);
    proof {
        assert(version@ =~= s.subrange(start as int, end as int));
    }
    Some(version)
}

} // verus!
