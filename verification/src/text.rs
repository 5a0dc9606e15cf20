//! Line-level text helpers: whitespace trimming, whitespace-separated
//! tokenization, and recognition of the `facet` marker line.

use vstd::prelude::*;

verus! {

/// ASCII whitespace.  STL text is plain ASCII, so these are the only
/// characters trimming and token splitting treat as blank.
pub open spec fn is_space(c: char) -> bool {
    c == ' ' || c == '\t' || c == '\n' || c == '\r' || c == '\x0b' || c == '\x0c'
}

/// Executable mirror of [`is_space`].
pub fn space_char(c: char) -> (r: bool)
    ensures
        r == is_space(c),
{
    c == ' ' || c == '\t' || c == '\n' || c == '\r' || c == '\x0b' || c == '\x0c'
}

/// The characters left after dropping leading whitespace.
pub open spec fn ltrim(s: Seq<char>) -> Seq<char>
    decreases s.len(),
{
    if s.len() > 0 && is_space(s[0]) {
        ltrim(s.drop_first())
    } else {
        s
    }
}

/// The characters left after dropping trailing whitespace.
pub open spec fn rtrim(s: Seq<char>) -> Seq<char>
    decreases s.len(),
{
    if s.len() > 0 && is_space(s.last()) {
        rtrim(s.drop_last())
    } else {
        s
    }
}

/// The characters left after dropping leading and trailing whitespace,
/// as `str::trim` drops them.
pub open spec fn trimmed(s: Seq<char>) -> Seq<char> {
    rtrim(ltrim(s))
}

/// The marker keyword that opens a facet block.
pub open spec fn facet_keyword() -> Seq<char> {
    seq!['f', 'a', 'c', 'e', 't']
}

/// A line opens a facet block when, after trimming, it begins with `facet`.
pub open spec fn is_facet_marker(line: Seq<char>) -> bool {
    trimmed(line).len() >= 5 && trimmed(line).take(5) == facet_keyword()
}

/// If the first `k` characters are whitespace and the character at `k` (if
/// any) is not, then left-trimming drops exactly those `k` characters.
proof fn lemma_ltrim_skip(s: Seq<char>, k: int)
    requires
        0 <= k <= s.len(),
        forall|j: int| 0 <= j < k ==> is_space(s[j]),
        k == s.len() || !is_space(s[k]),
    ensures
        ltrim(s) == s.skip(k),
    decreases k,
{
    if k == 0 {
        assert(s.skip(0) =~= s);
    } else {
        lemma_ltrim_skip(s.drop_first(), k - 1);
        assert(s.drop_first().skip(k - 1) =~= s.skip(k));
    }
}

/// Right-trimming keeps a prefix of the original characters.
proof fn lemma_rtrim_prefix(s: Seq<char>)
    ensures
        rtrim(s).len() <= s.len(),
        rtrim(s) == s.take(rtrim(s).len() as int),
    decreases s.len(),
{
    if s.len() > 0 && is_space(s.last()) {
        lemma_rtrim_prefix(s.drop_last());
        assert(s.drop_last().take(rtrim(s).len() as int) =~= s.take(rtrim(s).len() as int));
    } else {
        assert(s.take(s.len() as int) =~= s);
    }
}

/// Right-trimming never drops a character at or before a non-whitespace one.
proof fn lemma_rtrim_keeps_nonspace(s: Seq<char>, i: int)
    requires
        0 <= i < s.len(),
        !is_space(s[i]),
    ensures
        rtrim(s).len() > i,
    decreases s.len(),
{
    if s.len() > 0 && is_space(s.last()) {
        lemma_rtrim_keeps_nonspace(s.drop_last(), i);
    }
}

/// Executable recognizer for [`is_facet_marker`]: skip leading whitespace,
/// then test for the five characters of the keyword.
pub fn facet_marker(line: &str) -> (r: bool)
    ensures
        r == is_facet_marker(line@),
{
    let n = line.unicode_len();
    let mut p: usize = 0;
    while p < n && space_char(line.get_char(p))
        invariant
            0 <= p <= n == line@.len(),
            forall|j: int| 0 <= j < p ==> is_space(line@[j]),
        decreases n - p,
    {
        p = p + 1;
    }
    proof {
        lemma_ltrim_skip(line@, p as int);
    }
    let ghost t = ltrim(line@);
    if n - p < 5 {
        proof {
            lemma_rtrim_prefix(t);
            assert(trimmed(line@).len() <= t.len());
        }
        return false;
    }
    let r = line.get_char(p) == 'f' && line.get_char(p + 1) == 'a' && line.get_char(p + 2) == 'c'
        && line.get_char(p + 3) == 'e' && line.get_char(p + 4) == 't';
    proof {
        lemma_rtrim_prefix(t);
        if r {
            assert(!is_space(t[4]));
            lemma_rtrim_keeps_nonspace(t, 4);
            assert(trimmed(line@).take(5) =~= facet_keyword());
        } else {
            if is_facet_marker(line@) {
                assert(trimmed(line@) == t.take(rtrim(t).len() as int));
                assert(forall|j: int| 0 <= j < 5 ==> trimmed(line@)[j] == t[j]);
                assert(t.take(5) =~= facet_keyword());
            }
        }
    }
    r
}

/// The index just past the whitespace-free token that starts at `i`: the
/// first position at or after `i` holding whitespace, or the end.
pub open spec fn token_end(s: Seq<char>, i: int) -> int
    decreases s.len() - i,
{
    if i < 0 || i >= s.len() {
        i
    } else if is_space(s[i]) {
        i
    } else {
        token_end(s, i + 1)
    }
}

proof fn lemma_token_end_bounds(s: Seq<char>, i: int)
    requires
        0 <= i <= s.len(),
    ensures
        i <= token_end(s, i) <= s.len(),
        i < s.len() && !is_space(s[i]) ==> token_end(s, i) > i,
    decreases s.len() - i,
{
    if i < s.len() && !is_space(s[i]) {
        lemma_token_end_bounds(s, i + 1);
    }
}

/// The whitespace-separated tokens of `s`, from position `i` on.
pub open spec fn tokens_from(s: Seq<char>, i: int) -> Seq<Seq<char>>
    decreases s.len() - i,
    when 0 <= i <= s.len()
    via tokens_from_decreases
{
    if i >= s.len() {
        Seq::empty()
    } else if is_space(s[i]) {
        tokens_from(s, i + 1)
    } else {
        seq![s.subrange(i, token_end(s, i))] + tokens_from(s, token_end(s, i))
    }
}

#[via_fn]
proof fn tokens_from_decreases(s: Seq<char>, i: int) {
    if 0 <= i <= s.len() {
        lemma_token_end_bounds(s, i);
    }
}

/// The views of a sequence of owned strings.
pub open spec fn str_views(v: Seq<String>) -> Seq<Seq<char>> {
    v.map_values(|t: String| t@)
}

/// Executable tokenizer: the whitespace-separated tokens of `line`, owned.
pub fn split_tokens(line: &str) -> (v: Vec<String>)
    ensures
        str_views(v@) == tokens_from(line@, 0),
{
    let n = line.unicode_len();
    let mut v: Vec<String> = Vec::new();
    let mut i: usize = 0;
    while i < n
        invariant
            0 <= i <= n == line@.len(),
            str_views(v@) + tokens_from(line@, i as int) == tokens_from(line@, 0),
        decreases n - i,
    {
        if space_char(line.get_char(i)) {
            i = i + 1;
        } else {
            let mut j: usize = i;
            while j < n && !space_char(line.get_char(j))
                invariant
                    i <= j <= n == line@.len(),
                    token_end(line@, i as int) == token_end(line@, j as int),
                decreases n - j,
            {
                j = j + 1;
            }
            proof {
                assert(token_end(line@, j as int) == j as int);
                lemma_token_end_bounds(line@, i as int);
            }
            let tok = line.substring_char(i, j).to_owned();
            proof {
                let ghost old_views = str_views(v@);
                assert(str_views(v@.push(tok)) =~= old_views.push(tok@));
                assert(old_views.push(tok@) =~= old_views + seq![tok@]);
            }
            v.push(tok);
            i = j;
        }
    }
    proof {
        assert(str_views(v@) + tokens_from(line@, n as int) =~= str_views(v@));
    }
    v
}

} // verus!
