//! Glob matching of a bare file name.
//!
//! A pattern is read character by character. `?` stands for any one
//! character, `*` for any run of characters that stays inside one path
//! segment, `**` for any run of characters at all, and every other character
//! for itself. A pattern matches a name only as a whole, and upper and lower
//! case are kept apart. There is no way to write a pattern that is not well
//! formed: a line without wildcards is the name it spells.
//!
//! [`glob_matches`] says what matches what, [`glob_match`] decides it. The
//! laws behind them say the same once more, wildcard by wildcard.

use vstd::prelude::*;

verus! {

/// The character that separates path segments.
pub open spec fn is_separator(c: char) -> bool {
    c == '/'
}

/// Whether the pattern `p`, read from position `i` on, matches the name `n`
/// from position `j` on.
pub open spec fn glob_matches_from(p: Seq<char>, i: int, n: Seq<char>, j: int) -> bool
    decreases p.len() - i, n.len() - j,
{
    if i < 0 || p.len() < i || j < 0 || n.len() < j {
        false
    } else if i == p.len() {
        j == n.len()
    } else if p[i] == '*' && i + 1 < p.len() && p[i + 1] == '*' {
        // `**`: nothing, or one more character of any kind
        glob_matches_from(p, i + 2, n, j) || (j < n.len() && glob_matches_from(p, i, n, j + 1))
    } else if p[i] == '*' {
        // `*`: nothing, or one more character of this segment
        glob_matches_from(p, i + 1, n, j) || (j < n.len() && !is_separator(n[j])
            && glob_matches_from(p, i, n, j + 1))
    } else if p[i] == '?' {
        j < n.len() && glob_matches_from(p, i + 1, n, j + 1)
    } else {
        j < n.len() && n[j] == p[i] && glob_matches_from(p, i + 1, n, j + 1)
    }
}

/// Whether the pattern `p` matches the whole name `n`.
pub open spec fn glob_matches(p: Seq<char>, n: Seq<char>) -> bool {
    glob_matches_from(p, 0, n, 0)
}

/// Whether `p` holds no wildcard, so that every character stands for itself.
pub open spec fn is_literal(p: Seq<char>) -> bool {
    forall|k: int| 0 <= k < p.len() ==> p[k] != '*' && p[k] != '?'
}

/// Whether a pattern may be cut into `first` and `second` without parting
/// two stars that stand side by side.
pub open spec fn cut_spares_stars(first: Seq<char>, second: Seq<char>) -> bool {
    !(first.len() > 0 && first.last() == '*' && second.len() > 0 && second[0] == '*')
}

/// Decides whether the pattern `p` matches the whole name `n`.
///
/// The table of [`glob_matches_from`] is filled row by row, from the end of
/// the pattern to its start, so the work is the product of the two lengths.
pub fn glob_match(p: &[char], n: &[char]) -> (r: bool)
    ensures
        r == glob_matches(p@, n@),
{
    let m = n.len();
    // Rows for the pattern positions `i` and `i + 1`.
    let mut near = blank_row(m);
    let mut near_end = true;
    let mut far = blank_row(m);
    let mut far_end = false;
    let mut i = p.len();
    while i > 0
        invariant
            i <= p@.len(),
            m == n@.len(),
            is_row(near@, near_end, p@, i as int, n@),
            i < p@.len() ==> is_row(far@, far_end, p@, i + 1, n@),
            far@.len() == m,
        decreases i,
    {
        i -= 1;
        let c = p[i];
        let any_run = c == '*' && i + 1 < p.len() && p[i + 1] == '*';
        let mut row = blank_row(m);
        let row_end = if any_run {
            far_end
        } else if c == '*' {
            near_end
        } else {
            false
        };
        let mut j = m;
        while j > 0
            invariant
                j <= m,
                m == n@.len(),
                i < p@.len(),
                c == p@[i as int],
                any_run == (c == '*' && i + 1 < p@.len() && p@[i + 1] == '*'),
                row@.len() == m,
                row_end == glob_matches_from(p@, i as int, n@, m as int),
                forall|k: int| j <= k < m ==> row@[k] == glob_matches_from(p@, i as int, n@, k),
                is_row(near@, near_end, p@, i + 1, n@),
                any_run ==> is_row(far@, far_end, p@, i + 2, n@),
            decreases j,
        {
            j -= 1;
            let value = if any_run {
                far[j] || row_entry(&row, row_end, j + 1)
            } else if c == '*' {
                near[j] || (n[j] != '/' && row_entry(&row, row_end, j + 1))
            } else if c == '?' {
                row_entry(&near, near_end, j + 1)
            } else {
                n[j] == c && row_entry(&near, near_end, j + 1)
            };
            row.set(j, value);
        }
        far = near;
        far_end = near_end;
        near = row;
        near_end = row_end;
    }
    row_entry(&near, near_end, 0)
}

/// One row of the matching table: entry `j` of the row for pattern position
/// `i` says whether the pattern from `i` on matches the name from `j` on. The
/// entry for the end of the name is kept beside the vector.
spec fn is_row(row: Seq<bool>, end: bool, p: Seq<char>, i: int, n: Seq<char>) -> bool {
    &&& row.len() == n.len()
    &&& end == glob_matches_from(p, i, n, n.len() as int)
    &&& forall|j: int| 0 <= j < n.len() ==> row[j] == glob_matches_from(p, i, n, j)
}

fn row_entry(row: &Vec<bool>, end: bool, j: usize) -> (r: bool)
    requires
        j <= row@.len(),
    ensures
        r == if j < row@.len() {
            row@[j as int]
        } else {
            end
        },
{
    if j < row.len() {
        row[j]
    } else {
        end
    }
}

fn blank_row(len: usize) -> (row: Vec<bool>)
    ensures
        row@.len() == len,
        forall|j: int| 0 <= j < len ==> !row@[j],
{
    let mut row: Vec<bool> = Vec::new();
    while row.len() < len
        invariant
            row@.len() <= len,
            forall|j: int| 0 <= j < row@.len() ==> !row@[j],
        decreases len - row@.len(),
    {
        row.push(false);
    }
    row
}

/// A pattern without wildcards matches the name that it spells, and no other.
pub proof fn lemma_literal_matches_only_itself(p: Seq<char>, n: Seq<char>)
    requires
        is_literal(p),
    ensures
        glob_matches(p, n) <==> n == p,
{
    assert(p.skip(0) == p);
    assert(n.skip(0) == n);
    lemma_literal_from(p, 0, n, 0);
}

/// `?` matches exactly the names of one character.
pub proof fn lemma_question_mark_matches_one_character(n: Seq<char>)
    ensures
        glob_matches(seq!['?'], n) <==> n.len() == 1,
{
    let p = seq!['?'];
    if n.len() >= 1 {
        assert(glob_matches_from(p, 1, n, 1) <==> n.len() == 1);
    }
}

/// `*` matches exactly the names of one segment: those without a separator.
pub proof fn lemma_star_matches_one_segment(n: Seq<char>)
    ensures
        glob_matches(seq!['*'], n) <==> forall|k: int| 0 <= k < n.len() ==> !is_separator(n[k]),
{
    lemma_star_from(n, 0);
}

/// `**` matches every name.
pub proof fn lemma_any_run_matches_every_name(n: Seq<char>)
    ensures
        glob_matches(seq!['*', '*'], n),
{
    lemma_any_run_from(n, 0);
}

/// `*` before a text without wildcards matches exactly the names that end
/// with the text and have no separator before it. So `*.log` matches the
/// names of one segment that end in `.log`.
pub proof fn lemma_star_then_literal(text: Seq<char>, n: Seq<char>)
    requires
        is_literal(text),
    ensures
        glob_matches(seq!['*'] + text, n) <==> {
            &&& text.len() <= n.len()
            &&& n.skip(n.len() - text.len()) == text
            &&& forall|k: int| 0 <= k < n.len() - text.len() ==> !is_separator(n[k])
        },
{
    if text.len() <= n.len() {
        lemma_star_then_literal_from(text, n, 0);
    } else {
        lemma_star_then_longer_literal(text, n, 0);
    }
}

/// A pattern of two parts matches the names of two parts, the first matched
/// by the first part and the second by the second. With the laws on the
/// single wildcards and on text without wildcards, this says what every
/// pattern matches.
pub proof fn lemma_glob_concat(first: Seq<char>, second: Seq<char>, n: Seq<char>)
    requires
        cut_spares_stars(first, second),
    ensures
        glob_matches(first + second, n) <==> exists|k: int|
            0 <= k <= n.len() && glob_matches(first, #[trigger] n.take(k)) && glob_matches(
                second,
                n.skip(k),
            ),
{
    let p = first + second;
    lemma_concat_from(first, second, 0, n, 0);
    if glob_matches(p, n) {
        let k = choose|k: int| is_cut(first, second, 0, n, 0, k);
        lemma_pattern_suffix(first, second, 0, n, k);
        lemma_name_suffix(second, 0, n, 0, k);
    }
    if exists|k: int|
        0 <= k <= n.len() && glob_matches(first, #[trigger] n.take(k)) && glob_matches(
            second,
            n.skip(k),
        ) {
        let k = choose|k: int|
            0 <= k <= n.len() && glob_matches(first, #[trigger] n.take(k)) && glob_matches(
                second,
                n.skip(k),
            );
        lemma_pattern_suffix(first, second, 0, n, k);
        lemma_name_suffix(second, 0, n, 0, k);
        assert(is_cut(first, second, 0, n, 0, k));
    }
}

/// Where a pattern holds no wildcard from a position on, it matches from
/// there exactly when the rest of the name is the rest of the pattern.
pub proof fn lemma_literal_from(p: Seq<char>, i: int, n: Seq<char>, j: int)
    requires
        0 <= i <= p.len(),
        0 <= j <= n.len(),
        is_literal(p.skip(i)),
    ensures
        glob_matches_from(p, i, n, j) <==> n.skip(j) == p.skip(i),
    decreases p.len() - i,
{
    if i == p.len() {
        if j == n.len() {
            assert(n.skip(j) == p.skip(i));
        }
    } else {
        assert(p.skip(i)[0] == p[i]);
        let rest = p.skip(i + 1);
        assert forall|k: int| 0 <= k < rest.len() implies rest[k] != '*' && rest[k] != '?' by {
            assert(rest[k] == p.skip(i)[k + 1]);
        }
        if j < n.len() {
            lemma_literal_from(p, i + 1, n, j + 1);
            assert(n.skip(j).skip(1) == n.skip(j + 1));
            assert(p.skip(i).skip(1) == p.skip(i + 1));
            if n.skip(j + 1) == p.skip(i + 1) && n[j] == p[i] {
                assert(n.skip(j) == p.skip(i)) by {
                    assert(n.skip(j) == seq![n[j]] + n.skip(j + 1));
                }
            }
        }
    }
}

proof fn lemma_any_run_from(n: Seq<char>, j: int)
    requires
        0 <= j <= n.len(),
    ensures
        glob_matches_from(seq!['*', '*'], 0, n, j),
    decreases n.len() - j,
{
    let p = seq!['*', '*'];
    if j == n.len() {
        assert(glob_matches_from(p, 2, n, j));
    } else {
        lemma_any_run_from(n, j + 1);
    }
}

proof fn lemma_star_from(n: Seq<char>, j: int)
    requires
        0 <= j <= n.len(),
    ensures
        glob_matches_from(seq!['*'], 0, n, j) <==> forall|k: int|
            j <= k < n.len() ==> !is_separator(n[k]),
    decreases n.len() - j,
{
    let p = seq!['*'];
    if j == n.len() {
        assert(glob_matches_from(p, 1, n, j));
    } else {
        lemma_star_from(n, j + 1);
        assert(!glob_matches_from(p, 1, n, j));
    }
}

/// `*` before a text without wildcards does not match what is shorter than
/// the text.
proof fn lemma_star_then_longer_literal(text: Seq<char>, n: Seq<char>, j: int)
    requires
        is_literal(text),
        0 <= j <= n.len(),
        n.len() < text.len(),
    ensures
        !glob_matches_from(seq!['*'] + text, 0, n, j),
    decreases n.len() - j,
{
    let p = seq!['*'] + text;
    assert(p.skip(1) == text);
    lemma_literal_from(p, 1, n, j);
    if j < n.len() {
        lemma_star_then_longer_literal(text, n, j + 1);
    }
}

proof fn lemma_star_then_literal_from(text: Seq<char>, n: Seq<char>, j: int)
    requires
        is_literal(text),
        text.len() <= n.len(),
        0 <= j <= n.len(),
    ensures
        glob_matches_from(seq!['*'] + text, 0, n, j) <==> {
            &&& j <= n.len() - text.len()
            &&& n.skip(n.len() - text.len()) == text
            &&& forall|k: int| j <= k < n.len() - text.len() ==> !is_separator(n[k])
        },
    decreases n.len() - j,
{
    let p = seq!['*'] + text;
    assert(p.skip(1) == text);
    lemma_literal_from(p, 1, n, j);
    if j < n.len() {
        lemma_star_then_literal_from(text, n, j + 1);
    }
}

/// Whether the name can be cut at `k` so that the first part of a pattern,
/// from `i` on, matches the name from `j` up to the cut, and the second part
/// matches the name from the cut on.
spec fn is_cut(first: Seq<char>, second: Seq<char>, i: int, n: Seq<char>, j: int, k: int) -> bool {
    &&& j <= k <= n.len()
    &&& glob_matches_from(first, i, n.take(k), j)
    &&& glob_matches_from(first + second, first.len() as int, n, k)
}

/// What a pattern matches from a position on depends only on the pattern
/// from that position on.
proof fn lemma_pattern_suffix(first: Seq<char>, second: Seq<char>, i: int, n: Seq<char>, j: int)
    requires
        0 <= i <= second.len(),
        0 <= j <= n.len(),
    ensures
        glob_matches_from(first + second, first.len() + i, n, j) == glob_matches_from(
            second,
            i,
            n,
            j,
        ),
    decreases second.len() - i, n.len() - j,
{
    if i < second.len() {
        if second[i] == '*' && i + 1 < second.len() && second[i + 1] == '*' {
            lemma_pattern_suffix(first, second, i + 2, n, j);
            if j < n.len() {
                lemma_pattern_suffix(first, second, i, n, j + 1);
            }
        } else if second[i] == '*' {
            lemma_pattern_suffix(first, second, i + 1, n, j);
            if j < n.len() {
                lemma_pattern_suffix(first, second, i, n, j + 1);
            }
        } else if j < n.len() {
            lemma_pattern_suffix(first, second, i + 1, n, j + 1);
        }
    }
}

/// What a pattern matches of a name from a position on depends only on the
/// name from that position on.
proof fn lemma_name_suffix(p: Seq<char>, i: int, n: Seq<char>, j: int, d: int)
    requires
        0 <= i <= p.len(),
        0 <= d,
        0 <= j,
        j + d <= n.len(),
    ensures
        glob_matches_from(p, i, n, j + d) == glob_matches_from(p, i, n.skip(d), j),
    decreases p.len() - i, n.len() - j,
{
    let m = n.skip(d);
    if i < p.len() {
        if p[i] == '*' && i + 1 < p.len() && p[i + 1] == '*' {
            lemma_name_suffix(p, i + 2, n, j, d);
            if j < m.len() {
                lemma_name_suffix(p, i, n, j + 1, d);
            }
        } else if p[i] == '*' {
            lemma_name_suffix(p, i + 1, n, j, d);
            if j < m.len() {
                lemma_name_suffix(p, i, n, j + 1, d);
            }
        } else if j < m.len() {
            lemma_name_suffix(p, i + 1, n, j + 1, d);
        }
    }
}

/// A pattern of two parts matches from a position in its first part exactly
/// when the name can be cut.
proof fn lemma_concat_from(first: Seq<char>, second: Seq<char>, i: int, n: Seq<char>, j: int)
    requires
        cut_spares_stars(first, second),
        0 <= i <= first.len(),
        0 <= j <= n.len(),
    ensures
        glob_matches_from(first + second, i, n, j) <==> exists|k: int|
            is_cut(first, second, i, n, j, k),
    decreases first.len() - i, n.len() - j,
{
    let p = first + second;
    let whole = glob_matches_from(p, i, n, j);
    if i == first.len() {
        if whole {
            assert(is_cut(first, second, i, n, j, j));
        }
    } else {
        let any_run = p[i] == '*' && i + 1 < p.len() && p[i + 1] == '*';
        let star = p[i] == '*';
        // The positions that the match at `(i, j)` goes on to.
        let skip_to = if any_run {
            i + 2
        } else {
            i + 1
        };
        if star {
            lemma_concat_from(first, second, skip_to, n, j);
            if j < n.len() {
                lemma_concat_from(first, second, i, n, j + 1);
            }
        } else if j < n.len() {
            lemma_concat_from(first, second, i + 1, n, j + 1);
        }
        let next = j + 1;
        if whole {
            if star && glob_matches_from(p, skip_to, n, j) {
                let k = choose|k: int| is_cut(first, second, skip_to, n, j, k);
                assert(is_cut(first, second, i, n, j, k));
            } else if star {
                let k = choose|k: int| is_cut(first, second, i, n, next, k);
                assert(is_cut(first, second, i, n, j, k));
            } else {
                let k = choose|k: int| is_cut(first, second, skip_to, n, next, k);
                assert(is_cut(first, second, i, n, j, k));
            }
        }
        if exists|k: int| is_cut(first, second, i, n, j, k) {
            let k = choose|k: int| is_cut(first, second, i, n, j, k);
            if star && glob_matches_from(first, skip_to, n.take(k), j) {
                assert(is_cut(first, second, skip_to, n, j, k));
            } else if star {
                assert(is_cut(first, second, i, n, next, k));
            } else {
                assert(is_cut(first, second, skip_to, n, next, k));
            }
        }
    }
}

} // verus!
