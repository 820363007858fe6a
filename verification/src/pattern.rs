//! Patterns and pattern sets.
//!
//! A pattern file is plain text with one rule per line. Blank lines and lines
//! that begin with `#` say nothing. Every other line is a rule, and the rules
//! of a set are additive: a name matches the set as soon as one rule matches
//! it, whatever the other rules say.

use crate::glob::{glob_match, glob_matches};
use crate::text::{chars_of, lemma_trim_is_trimmed, lines, string_of, trim, trim_bounds};
use vstd::prelude::*;

verus! {

/// Where a rule was read.
#[derive(Clone, Copy, Debug, PartialEq, Eq, Structural, Hash)]
pub enum PatternSource {
    /// The pattern file of the listed directory.
    Local,
    /// The pattern file that the environment names.
    Global,
}

/// What a [`Pattern`] is: the text of the rule and the place it came from.
pub struct PatternView {
    /// The rule as its line holds it.
    pub text: Seq<char>,
    /// Where the rule was read.
    pub source: PatternSource,
}

/// The glob that a rule is matched by: its text, without one closing
/// separator. A rule such as `build/` speaks of a directory; a listing has
/// only the names, so it is held to the name `build`.
pub open spec fn rule_glob(text: Seq<char>) -> Seq<char> {
    if text.len() > 0 && text.last() == '/' {
        text.drop_last()
    } else {
        text
    }
}

/// What a line of a pattern file says: the rule that it holds once trimmed,
/// or nothing for a blank line and for a comment.
pub open spec fn rule_of_line(line: Seq<char>) -> Option<Seq<char>> {
    let t = trim(line);
    if t.len() == 0 || t[0] == '#' {
        None
    } else {
        Some(t)
    }
}

/// The rules that a sequence of lines holds, in the order of the lines.
pub open spec fn rules_in(lines: Seq<Seq<char>>) -> Seq<Seq<char>> {
    lines.filter_map(|line: Seq<char>| rule_of_line(line))
}

/// The rules that the contents of a pattern file hold, in file order.
pub open spec fn rules_of(contents: Seq<char>) -> Seq<Seq<char>> {
    rules_in(lines(contents))
}

/// The patterns with the given texts, all from one source.
pub open spec fn patterns_from(texts: Seq<Seq<char>>, source: PatternSource) -> Seq<PatternView> {
    Seq::new(texts.len(), |i: int| PatternView { text: texts[i], source })
}

/// Whether one of the patterns matches the name.
pub open spec fn any_matches(patterns: Seq<PatternView>, name: Seq<char>) -> bool {
    exists|i: int| 0 <= i < patterns.len() && #[trigger] patterns[i].matches(name)
}

impl PatternView {
    /// The glob that the pattern is matched by.
    pub open spec fn glob(self) -> Seq<char> {
        rule_glob(self.text)
    }

    /// Whether the pattern matches the name.
    pub open spec fn matches(self, name: Seq<char>) -> bool {
        glob_matches(self.glob(), name)
    }
}

/// One rule of a pattern file.
#[derive(Debug)]
pub struct Pattern {
    text: String,
    glob: Vec<char>,
    source: PatternSource,
}

impl View for Pattern {
    type V = PatternView;

    closed spec fn view(&self) -> PatternView {
        PatternView { text: self.text@, source: self.source }
    }
}

impl Pattern {
    #[verifier::type_invariant]
    spec fn well_formed(&self) -> bool {
        self.glob@ == rule_glob(self.text@)
    }

    /// The pattern with the given text.
    pub fn new(text: &str, source: PatternSource) -> (r: Pattern)
        ensures
            r@ == (PatternView { text: text@, source }),
    {
        let chars = chars_of(text);
        assert(chars@.subrange(0, chars@.len() as int) == chars@);
        Pattern::from_chars(&chars, 0, chars.len(), source)
    }

    /// The pattern whose text is `chars[from..to]`.
    fn from_chars(chars: &[char], from: usize, to: usize, source: PatternSource) -> (r: Pattern)
        requires
            from <= to <= chars@.len(),
        ensures
            r@ == (PatternView { text: chars@.subrange(from as int, to as int), source }),
    {
        let text = string_of(chars, from, to);
        let end = if from < to && chars[to - 1] == '/' {
            to - 1
        } else {
            to
        };
        let mut glob: Vec<char> = Vec::new();
        let mut i = from;
        while i < end
            invariant
                from <= i <= end <= to <= chars@.len(),
                glob@ == chars@.subrange(from as int, i as int),
            decreases end - i,
        {
            glob.push(chars[i]);
            i += 1;
        }
        proof {
            if from < to {
                assert(chars@.subrange(from as int, to as int).drop_last() == chars@.subrange(
                    from as int,
                    to - 1,
                ));
            }
        }
        Pattern { text, glob, source }
    }

    /// The text of the rule, as it stands in the pattern file.
    pub fn text(&self) -> (r: &str)
        ensures
            r@ == self@.text,
    {
        self.text.as_str()
    }

    /// Where the rule was read.
    pub fn source(&self) -> (r: PatternSource)
        ensures
            r == self@.source,
    {
        self.source
    }

    /// The glob that the rule is matched by.
    pub fn glob(&self) -> (r: String)
        ensures
            r@ == self@.glob(),
    {
        proof {
            use_type_invariant(self);
        }
        string_of(self.glob.as_slice(), 0, self.glob.len())
    }

    /// Whether the rule matches the name.
    pub fn matches(&self, name: &str) -> (r: bool)
        ensures
            r == self@.matches(name@),
    {
        let chars = chars_of(name);
        self.matches_chars(&chars)
    }

    /// Whether the rule matches the name with the given characters.
    pub fn matches_chars(&self, name: &[char]) -> (r: bool)
        ensures
            r == self@.matches(name@),
    {
        proof {
            use_type_invariant(self);
        }
        glob_match(self.glob.as_slice(), name)
    }
}

impl Clone for Pattern {
    fn clone(&self) -> (r: Pattern)
        ensures
            r@ == self@,
    {
        proof {
            use_type_invariant(self);
        }
        Pattern { text: self.text.clone(), glob: self.glob.clone(), source: self.source }
    }
}

/// The rules of one category, in order.
#[derive(Debug)]
pub struct PatternSet {
    patterns: Vec<Pattern>,
}

impl View for PatternSet {
    type V = Seq<PatternView>;

    closed spec fn view(&self) -> Seq<PatternView> {
        views(self.patterns@)
    }
}

/// What a sequence of patterns is, pattern by pattern.
spec fn views(patterns: Seq<Pattern>) -> Seq<PatternView> {
    Seq::new(patterns.len(), |i: int| patterns[i]@)
}

proof fn lemma_views_push(patterns: Seq<Pattern>, pattern: Pattern)
    ensures
        views(patterns.push(pattern)) == views(patterns).push(pattern@),
{
}

impl PatternSet {
    /// The set without rules. It matches no name.
    pub fn new() -> (r: PatternSet)
        ensures
            r@ == Seq::<PatternView>::empty(),
    {
        PatternSet { patterns: Vec::new() }
    }

    /// Reads the contents of a pattern file.
    ///
    /// Each line is trimmed; blank lines and lines that begin with `#` are
    /// passed over; every other line becomes one rule. No line is refused.
    pub fn parse(contents: &str, source: PatternSource) -> (r: PatternSet)
        ensures
            r@ == patterns_from(rules_of(contents@), source),
    {
        let chars = chars_of(contents);
        let mut patterns: Vec<Pattern> = Vec::new();
        let ghost mut finished: Seq<Seq<char>> = Seq::empty();
        let mut start: usize = 0;
        let mut i: usize = 0;
        proof {
            assert(chars@.take(0) =~= Seq::<char>::empty());
        }
        while i < chars.len()
            invariant
                start <= i <= chars@.len(),
                lines(chars@.take(i as int)) == finished.push(
                    chars@.subrange(start as int, i as int),
                ),
                views(patterns@) == patterns_from(rules_in(finished), source),
            decreases chars@.len() - i,
        {
            proof {
                assert(chars@.take(i + 1).drop_last() == chars@.take(i as int));
                assert(chars@.subrange(start as int, i as int).push(chars@[i as int])
                    == chars@.subrange(start as int, i + 1));
            }
            if chars[i] == '\n' {
                let ghost line = chars@.subrange(start as int, i as int);
                PatternSet::read_line(&mut patterns, &chars, start, i, source, Ghost(finished));
                proof {
                    finished = finished.push(line);
                }
                start = i + 1;
                assert(chars@.subrange(start as int, start as int) == Seq::<char>::empty());
            }
            i += 1;
        }
        assert(chars@.take(i as int) == chars@);
        PatternSet::read_line(&mut patterns, &chars, start, i, source, Ghost(finished));
        PatternSet { patterns }
    }

    /// Reads the line `chars[from..to]` and adds its rule, if it holds one,
    /// to the patterns of the lines before it.
    fn read_line(
        patterns: &mut Vec<Pattern>,
        chars: &[char],
        from: usize,
        to: usize,
        source: PatternSource,
        Ghost(before): Ghost<Seq<Seq<char>>>,
    )
        requires
            from <= to <= chars@.len(),
            views(old(patterns)@) == patterns_from(rules_in(before), source),
        ensures
            views(final(patterns)@) == patterns_from(
                rules_in(before.push(chars@.subrange(from as int, to as int))),
                source,
            ),
    {
        let ghost line = chars@.subrange(from as int, to as int);
        assert(before.push(line).drop_last() == before);
        let (lo, hi) = trim_bounds(chars, from, to);
        if lo < hi && chars[lo] != '#' {
            let pattern = Pattern::from_chars(chars, lo, hi, source);
            proof {
                lemma_views_push(patterns@, pattern);
            }
            patterns.push(pattern);
        }
    }

    /// The number of rules.
    pub fn len(&self) -> (r: usize)
        ensures
            r == self@.len(),
    {
        self.patterns.len()
    }

    /// The rule at position `i`, if there is one.
    pub fn get(&self, i: usize) -> (r: Option<&Pattern>)
        ensures
            match r {
                Some(p) => i < self@.len() && p@ == self@[i as int],
                None => i >= self@.len(),
            },
    {
        if i < self.patterns.len() {
            Some(&self.patterns[i])
        } else {
            None
        }
    }

    /// Whether one of the rules matches the name.
    pub fn matches(&self, name: &str) -> (r: bool)
        ensures
            r == any_matches(self@, name@),
    {
        let chars = chars_of(name);
        self.matches_chars(&chars)
    }

    /// Whether one of the rules matches the name with the given characters.
    pub fn matches_chars(&self, name: &[char]) -> (r: bool)
        ensures
            r == any_matches(self@, name@),
    {
        let mut i: usize = 0;
        while i < self.patterns.len()
            invariant
                i <= self.patterns@.len(),
                forall|k: int| 0 <= k < i ==> !(#[trigger] self@[k]).matches(name@),
            decreases self.patterns@.len() - i,
        {
            if self.patterns[i].matches_chars(name) {
                assert(self@[i as int].matches(name@));
                return true;
            }
            i += 1;
        }
        false
    }

    /// The rules of `self`, then those of `other`.
    pub fn union(self, other: PatternSet) -> (r: PatternSet)
        ensures
            r@ == self@ + other@,
    {
        let mut patterns = self.patterns;
        let mut rest = other.patterns;
        patterns.append(&mut rest);
        PatternSet { patterns }
    }
}

impl Clone for PatternSet {
    fn clone(&self) -> (r: PatternSet)
        ensures
            r@ == self@,
    {
        let mut patterns: Vec<Pattern> = Vec::new();
        let mut i: usize = 0;
        while i < self.patterns.len()
            invariant
                i <= self.patterns@.len(),
                views(patterns@) == self@.take(i as int),
            decreases self.patterns@.len() - i,
        {
            let pattern = self.patterns[i].clone();
            proof {
                lemma_views_push(patterns@, pattern);
            }
            patterns.push(pattern);
            i += 1;
        }
        PatternSet { patterns }
    }
}

/// Every rule is a line, trimmed. None is blank, none begins with `#`, and
/// none begins or ends with white space.
pub proof fn lemma_rules_are_trimmed_lines(lines: Seq<Seq<char>>, k: int)
    requires
        0 <= k < rules_in(lines).len(),
    ensures
        exists|j: int| 0 <= j < lines.len() && trim(#[trigger] lines[j]) == rules_in(lines)[k],
        rules_in(lines)[k].len() > 0,
        rules_in(lines)[k][0] != '#',
        trim(rules_in(lines)[k]) == rules_in(lines)[k],
    decreases lines.len(),
{
    let init = lines.drop_last();
    let last = lines.last();
    if rule_of_line(last) is Some && k == rules_in(init).len() {
        lemma_trim_is_trimmed(last);
    } else {
        lemma_rules_are_trimmed_lines(init, k);
    }
}

/// Every line that is neither blank nor a comment gives a rule.
pub proof fn lemma_lines_give_rules(lines: Seq<Seq<char>>, j: int)
    requires
        0 <= j < lines.len(),
        rule_of_line(lines[j]) is Some,
    ensures
        rules_in(lines).contains(trim(lines[j])),
    decreases lines.len(),
{
    let init = lines.drop_last();
    let last = lines.last();
    if j == lines.len() - 1 {
        assert(rules_in(lines)[rules_in(init).len() as int] == trim(last));
    } else {
        lemma_lines_give_rules(init, j);
        let k = choose|k: int| 0 <= k < rules_in(init).len() && rules_in(init)[k] == trim(init[j]);
        assert(rules_in(lines)[k] == trim(lines[j]));
    }
}

/// The rules of lines that follow other lines follow the rules of those:
/// rules never override each other, they add up in the order of the lines.
pub proof fn lemma_rules_in_concat(first: Seq<Seq<char>>, second: Seq<Seq<char>>)
    ensures
        rules_in(first + second) == rules_in(first) + rules_in(second),
    decreases second.len(),
{
    if second.len() > 0 {
        let init = second.drop_last();
        lemma_rules_in_concat(first, init);
        assert((first + second).drop_last() == first + init);
    }
}

} // verus!
