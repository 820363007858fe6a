use acacls::pattern::{Pattern, PatternSet, PatternSource};

fn texts(set: &PatternSet) -> Vec<String> {
    (0..set.len()).map(|i| set.get(i).unwrap().text().to_string()).collect()
}

/// The rules of a pattern file, read with the tools of the standard library.
fn rules(contents: &str) -> Vec<String> {
    contents
        .lines()
        .map(|l| l.trim())
        .filter(|l| !l.is_empty() && !l.starts_with('#'))
        .map(|l| l.to_string())
        .collect()
}

#[test]
fn parse_skips_comments_and_blank_lines() {
    let set = PatternSet::parse("# comment\n\n*.log\n", PatternSource::Local);
    assert_eq!(texts(&set), vec!["*.log"]);
    assert!(set.matches("debug.log"));
    assert!(!set.matches("debug.txt"));
}

#[test]
fn parse_keeps_the_order_of_the_file() {
    let set = PatternSet::parse("b\na\n\nc\nb\n", PatternSource::Global);
    assert_eq!(texts(&set), vec!["b", "a", "c", "b"]);
    assert_eq!(set.len(), 4);
    for i in 0..4 {
        assert_eq!(set.get(i).unwrap().source(), PatternSource::Global);
    }
    assert!(set.get(4).is_none());
}

#[test]
fn parse_trims_every_line() {
    let set = PatternSet::parse("  a  \n\t*.log\r\n \u{3000} \n   # note\nlast", PatternSource::Local);
    assert_eq!(texts(&set), vec!["a", "*.log", "last"]);
}

#[test]
fn parse_of_nothing_is_empty() {
    assert_eq!(PatternSet::parse("", PatternSource::Local).len(), 0);
    assert_eq!(PatternSet::parse("\n\n\n", PatternSource::Local).len(), 0);
    assert_eq!(PatternSet::parse("#a\n  #b\n", PatternSource::Local).len(), 0);
    assert_eq!(PatternSet::new().len(), 0);
    assert!(!PatternSet::new().matches("a"));
    assert!(!PatternSet::new().matches(""));
}

#[test]
fn parse_keeps_a_hash_inside_a_line() {
    let set = PatternSet::parse("a#b\n!keep\n[ab\n\\#c", PatternSource::Local);
    assert_eq!(texts(&set), vec!["a#b", "!keep", "[ab", "\\#c"]);
    assert!(set.matches("a#b"));
    assert!(set.matches("!keep"));
    assert!(set.matches("[ab"));
    assert!(!set.matches("keep"));
    assert!(!set.matches("a"));
}

#[test]
fn parse_agrees_with_the_standard_library() {
    let samples = [
        "",
        "\n",
        "a",
        "a\n",
        "a\n\nb",
        "a\r\nb\r\n",
        " a \n # c \n\t\n*.log\n\n\n??\n",
        "#\n#\n",
        "x\n\r\ny\r",
        "build/\nsecret.txt\n**\n",
        "\u{A0}p\u{2003}\n\u{1F600}\n",
    ];
    for s in samples {
        assert_eq!(texts(&PatternSet::parse(s, PatternSource::Local)), rules(s));
    }
}

#[test]
fn rules_are_additive() {
    let set = PatternSet::parse("*.log\n*.tmp\nnotes.txt\n*.log\n", PatternSource::Local);
    assert!(set.matches("a.log"));
    assert!(set.matches("a.tmp"));
    assert!(set.matches("notes.txt"));
    assert!(!set.matches("notes.md"));
}

#[test]
fn union_puts_the_second_set_behind_the_first() {
    let global = PatternSet::parse("g1\ng2", PatternSource::Global);
    let local = PatternSet::parse("l1", PatternSource::Local);
    let both = global.union(local);
    assert_eq!(texts(&both), vec!["g1", "g2", "l1"]);
    assert_eq!(both.get(0).unwrap().source(), PatternSource::Global);
    assert_eq!(both.get(1).unwrap().source(), PatternSource::Global);
    assert_eq!(both.get(2).unwrap().source(), PatternSource::Local);
    assert!(both.matches("g2"));
    assert!(both.matches("l1"));
    assert!(!both.matches("l2"));
}

#[test]
fn a_clone_holds_the_same_rules() {
    let set = PatternSet::parse("a\n*.b/\n", PatternSource::Local);
    let copy = set.clone();
    assert_eq!(texts(&copy), texts(&set));
    assert!(copy.matches("x.b"));
    assert!(!copy.matches("x.c"));
    let p = set.get(1).unwrap().clone();
    assert_eq!(p.text(), "*.b/");
    assert_eq!(p.glob(), "*.b");
    assert_eq!(p.source(), PatternSource::Local);
}

#[test]
fn a_rule_for_a_directory_matches_its_name() {
    let p = Pattern::new("build/", PatternSource::Local);
    assert_eq!(p.text(), "build/");
    assert_eq!(p.glob(), "build");
    assert!(p.matches("build"));
    assert!(!p.matches("build/"));
    assert!(!p.matches("builds"));
}

#[test]
fn only_one_closing_separator_is_taken_off() {
    let p = Pattern::new("build//", PatternSource::Local);
    assert_eq!(p.glob(), "build/");
    assert!(!p.matches("build"));
    let p = Pattern::new("/", PatternSource::Local);
    assert_eq!(p.glob(), "");
    assert!(p.matches(""));
    assert!(!p.matches("/"));
    let p = Pattern::new("", PatternSource::Local);
    assert_eq!(p.glob(), "");
}

#[test]
fn a_pattern_matches_by_its_glob() {
    let p = Pattern::new("*.log", PatternSource::Global);
    assert_eq!(p.text(), "*.log");
    assert_eq!(p.glob(), "*.log");
    assert_eq!(p.source(), PatternSource::Global);
    assert!(p.matches("debug.log"));
    assert!(!p.matches("debug.txt"));
    let chars: Vec<char> = "debug.log".chars().collect();
    assert!(p.matches_chars(&chars));
}
