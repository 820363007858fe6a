use acacls::glob::glob_match;

fn matches(pattern: &str, name: &str) -> bool {
    let p: Vec<char> = pattern.chars().collect();
    let n: Vec<char> = name.chars().collect();
    glob_match(&p, &n)
}

/// The definition of a match, written out by recursion on the two texts.
fn matches_by_definition(p: &[char], n: &[char]) -> bool {
    match p.first() {
        None => n.is_empty(),
        Some('*') if p.len() >= 2 && p[1] == '*' => {
            matches_by_definition(&p[2..], n) || (!n.is_empty() && matches_by_definition(p, &n[1..]))
        }
        Some('*') => {
            matches_by_definition(&p[1..], n)
                || (!n.is_empty() && n[0] != '/' && matches_by_definition(p, &n[1..]))
        }
        Some('?') => !n.is_empty() && matches_by_definition(&p[1..], &n[1..]),
        Some(c) => !n.is_empty() && n[0] == *c && matches_by_definition(&p[1..], &n[1..]),
    }
}

#[test]
fn a_pattern_without_wildcards_matches_the_name_it_spells() {
    assert!(matches("secret.txt", "secret.txt"));
    assert!(!matches("secret.txt", "secret.tx"));
    assert!(!matches("secret.txt", "secret.txt2"));
    assert!(!matches("secret.txt", "asecret.txt"));
    assert!(!matches("secret.txt", ""));
    assert!(matches("", ""));
    assert!(!matches("", "a"));
}

#[test]
fn matching_is_case_sensitive() {
    assert!(!matches("README", "readme"));
    assert!(!matches("*.LOG", "debug.log"));
    assert!(matches("*.LOG", "debug.LOG"));
}

#[test]
fn a_star_matches_any_run_inside_a_segment() {
    assert!(matches("*", ""));
    assert!(matches("*", "anything"));
    assert!(!matches("*", "a/b"));
    assert!(matches("*.log", "debug.log"));
    assert!(matches("*.log", ".log"));
    assert!(!matches("*.log", "debug.txt"));
    assert!(!matches("*.log", "debug.log.txt"));
    assert!(!matches("*.log", "dir/debug.log"));
    assert!(matches("a*b*c", "abc"));
    assert!(matches("a*b*c", "aXXbYYc"));
    assert!(matches("a*b*c", "abbbc"));
    assert!(!matches("a*b*c", "aXXcYYb"));
    assert!(matches("build*", "build"));
    assert!(matches("build*", "build-2"));
    assert!(!matches("build*", "rebuild"));
}

#[test]
fn a_question_mark_matches_one_character() {
    assert!(matches("?", "a"));
    assert!(!matches("?", ""));
    assert!(!matches("?", "ab"));
    assert!(matches("a?c", "abc"));
    assert!(matches("a?c", "a\u{e4}c"));
    assert!(!matches("a?c", "ac"));
    assert!(matches("??", "ab"));
    assert!(matches("?*", "a"));
    assert!(!matches("?*", ""));
}

#[test]
fn two_stars_match_across_segments() {
    assert!(matches("**", ""));
    assert!(matches("**", "a"));
    assert!(matches("**", "a/b/c"));
    assert!(matches("**.log", "dir/debug.log"));
    assert!(matches("a**z", "a/b/z"));
    assert!(!matches("a*z", "a/b/z"));
    assert!(matches("***", "a/b"));
    assert!(matches("a/**", "a/"));
    assert!(!matches("a/**", "a"));
}

#[test]
fn a_backtracking_pattern_is_decided() {
    let name = "a".repeat(200);
    let pattern = format!("{}b", "a*".repeat(50));
    assert!(!matches(&pattern, &name));
    let pattern = format!("{}a", "a*".repeat(50));
    assert!(matches(&pattern, &name));
}

#[test]
fn the_table_agrees_with_the_definition() {
    let alphabet = ['a', '*', '?', '/'];
    let mut texts: Vec<Vec<char>> = vec![vec![]];
    let mut from = 0;
    for _ in 0..4 {
        let to = texts.len();
        for i in from..to {
            for c in alphabet {
                let mut t = texts[i].clone();
                t.push(c);
                texts.push(t);
            }
        }
        from = to;
    }
    assert_eq!(texts.len(), 1 + 4 + 16 + 64 + 256);
    for p in &texts {
        for n in &texts {
            assert_eq!(glob_match(p, n), matches_by_definition(p, n));
        }
    }
}
