use acacls::level::HideOption;
use acacls::level::HideOption::{HideHidden, HideIgnored, ShowAll};

const LEVELS: [HideOption; 3] = [HideHidden, HideIgnored, ShowAll];

#[test]
fn merge_returns_the_more_permissive_level() {
    assert_eq!(HideHidden.merge(HideHidden), HideHidden);
    assert_eq!(HideHidden.merge(HideIgnored), HideIgnored);
    assert_eq!(HideHidden.merge(ShowAll), ShowAll);
    assert_eq!(HideIgnored.merge(HideHidden), HideIgnored);
    assert_eq!(HideIgnored.merge(HideIgnored), HideIgnored);
    assert_eq!(HideIgnored.merge(ShowAll), ShowAll);
    assert_eq!(ShowAll.merge(HideHidden), ShowAll);
    assert_eq!(ShowAll.merge(HideIgnored), ShowAll);
    assert_eq!(ShowAll.merge(ShowAll), ShowAll);
}

#[test]
fn merge_is_idempotent() {
    for x in LEVELS {
        assert_eq!(x.merge(x), x);
    }
}

#[test]
fn merge_is_commutative() {
    for x in LEVELS {
        for y in LEVELS {
            assert_eq!(x.merge(y), y.merge(x));
        }
    }
}

#[test]
fn merge_is_associative() {
    for x in LEVELS {
        for y in LEVELS {
            for z in LEVELS {
                assert_eq!(x.merge(y).merge(z), x.merge(y.merge(z)));
            }
        }
    }
}

#[test]
fn hide_hidden_is_the_identity_of_merge() {
    for x in LEVELS {
        assert_eq!(HideHidden.merge(x), x);
        assert_eq!(x.merge(HideHidden), x);
    }
}

#[test]
fn merge_agrees_with_the_order() {
    for x in LEVELS {
        for y in LEVELS {
            assert_eq!(x.merge(y), std::cmp::max(x, y));
            assert_eq!(x <= y, x.rank() <= y.rank());
            assert_eq!(x < y, x.rank() < y.rank());
            assert_eq!(x.partial_cmp(&y), x.rank().partial_cmp(&y.rank()));
            assert_eq!(x.cmp(&y), x.rank().cmp(&y.rank()));
            assert_eq!(x <= y, x.merge(y) == y);
        }
    }
}

#[test]
fn levels_are_ordered_from_strict_to_permissive() {
    assert!(HideHidden < HideIgnored);
    assert!(HideIgnored < ShowAll);
    assert_eq!(HideHidden.rank(), 0);
    assert_eq!(HideIgnored.rank(), 1);
    assert_eq!(ShowAll.rank(), 2);
}

#[test]
fn the_default_level_is_the_strictest() {
    assert_eq!(HideOption::default(), HideHidden);
}

#[test]
fn plus_merges() {
    for x in LEVELS {
        for y in LEVELS {
            assert_eq!(x + y, x.merge(y));
        }
    }
    assert_eq!(HideHidden + HideIgnored, HideIgnored);
    assert_eq!(ShowAll + HideIgnored, ShowAll);
}

#[test]
fn plus_assign_merges_in_place() {
    let mut level = HideHidden;
    level += HideIgnored;
    assert_eq!(level, HideIgnored);
    level += HideHidden;
    assert_eq!(level, HideIgnored);
    level += ShowAll;
    assert_eq!(level, ShowAll);
    level += HideIgnored;
    assert_eq!(level, ShowAll);
}

#[test]
fn short_flags() {
    assert_eq!(HideOption::from_short_flag('a'), Some(HideIgnored));
    assert_eq!(HideOption::from_short_flag('A'), Some(ShowAll));
    assert_eq!(HideOption::from_short_flag('l'), None);
    assert_eq!(HideOption::from_short_flag('-'), None);
    assert_eq!(HideOption::from_short_flag('\u{e4}'), None);
}

#[test]
fn long_flags() {
    assert_eq!(HideOption::from_long_flag("--show-hidden"), Some(HideIgnored));
    assert_eq!(HideOption::from_long_flag("--show-ignored"), Some(ShowAll));
    assert_eq!(HideOption::from_long_flag("--all"), None);
    assert_eq!(HideOption::from_long_flag("--almost-all"), None);
    assert_eq!(HideOption::from_long_flag("--show-hidden "), None);
    assert_eq!(HideOption::from_long_flag("--show-hiddem"), None);
    assert_eq!(HideOption::from_long_flag("--show-ignore"), None);
    assert_eq!(HideOption::from_long_flag("--Show-Hidden"), None);
    assert_eq!(HideOption::from_long_flag("-a"), None);
    assert_eq!(HideOption::from_long_flag(""), None);
}
