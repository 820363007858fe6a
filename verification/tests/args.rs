use acacls::args::{parse_args, parse_flags, partition};
use acacls::level::HideOption::{HideHidden, HideIgnored, ShowAll};

fn strings(tokens: &[&str]) -> Vec<String> {
    tokens.iter().map(|t| t.to_string()).collect()
}

#[test]
fn partition_takes_out_a_short_visibility_flag() {
    let parsed = partition(&strings(&["-l", "-a", "file.txt"]));
    assert_eq!(parsed.forwarded, strings(&["-l", "file.txt"]));
    assert_eq!(parsed.level, HideIgnored);
}

#[test]
fn partition_of_a_cluster_of_visibility_flags_forwards_nothing() {
    let parsed = partition(&strings(&["-aA"]));
    assert_eq!(parsed.forwarded, Vec::<String>::new());
    assert_eq!(parsed.level, ShowAll);
}

#[test]
fn partition_merges_the_long_flags() {
    let parsed = partition(&strings(&["--show-hidden", "--show-ignored"]));
    assert_eq!(parsed.forwarded, Vec::<String>::new());
    assert_eq!(parsed.level, ShowAll);
}

#[test]
fn partition_of_nothing() {
    let parsed = partition(&[]);
    assert_eq!(parsed.forwarded, Vec::<String>::new());
    assert_eq!(parsed.level, HideHidden);
}

#[test]
fn partition_splits_a_mixed_cluster() {
    let parsed = partition(&strings(&["-la"]));
    assert_eq!(parsed.forwarded, strings(&["-l"]));
    assert_eq!(parsed.level, HideIgnored);
}

#[test]
fn partition_keeps_the_order_of_what_it_forwards() {
    let parsed = partition(&strings(&[
        "z", "--show-hidden", "-lh", "b", "-A", "--color=auto", "-t", "a",
    ]));
    assert_eq!(parsed.forwarded, strings(&["z", "-lh", "b", "--color=auto", "-t", "a"]));
    assert_eq!(parsed.level, ShowAll);
}

#[test]
fn partition_forwards_other_tokens_unchanged() {
    let args = strings(&["--all", "--almost-all", "--", "dir/a", "A", "a", "", "--show-hidden=1"]);
    let parsed = partition(&args);
    assert_eq!(parsed.forwarded, args);
    assert_eq!(parsed.level, HideHidden);
}

#[test]
fn partition_is_harmless_on_repeated_flags() {
    let once = partition(&strings(&["-a", "x"]));
    let often = partition(&strings(&["-a", "-a", "x", "--show-hidden", "-aa"]));
    assert_eq!(once.forwarded, often.forwarded);
    assert_eq!(once.level, often.level);
}

#[test]
fn partition_does_not_depend_on_the_order_of_the_flags() {
    let one = partition(&strings(&["-a", "-A", "x"]));
    let other = partition(&strings(&["-A", "x", "-a"]));
    assert_eq!(one.forwarded, other.forwarded);
    assert_eq!(one.level, ShowAll);
    assert_eq!(other.level, ShowAll);
}

#[test]
fn partition_distributes_over_concatenation() {
    let a = strings(&["-la", "x", "--show-ignored"]);
    let b = strings(&["y", "-a", "-t"]);
    let mut ab = a.clone();
    ab.extend(b.clone());
    let pa = partition(&a);
    let pb = partition(&b);
    let pab = partition(&ab);
    let mut forwarded = pa.forwarded.clone();
    forwarded.extend(pb.forwarded.clone());
    assert_eq!(pab.forwarded, forwarded);
    assert_eq!(pab.level, pa.level.merge(pb.level));
}

#[test]
fn partition_of_what_was_forwarded_changes_nothing() {
    let first = partition(&strings(&["-la", "x", "--show-ignored", "-", "-a-b", "--", "-A"]));
    assert_eq!(first.forwarded, strings(&["-l", "x", "-b", "--"]));
    let second = partition(&first.forwarded);
    assert_eq!(second.forwarded, first.forwarded);
    assert_eq!(second.level, HideHidden);
}

#[test]
fn parse_args_gives_the_same_as_partition() {
    let args = strings(&["-l", "-a", "file.txt"]);
    let (gls_args, hide_option) = parse_args(&args);
    assert_eq!(gls_args, strings(&["-l", "file.txt"]));
    assert_eq!(hide_option, HideIgnored);
}

#[test]
fn parse_args_drops_a_lone_dash() {
    let (gls_args, hide_option) = parse_args(&strings(&["-", "x"]));
    assert_eq!(gls_args, strings(&["x"]));
    assert_eq!(hide_option, HideHidden);
}

#[test]
fn parse_args_reads_non_ascii_flags() {
    let (gls_args, hide_option) = parse_args(&strings(&["-\u{e4}a\u{1F600}", "\u{e4}"]));
    assert_eq!(gls_args, strings(&["-\u{e4}\u{1F600}", "\u{e4}"]));
    assert_eq!(hide_option, HideIgnored);
}

#[test]
fn parse_flags_takes_out_the_visibility_flags() {
    assert_eq!(parse_flags("-la"), (Some("-l".to_string()), HideIgnored));
    assert_eq!(parse_flags("-lA"), (Some("-l".to_string()), ShowAll));
    assert_eq!(parse_flags("-alAh"), (Some("-lh".to_string()), ShowAll));
    assert_eq!(parse_flags("-lh"), (Some("-lh".to_string()), HideHidden));
}

#[test]
fn parse_flags_gives_none_when_nothing_is_left() {
    assert_eq!(parse_flags("-a"), (None, HideIgnored));
    assert_eq!(parse_flags("-A"), (None, ShowAll));
    assert_eq!(parse_flags("-aA"), (None, ShowAll));
    assert_eq!(parse_flags("-Aa"), (None, ShowAll));
    assert_eq!(parse_flags("-"), (None, HideHidden));
    assert_eq!(parse_flags(""), (None, HideHidden));
    assert_eq!(parse_flags("---"), (None, HideHidden));
}

#[test]
fn parse_flags_does_not_need_the_leading_dash() {
    assert_eq!(parse_flags("la"), (Some("-l".to_string()), HideIgnored));
    assert_eq!(parse_flags("l"), (Some("-l".to_string()), HideHidden));
    assert_eq!(parse_flags("a"), (None, HideIgnored));
}

#[test]
fn parse_flags_drops_every_dash() {
    assert_eq!(parse_flags("-l-t"), (Some("-lt".to_string()), HideHidden));
    assert_eq!(parse_flags("--l"), (Some("-l".to_string()), HideHidden));
    assert_eq!(parse_flags("l-"), (Some("-l".to_string()), HideHidden));
}
