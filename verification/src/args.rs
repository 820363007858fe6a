//! Splitting the command line.
//!
//! The arguments are read once, from left to right. Visibility flags are
//! taken out and merged into one level; everything else is passed on to the
//! listing command, in the order in which it came.

use crate::level::{
    merge_all, show_hidden_flag, show_ignored_flag, spec_from_long_flag, spec_from_short_flag,
    HideOption,
};
use vstd::prelude::*;

verus! {

/// Whether a character of a cluster of short flags is passed on: it is
/// neither a visibility flag nor a dash.
pub open spec fn is_forwarded_flag(c: char) -> bool {
    c != '-' && spec_from_short_flag(c) is None
}

/// The short flags of a cluster that are passed on, in order.
pub open spec fn cluster_rest(flags: Seq<char>) -> Seq<char> {
    flags.filter(|c: char| is_forwarded_flag(c))
}

/// The level that a cluster of short flags asks for: the most permissive
/// level that one of its flags asks for.
pub open spec fn cluster_level(flags: Seq<char>) -> HideOption {
    if flags.contains('A') {
        HideOption::ShowAll
    } else if flags.contains('a') {
        HideOption::HideIgnored
    } else {
        HideOption::HideHidden
    }
}

/// The token that a cluster of short flags leaves behind: a dash and the
/// flags that are passed on, or nothing where none is.
pub open spec fn cluster_token(flags: Seq<char>) -> Option<Seq<char>> {
    if cluster_rest(flags).len() > 0 {
        Some(seq!['-'] + cluster_rest(flags))
    } else {
        None
    }
}

/// Whether a token is a cluster of short flags: it begins with one dash, not
/// with two.
pub open spec fn is_cluster(token: Seq<char>) -> bool {
    &&& token.len() >= 1
    &&& token[0] == '-'
    &&& !(token.len() >= 2 && token[1] == '-')
}

/// The level that one token asks for.
pub open spec fn token_level(token: Seq<char>) -> HideOption {
    match spec_from_long_flag(token) {
        Some(level) => level,
        None => if is_cluster(token) {
            cluster_level(token)
        } else {
            HideOption::HideHidden
        },
    }
}

/// What one token passes on to the listing command.
pub open spec fn token_forwarded(token: Seq<char>) -> Option<Seq<char>> {
    if spec_from_long_flag(token) is Some {
        None
    } else if is_cluster(token) {
        cluster_token(token)
    } else {
        Some(token)
    }
}

/// The tokens that the arguments pass on to the listing command, in order.
pub open spec fn forwarded_tokens(args: Seq<Seq<char>>) -> Seq<Seq<char>> {
    args.filter_map(|token: Seq<char>| token_forwarded(token))
}

/// The level that the arguments ask for: the merge of what each token asks.
pub open spec fn args_level(args: Seq<Seq<char>>) -> HideOption {
    merge_all(args.map_values(|token: Seq<char>| token_level(token)))
}

/// The command line, split in two.
#[derive(Debug)]
pub struct ParsedArguments {
    /// The tokens for the listing command, in the order in which they came.
    pub forwarded: Vec<String>,
    /// The visibility level that the flags ask for.
    pub level: HideOption,
}

/// Reads a cluster of short flags.
///
/// The flags `a` and `A` are taken out and merged into a level. A dash is
/// dropped wherever it stands, so the leading dash may be missing. What is
/// left comes back behind one dash, or as `None` if nothing is left.
pub fn parse_flags(flags: &str) -> (r: (Option<String>, HideOption))
    ensures
        r.1 == cluster_level(flags@),
        match r.0 {
            Some(token) => cluster_token(flags@) == Some(token@),
            None => cluster_token(flags@) is None,
        },
{
    let mut gls_flags = String::new();
    gls_flags.push('-');
    let mut any_left = false;
    let mut hide_option = HideOption::HideHidden;
    for c in it: flags.chars()
        invariant
            it.seq() == flags@,
            gls_flags@ == seq!['-'] + cluster_rest(flags@.take(it.index() as int)),
            any_left == (cluster_rest(flags@.take(it.index() as int)).len() > 0),
            hide_option == cluster_level(flags@.take(it.index() as int)),
    {
        proof {
            let before = flags@.take(it.index() as int);
            let after = flags@.take(it.index() + 1);
            assert(after == before.push(c));
            lemma_cluster_push(before, c);
        }
        match HideOption::from_short_flag(c) {
            Some(level) => {
                hide_option = hide_option.merge(level);
            },
            None => {
                if c != '-' {
                    gls_flags.push(c);
                    any_left = true;
                }
            },
        }
    }
    assert(flags@.take(flags@.len() as int) == flags@);
    if any_left {
        (Some(gls_flags), hide_option)
    } else {
        (None, hide_option)
    }
}

/// Splits the arguments into those for the listing command and the
/// visibility level.
///
/// A long visibility flag is taken out. A token that begins with one dash is
/// read as a cluster of short flags, see [`parse_flags`]. Any other token is
/// passed on as it is. All of `args` is read, so the name of the program
/// should not be part of it.
pub fn parse_args(args: &[String]) -> (r: (Vec<String>, HideOption))
    ensures
        r.0.deep_view() == forwarded_tokens(args.deep_view()),
        r.1 == args_level(args.deep_view()),
{
    let ghost tokens = args.deep_view();
    let mut gls_args: Vec<String> = Vec::new();
    let mut hide_option = HideOption::HideHidden;
    let mut i: usize = 0;
    while i < args.len()
        invariant
            i <= args@.len(),
            tokens == args.deep_view(),
            gls_args.deep_view() == forwarded_tokens(tokens.take(i as int)),
            hide_option == args_level(tokens.take(i as int)),
        decreases args@.len() - i,
    {
        let arg = &args[i];
        proof {
            lemma_partition_push(tokens.take(i as int), arg@);
            assert(tokens.take(i + 1) == tokens.take(i as int).push(arg@));
        }
        match HideOption::from_long_flag(arg.as_str()) {
            Some(level) => {
                hide_option = hide_option.merge(level);
            },
            None => {
                if starts_cluster(arg.as_str()) {
                    let (gls_flag_opt, hide_flag) = parse_flags(arg.as_str());
                    hide_option = hide_option.merge(hide_flag);
                    if let Some(gls_flags) = gls_flag_opt {
                        gls_args.push(gls_flags);
                    }
                } else {
                    let token = arg.clone();
                    gls_args.push(token);
                }
            },
        }
        i += 1;
    }
    assert(tokens.take(i as int) == tokens);
    (gls_args, hide_option)
}

/// Splits the arguments, as [`parse_args`] does.
pub fn partition(args: &[String]) -> (r: ParsedArguments)
    ensures
        r.forwarded.deep_view() == forwarded_tokens(args.deep_view()),
        r.level == args_level(args.deep_view()),
{
    let (forwarded, level) = parse_args(args);
    ParsedArguments { forwarded, level }
}

/// Whether the token begins with one dash and not with two.
fn starts_cluster(token: &str) -> (r: bool)
    ensures
        r == is_cluster(token@),
{
    let mut dashed = false;
    for c in it: token.chars()
        invariant
            it.seq() == token@,
            it.index() <= 1,
            dashed == (it.index() == 1),
            it.index() == 1 ==> token@[0] == '-',
    {
        if dashed {
            return c != '-';
        }
        if c != '-' {
            return false;
        }
        dashed = true;
    }
    dashed
}

/// A cluster asks for the merge of the levels that its flags ask for.
pub proof fn lemma_cluster_level_is_merge(flags: Seq<char>)
    ensures
        cluster_level(flags) == merge_all(
            flags.map_values(
                |c: char|
                    match spec_from_short_flag(c) {
                        Some(level) => level,
                        None => HideOption::HideHidden,
                    },
            ),
        ),
    decreases flags.len(),
{
    let level_of = |c: char|
        match spec_from_short_flag(c) {
            Some(level) => level,
            None => HideOption::HideHidden,
        };
    if flags.len() > 0 {
        let before = flags.drop_last();
        lemma_cluster_level_is_merge(before);
        assert(before.push(flags.last()) == flags);
        assert(flags.map_values(level_of).drop_last() == before.map_values(level_of));
    }
}

/// Splitting is order-preserving: the arguments `a` followed by `b` pass on
/// what `a` passes on, followed by what `b` passes on, and ask for the merge
/// of the two levels.
pub proof fn lemma_partition_concat(a: Seq<Seq<char>>, b: Seq<Seq<char>>)
    ensures
        forwarded_tokens(a + b) == forwarded_tokens(a) + forwarded_tokens(b),
        args_level(a + b) == args_level(a).spec_merge(args_level(b)),
    decreases b.len(),
{
    if b.len() > 0 {
        let init = b.drop_last();
        lemma_partition_concat(a, init);
        lemma_partition_push(a + init, b.last());
        lemma_partition_push(init, b.last());
        assert(init.push(b.last()) == b);
    }
}

/// Splitting is lossless: where no token is a visibility flag or a cluster
/// that the split would change, every token is passed on as it came.
pub proof fn lemma_partition_lossless(args: Seq<Seq<char>>)
    requires
        forall|i: int| 0 <= i < args.len() ==> token_forwarded(#[trigger] args[i]) == Some(args[i]),
    ensures
        forwarded_tokens(args) == args,
    decreases args.len(),
{
    if args.len() > 0 {
        let init = args.drop_last();
        lemma_partition_lossless(init);
    }
}

/// A token that does not begin with a dash is passed on as it is and asks for
/// nothing. So is a token that begins with two dashes and is not one of the
/// two long visibility flags.
pub proof fn lemma_plain_token_is_forwarded(token: Seq<char>)
    requires
        token.len() == 0 || token[0] != '-' || (token.len() >= 2 && token[1] == '-'),
        token != show_hidden_flag(),
        token != show_ignored_flag(),
    ensures
        token_forwarded(token) == Some(token),
        token_level(token) == HideOption::HideHidden,
{
}

/// A cluster without visibility flags, with no dash but the leading one and
/// with at least one flag, is passed on as it is and asks for nothing.
pub proof fn lemma_plain_cluster_is_forwarded(token: Seq<char>)
    requires
        token.len() >= 2,
        token[0] == '-',
        forall|k: int| 1 <= k < token.len() ==> is_forwarded_flag(#[trigger] token[k]),
    ensures
        token_forwarded(token) == Some(token),
        token_level(token) == HideOption::HideHidden,
{
    lemma_cluster_after_dash(token);
    lemma_long_flags_begin_with_two_dashes();
}

/// Visibility flags leave no trace in what is passed on: splitting the
/// passed-on tokens once more passes all of them on again and asks for
/// nothing.
pub proof fn lemma_forwarded_holds_no_visibility_flag(args: Seq<Seq<char>>)
    ensures
        forwarded_tokens(forwarded_tokens(args)) == forwarded_tokens(args),
        args_level(forwarded_tokens(args)) == HideOption::HideHidden,
    decreases args.len(),
{
    if args.len() > 0 {
        let init = args.drop_last();
        let last = args.last();
        lemma_forwarded_holds_no_visibility_flag(init);
        lemma_partition_push(init, last);
        assert(init.push(last) == args);
        match token_forwarded(last) {
            Some(t) => {
                lemma_forwarded_token_is_plain(last);
                lemma_partition_push(forwarded_tokens(init), t);
            },
            None => {},
        }
    }
}

/// One more flag at the end of a cluster is passed on or merged, and leaves
/// what the flags before it gave as it was.
proof fn lemma_cluster_push(flags: Seq<char>, c: char)
    ensures
        cluster_rest(flags.push(c)) == if is_forwarded_flag(c) {
            cluster_rest(flags).push(c)
        } else {
            cluster_rest(flags)
        },
        cluster_level(flags.push(c)) == cluster_level(flags).spec_merge(
            match spec_from_short_flag(c) {
                Some(level) => level,
                None => HideOption::HideHidden,
            },
        ),
{
    reveal(Seq::filter);
    assert(flags.push(c).drop_last() == flags);
}

/// One more token at the end of the arguments adds what it passes on behind
/// what was passed on before, and merges its level into the level before.
proof fn lemma_partition_push(args: Seq<Seq<char>>, token: Seq<char>)
    ensures
        forwarded_tokens(args.push(token)) == match token_forwarded(token) {
            Some(t) => forwarded_tokens(args).push(t),
            None => forwarded_tokens(args),
        },
        args_level(args.push(token)) == args_level(args).spec_merge(token_level(token)),
{
    let all = args.push(token);
    assert(all.drop_last() == args);
    let levels = |token: Seq<char>| token_level(token);
    assert(all.map_values(levels).drop_last() == args.map_values(levels));
}

/// A cluster whose flags after the leading dash are all passed on passes
/// them on and asks for nothing.
proof fn lemma_cluster_after_dash(token: Seq<char>)
    requires
        token.len() >= 1,
        token[0] == '-',
        forall|k: int| 1 <= k < token.len() ==> is_forwarded_flag(#[trigger] token[k]),
    ensures
        cluster_rest(token) == token.skip(1),
        cluster_level(token) == HideOption::HideHidden,
{
    lemma_cluster_of_forwarded_flags(token.skip(1));
    lemma_dash_first(token);
}

/// A dash before flags that are all passed on is a cluster that the split
/// leaves as it is.
proof fn lemma_cluster_of_forwarded_flags(rest: Seq<char>)
    requires
        forall|k: int| 0 <= k < rest.len() ==> is_forwarded_flag(#[trigger] rest[k]),
    ensures
        cluster_rest(seq!['-'] + rest) == rest,
        cluster_level(seq!['-'] + rest) == HideOption::HideHidden,
    decreases rest.len(),
{
    if rest.len() == 0 {
        lemma_lone_dash();
    } else {
        lemma_cluster_of_forwarded_flags(rest.drop_last());
        lemma_cluster_push(seq!['-'] + rest.drop_last(), rest.last());
        lemma_dash_last(rest);
    }
}

/// A dash alone passes nothing on and asks for nothing.
proof fn lemma_lone_dash()
    ensures
        cluster_rest(seq!['-'] + Seq::<char>::empty()) == Seq::<char>::empty(),
        cluster_level(seq!['-'] + Seq::<char>::empty()) == HideOption::HideHidden,
{
    let nothing = Seq::<char>::empty();
    assert(cluster_rest(nothing) == nothing);
    lemma_cluster_push(nothing, '-');
}

/// A sequence that begins with a dash is the dash and what follows it.
proof fn lemma_dash_first(token: Seq<char>)
    requires
        token.len() >= 1,
        token[0] == '-',
    ensures
        token == seq!['-'] + token.skip(1),
{
}

/// A dash and a sequence that is not empty are a dash and all but the last
/// of the sequence, and then the last.
proof fn lemma_dash_last(rest: Seq<char>)
    requires
        rest.len() > 0,
    ensures
        seq!['-'] + rest == (seq!['-'] + rest.drop_last()).push(rest.last()),
        rest == rest.drop_last().push(rest.last()),
{
}

/// Both long visibility flags begin with two dashes, so neither is a cluster.
proof fn lemma_long_flags_begin_with_two_dashes()
    ensures
        show_hidden_flag().len() >= 2,
        show_hidden_flag()[0] == '-',
        show_hidden_flag()[1] == '-',
        show_ignored_flag().len() >= 2,
        show_ignored_flag()[0] == '-',
        show_ignored_flag()[1] == '-',
{
    reveal_strlit("--show-hidden");
    reveal_strlit("--show-ignored");
}

/// What a token passes on is passed on unchanged by a second split, and asks
/// for nothing.
proof fn lemma_forwarded_token_is_plain(token: Seq<char>)
    requires
        token_forwarded(token) is Some,
    ensures
        token_forwarded(token_forwarded(token)->0) == token_forwarded(token),
        token_level(token_forwarded(token)->0) == HideOption::HideHidden,
{
    if is_cluster(token) {
        let rest = cluster_rest(token);
        assert(forall|k: int| 0 <= k < rest.len() ==> is_forwarded_flag(#[trigger] rest[k]));
        lemma_cluster_of_forwarded_flags(rest);
        lemma_long_flags_begin_with_two_dashes();
    }
}

} // verus!
