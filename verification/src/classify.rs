//! Classifying names, and telling the listing command what to leave out.
//!
//! A name is first put into a category, by the rules of its directory alone.
//! Whether it is shown then follows from the category and the visibility
//! level. Since the first step does not look at the level, a category stays
//! good when the level changes.

use crate::context::{ContextView, DirectoryContext};
use crate::level::HideOption;
use crate::pattern::{any_matches, PatternSet, PatternView};
use crate::text::chars_of;
use vstd::prelude::*;
use vstd::string::StringExecFns;

verus! {

/// What the rules of a directory say of a name.
#[derive(Clone, Copy, Debug, PartialEq, Eq, Structural, Hash)]
pub enum Category {
    /// Neither hidden nor ignored.
    Shown,
    /// Hidden, and not ignored.
    Hidden,
    /// Ignored, and so hidden as well.
    Ignored,
}

/// A name's category, and whether the name is shown at the level asked for.
#[derive(Clone, Copy, Debug, PartialEq, Eq, Structural, Hash)]
pub struct Classification {
    /// What the rules say of the name, whatever the level.
    pub category: Category,
    /// Whether names of that category are shown at the level.
    pub shown: bool,
}

/// Whether the name is one of the two entries that every directory has: `.`
/// for itself and `..` for its parent.
pub open spec fn is_dot_entry(name: Seq<char>) -> bool {
    name == seq!['.'] || name == seq!['.', '.']
}

/// Whether the name begins with a dot.
pub open spec fn is_dotfile(name: Seq<char>) -> bool {
    name.len() > 0 && name[0] == '.'
}

/// Whether the name is hidden by the rules for hidden names: it begins with
/// a dot, or a hidden rule matches it.
pub open spec fn is_hidden_name(name: Seq<char>, ctx: ContextView) -> bool {
    is_dotfile(name) || any_matches(ctx.hidden, name)
}

/// The category of a name. `.` and `..` are ignored whatever the rules say.
pub open spec fn spec_categorize(name: Seq<char>, ctx: ContextView) -> Category {
    if is_dot_entry(name) || any_matches(ctx.ignored, name) {
        Category::Ignored
    } else if is_hidden_name(name, ctx) {
        Category::Hidden
    } else {
        Category::Shown
    }
}

/// The category of a name, and whether the name is shown at the level.
pub open spec fn spec_classify(
    name: Seq<char>,
    level: HideOption,
    ctx: ContextView,
) -> Classification {
    let category = spec_categorize(name, ctx);
    Classification { category, shown: category.spec_shown_at(level) }
}

/// The rules that the listing command is told to leave out at a level: all
/// of them while hidden names are not shown, the ignored ones while only
/// ignored names are not shown, none when everything is shown.
pub open spec fn excluded_patterns(level: HideOption, ctx: ContextView) -> Seq<PatternView> {
    match level {
        HideOption::HideHidden => ctx.hidden,
        HideOption::HideIgnored => ctx.ignored,
        HideOption::ShowAll => Seq::empty(),
    }
}

/// The flag that tells the listing command which names with a leading dot to
/// list. By default it lists none of them; with `-A` it lists all but `.` and
/// `..`; with `-a` it lists all.
pub open spec fn dotfile_flags(level: HideOption) -> Seq<Seq<char>> {
    match level {
        HideOption::HideHidden => Seq::empty(),
        HideOption::HideIgnored => seq!["-A"@],
        HideOption::ShowAll => seq!["-a"@],
    }
}

/// The flag that tells the listing command to leave out the names that a
/// glob matches.
pub open spec fn ignore_flag(glob: Seq<char>) -> Seq<char> {
    "--ignore="@ + glob
}

/// One flag for each of the rules, in order.
pub open spec fn ignore_flags(patterns: Seq<PatternView>) -> Seq<Seq<char>> {
    Seq::new(patterns.len(), |i: int| ignore_flag(patterns[i].glob()))
}

/// The arguments that make the listing command itself leave out what the
/// level does not show.
pub open spec fn spec_exclusion_arguments(level: HideOption, ctx: ContextView) -> Seq<Seq<char>> {
    dotfile_flags(level) + ignore_flags(excluded_patterns(level, ctx))
}

/// Whether the dot rule of the listing command, as [`dotfile_flags`] sets it
/// for the level, leaves the name out.
pub open spec fn left_out_by_dot(name: Seq<char>, level: HideOption) -> bool {
    match level {
        HideOption::HideHidden => is_dotfile(name),
        HideOption::HideIgnored => is_dot_entry(name),
        HideOption::ShowAll => false,
    }
}

impl Category {
    /// The strictest level at which names of the category are shown.
    pub open spec fn spec_required_level(self) -> HideOption {
        match self {
            Category::Shown => HideOption::HideHidden,
            Category::Hidden => HideOption::HideIgnored,
            Category::Ignored => HideOption::ShowAll,
        }
    }

    /// Whether names of the category are shown at the level: ignored names
    /// only when everything is shown, hidden names unless hidden names are
    /// not shown, all other names always.
    pub open spec fn spec_shown_at(self, level: HideOption) -> bool {
        match self {
            Category::Shown => true,
            Category::Hidden => level == HideOption::HideIgnored || level == HideOption::ShowAll,
            Category::Ignored => level == HideOption::ShowAll,
        }
    }

    /// The strictest level at which names of the category are shown.
    pub fn required_level(self) -> (r: HideOption)
        ensures
            r == self.spec_required_level(),
    {
        match self {
            Category::Shown => HideOption::HideHidden,
            Category::Hidden => HideOption::HideIgnored,
            Category::Ignored => HideOption::ShowAll,
        }
    }

    /// Whether names of the category are shown at the level.
    pub fn shown_at(self, level: HideOption) -> (r: bool)
        ensures
            r == self.spec_shown_at(level),
    {
        self.required_level() <= level
    }
}

/// Puts a name into its category, by the rules of its directory.
pub fn categorize(name: &str, ctx: &DirectoryContext) -> (r: Category)
    ensures
        r == spec_categorize(name@, ctx@),
        r == Category::Ignored ==> is_hidden_name(name@, ctx@),
{
    let chars = chars_of(name);
    let len = chars.len();
    let dotfile = len > 0 && chars[0] == '.';
    let dot_entry = dotfile && (len == 1 || (len == 2 && chars[1] == '.'));
    proof {
        if dot_entry {
            assert(chars@ =~= seq!['.'] || chars@ =~= seq!['.', '.']);
        }
    }
    if dot_entry || ctx.ignored().matches_chars(&chars) {
        Category::Ignored
    } else if dotfile || ctx.hidden().matches_chars(&chars) {
        Category::Hidden
    } else {
        Category::Shown
    }
}

/// Puts a name into its category and says whether it is shown at the level.
pub fn classify(name: &str, level: HideOption, ctx: &DirectoryContext) -> (r: Classification)
    ensures
        r == spec_classify(name@, level, ctx@),
        r.category == Category::Ignored ==> is_hidden_name(name@, ctx@),
{
    let category = categorize(name, ctx);
    Classification { category, shown: category.shown_at(level) }
}

/// The arguments that make the listing command itself leave out what the
/// level does not show, for a caller that does not filter its output.
///
/// The listing command knows dotfiles only as all or nothing, so the level is
/// told in two parts: a flag for the names with a leading dot, and one
/// `--ignore` for each rule whose names stay out.
pub fn exclusion_arguments(level: HideOption, ctx: &DirectoryContext) -> (r: Vec<String>)
    ensures
        r.deep_view() == spec_exclusion_arguments(level, ctx@),
{
    let mut tokens: Vec<String> = Vec::new();
    match level {
        HideOption::HideHidden => {
            push_ignore_flags(&mut tokens, ctx.hidden());
        },
        HideOption::HideIgnored => {
            tokens.push(String::from_str("-A"));
            push_ignore_flags(&mut tokens, ctx.ignored());
        },
        HideOption::ShowAll => {
            tokens.push(String::from_str("-a"));
        },
    }
    tokens
}

/// Adds one `--ignore` flag for each of the rules behind the tokens.
fn push_ignore_flags(tokens: &mut Vec<String>, patterns: &PatternSet)
    ensures
        final(tokens).deep_view() == old(tokens).deep_view() + ignore_flags(patterns@),
{
    let ghost before = tokens.deep_view();
    let mut i: usize = 0;
    while i < patterns.len()
        invariant
            i <= patterns@.len(),
            tokens.deep_view() == before + ignore_flags(patterns@).take(i as int),
        decreases patterns@.len() - i,
    {
        let ghost so_far = tokens.deep_view();
        match patterns.get(i) {
            Some(pattern) => {
                let mut token = String::from_str("--ignore=");
                let glob = pattern.glob();
                token.append(glob.as_str());
                tokens.push(token);
                assert(tokens.deep_view() =~= so_far.push(token@));
            },
            None => {},
        }
        i += 1;
    }
}

/// A name that does not begin with a dot and that no rule matches is shown,
/// at every level.
pub proof fn lemma_plain_name_is_shown(name: Seq<char>, level: HideOption, ctx: ContextView)
    requires
        !is_dotfile(name),
        !any_matches(ctx.hidden, name),
        !any_matches(ctx.ignored, name),
    ensures
        spec_classify(name, level, ctx) == (Classification {
            category: Category::Shown,
            shown: true,
        }),
{
}

/// `.` and `..` are ignored whatever the rules are, and are shown only when
/// everything is shown.
pub proof fn lemma_dot_entries_are_ignored(level: HideOption, ctx: ContextView)
    ensures
        spec_classify(seq!['.'], level, ctx) == (Classification {
            category: Category::Ignored,
            shown: level == HideOption::ShowAll,
        }),
        spec_classify(seq!['.', '.'], level, ctx) == (Classification {
            category: Category::Ignored,
            shown: level == HideOption::ShowAll,
        }),
{
}

/// Ignored names are hidden names. A name that an ignored rule matches is
/// matched by a hidden rule as well, though no file of hidden rules may hold
/// such a rule; and every name of the category `Ignored` is a hidden name.
pub proof fn lemma_ignored_is_hidden(name: Seq<char>, ctx: ContextView)
    requires
        ctx.wf(),
    ensures
        any_matches(ctx.ignored, name) ==> any_matches(ctx.hidden, name),
        any_matches(ctx.ignored, name) ==> is_hidden_name(name, ctx),
        spec_categorize(name, ctx) == Category::Ignored ==> is_hidden_name(name, ctx),
{
}

/// A name is shown exactly at the levels from the one that its category
/// requires upwards.
pub proof fn lemma_shown_from_required_level(category: Category, level: HideOption)
    ensures
        category.spec_shown_at(level) <==> category.spec_required_level().spec_le(level),
{
}

/// A more permissive level shows all that a stricter level shows, and the
/// merge of two levels shows what either of them shows.
pub proof fn lemma_shown_is_monotone(category: Category, a: HideOption, b: HideOption)
    ensures
        a.spec_le(b) && category.spec_shown_at(a) ==> category.spec_shown_at(b),
        category.spec_shown_at(a.spec_merge(b)) <==> category.spec_shown_at(a)
            || category.spec_shown_at(b),
{
}

/// At every level, what shows ignored names shows hidden names, and what
/// shows hidden names shows all other names.
pub proof fn lemma_categories_nest(level: HideOption)
    ensures
        Category::Ignored.spec_shown_at(level) ==> Category::Hidden.spec_shown_at(level),
        Category::Hidden.spec_shown_at(level) ==> Category::Shown.spec_shown_at(level),
{
}

/// The exclusion arguments say what the classification says: a name is shown
/// at a level exactly when neither the dot rule that the arguments set nor
/// one of the rules that they pass on leaves it out.
pub proof fn lemma_exclusions_agree_with_classification(
    name: Seq<char>,
    level: HideOption,
    ctx: ContextView,
)
    requires
        ctx.wf(),
    ensures
        spec_classify(name, level, ctx).shown <==> !left_out_by_dot(name, level) && !any_matches(
            excluded_patterns(level, ctx),
            name,
        ),
{
}

} // verus!
