//! Which events of a trace are taken: by category, and by name.
use vstd::prelude::*;

use crate::text::{
    comes_before, contains_text, in_order, join, join_texts, lemma_split_parts, non_empty,
    opt_str_view, present, same_text, split, split_text, split_undoes_join, text_less,
    text_less_total, text_less_transitive, trim, trimmed, trimming_settles, views,
};

verus! {

/// A compiled regular expression.
#[verifier::external_type_specification]
#[verifier::external_body]
pub struct ExRegex(regex::Regex);

/// Why a regular expression was not compiled.
#[verifier::external_type_specification]
#[verifier::external_body]
pub struct ExRegexError(regex::Error);

/// The pattern that a regular expression was compiled from, which
/// `regex::Regex::as_str` returns.
pub uninterp spec fn regex_source(regex: regex::Regex) -> Seq<char>;

/// Whether `regex::Regex::new` compiles a pattern.
pub uninterp spec fn regex_compiles(pattern: Seq<char>) -> bool;

/// Whether `regex::Regex::is_match` finds a match of a pattern in a text.
pub uninterp spec fn regex_matches(pattern: Seq<char>, text: Seq<char>) -> bool;

/// `regex::Regex::new`: whether it succeeds depends on the pattern alone, and
/// what it returns was compiled from the pattern.
pub assume_specification[ regex::Regex::new ](re: &str) -> (r: Result<regex::Regex, regex::Error>)
    ensures
        match r {
            Ok(regex) => regex_compiles(re@) && regex_source(regex) == re@,
            Err(_) => !regex_compiles(re@),
        },
;

/// `regex::Regex::is_match`: what it answers depends on the pattern and the
/// text alone.
pub assume_specification[ regex::Regex::is_match ](regex: &regex::Regex, haystack: &str) -> (r: bool)
    ensures
        r == regex_matches(regex_source(*regex), haystack@),
;

/// Why an import cannot begin.
#[derive(Debug)]
pub enum FilterError {
    /// No category is named, and not all are wanted.
    NoCategories,
    /// A pattern is not a regular expression.
    InvalidPattern { flag: String, cause: regex::Error },
}

/// What a refusal says.
pub open spec fn refusal(error: FilterError) -> Seq<char> {
    match error {
        FilterError::NoCategories =>
            "--categories must not be empty unless --all-categories is used"@,
        FilterError::InvalidPattern { flag, .. } => flag@ + " is invalid"@,
    }
}

impl FilterError {
    /// What the refusal says.
    pub fn message(&self) -> (r: String)
        ensures
            r@ == refusal(*self),
    {
        match self {
            FilterError::NoCategories => {
                "--categories must not be empty unless --all-categories is used".to_owned()
            },
            FilterError::InvalidPattern { flag, .. } => {
                let mut out = flag.clone();
                out.append(" is invalid");
                out
            },
        }
    }
}

/// Names of categories, each of them once, in the order of texts.
#[derive(Debug)]
pub struct CategorySet {
    names: Vec<String>,
}

impl View for CategorySet {
    type V = Seq<Seq<char>>;

    closed spec fn view(&self) -> Seq<Seq<char>> {
        views(self.names@)
    }
}

impl CategorySet {
    /// Whether each name comes before those that follow it.
    pub open spec fn well_formed(self) -> bool {
        in_order(self@)
    }

    /// No category.
    fn new() -> (r: CategorySet)
        ensures
            r.well_formed(),
            r@ == Seq::<Seq<char>>::empty(),
    {
        let r = CategorySet { names: Vec::new() };
        assert(r@ =~= Seq::<Seq<char>>::empty());
        r
    }

    /// Whether a category is one of these.
    pub fn contains(&self, name: &str) -> (r: bool)
        ensures
            r == self@.contains(name@),
    {
        contains_text(&self.names, name)
    }

    /// Adds a category.
    fn insert(&mut self, name: String)
        requires
            old(self).well_formed(),
        ensures
            final(self).well_formed(),
            forall|t: Seq<char>| #[trigger]
                final(self)@.contains(t) <==> old(self)@.contains(t) || t == name@,
    {
        let ghost before = self@;
        let mut at: usize = 0;
        while at < self.names.len() && comes_before(self.names[at].as_str(), name.as_str())
            invariant
                at <= self.names@.len(),
                self@ == before,
                forall|k: int| 0 <= k < at ==> text_less(#[trigger] before[k], name@),
            decreases self.names@.len() - at,
        {
            at += 1;
        }
        if at < self.names.len() && same_text(self.names[at].as_str(), name.as_str()) {
            assert(before[at as int] == name@);
            return ;
        }
        let ghost added = name@;
        self.names.insert(at, name);
        proof {
            let after = self@;
            assert(after =~= before.insert(at as int, added));
            if at < before.len() {
                text_less_total(before[at as int], added);
            }
            assert forall|k: int| at <= k < before.len() implies text_less(
                added,
                #[trigger] before[k],
            ) by {
                if k > at {
                    text_less_transitive(added, before[at as int], before[k]);
                }
            }
            assert forall|i: int, j: int| 0 <= i < j < after.len() implies text_less(
                #[trigger] after[i],
                #[trigger] after[j],
            ) by {
                let a = if i < at { i } else { i - 1 };
                let b = if j < at { j } else { j - 1 };
                if i != at && j != at {
                    assert(after[i] == before[a] && after[j] == before[b]);
                } else if i == at {
                    assert(after[j] == before[b]);
                } else {
                    assert(after[i] == before[a]);
                }
            }
            assert forall|t: Seq<char>| #[trigger]
                after.contains(t) <==> before.contains(t) || t == added by {
                if before.contains(t) {
                    let k = choose|k: int| 0 <= k < before.len() && before[k] == t;
                    assert(after[if k < at { k } else { k + 1 }] == t);
                }
                if t == added {
                    assert(after[at as int] == t);
                }
                if after.contains(t) && t != added {
                    let k = choose|k: int| 0 <= k < after.len() && after[k] == t;
                    assert(before[if k < at { k } else { k - 1 }] == t);
                }
            }
        }
    }
}

/// Whether a list names a category: one of its parts, without the space around
/// it, unless that leaves nothing.
pub open spec fn names_category(list: Seq<char>, category: Seq<char>) -> bool {
    category.len() > 0 && exists|i: int|
        0 <= i < split_text(list, ',').len() && trimmed(#[trigger] split_text(list, ',')[i])
            == category
}

/// The categories that a list names, or none for all of them.
pub fn parse_categories(raw_categories: &str, all_categories: bool) -> (r: Result<
    Option<CategorySet>,
    FilterError,
>)
    ensures
        match r {
            Ok(None) => all_categories,
            Ok(Some(set)) => {
                &&& !all_categories
                &&& set.well_formed()
                &&& set@.len() > 0
                &&& forall|t: Seq<char>| #[trigger]
                    set@.contains(t) <==> names_category(raw_categories@, t)
            },
            Err(error) => {
                &&& !all_categories
                &&& error is NoCategories
                &&& forall|t: Seq<char>| !names_category(raw_categories@, t)
            },
        },
{
    if all_categories {
        return Ok(None);
    }
    let parts = split(raw_categories, ',');
    let ghost list = split_text(raw_categories@, ',');
    let mut set = CategorySet::new();
    let mut i: usize = 0;
    while i < parts.len()
        invariant
            i <= parts@.len(),
            views(parts@) == list,
            list == split_text(raw_categories@, ','),
            set.well_formed(),
            forall|t: Seq<char>| #[trigger]
                set@.contains(t) ==> names_category(raw_categories@, t),
            forall|k: int|
                0 <= k < i && trimmed(#[trigger] list[k]).len() > 0 ==> set@.contains(
                    trimmed(list[k]),
                ),
        decreases parts@.len() - i,
    {
        let item = trim(parts[i].as_str());
        assert(list[i as int] == parts@[i as int]@);
        if !item.as_str().is_empty() {
            let ghost before = set@;
            let ghost name = item@;
            set.insert(item);
            assert(names_category(raw_categories@, name));
            assert(set@.contains(name));
            assert forall|k: int| 0 <= k < i && trimmed(#[trigger] list[k]).len() > 0 implies
                set@.contains(trimmed(list[k])) by {
                assert(before.contains(trimmed(list[k])));
            }
        }
        i += 1;
    }
    if set.names.len() == 0 {
        proof {
            assert forall|t: Seq<char>| !names_category(raw_categories@, t) by {
                if names_category(raw_categories@, t) {
                    let k = choose|k: int|
                        0 <= k < list.len() && trimmed(#[trigger] list[k]) == t;
                    assert(set@.contains(t));
                }
            }
        }
        return Err(FilterError::NoCategories);
    }
    proof {
        assert forall|t: Seq<char>| names_category(raw_categories@, t) implies #[trigger]
            set@.contains(t) by {
            let k = choose|k: int| 0 <= k < list.len() && trimmed(#[trigger] list[k]) == t;
            assert(set@.contains(trimmed(list[k])));
        }
    }
    Ok(Some(set))
}

/// The list that names categories: their names in order, or a star for all.
pub open spec fn category_list(categories: Option<CategorySet>) -> Seq<char> {
    match categories {
        None => "*"@,
        Some(set) => join_texts(set@, ","@),
    }
}

/// The list that names categories.
pub fn category_text(categories: &Option<CategorySet>) -> (r: String)
    ensures
        r@ == category_list(*categories),
{
    match categories {
        None => "*".to_owned(),
        Some(set) => join(&set.names, ","),
    }
}

/// The expression of a pattern. An absent or empty pattern has none.
pub fn compile_regex(raw_pattern: Option<&str>, flag_name: &str) -> (r: Result<
    Option<regex::Regex>,
    FilterError,
>)
    ensures
        match (r, non_empty(opt_str_view(raw_pattern))) {
            (Ok(None), None) => true,
            (Ok(Some(regex)), Some(pattern)) => regex_compiles(pattern) && regex_source(regex)
                == pattern,
            (Err(error), Some(pattern)) => {
                &&& !regex_compiles(pattern)
                &&& error matches FilterError::InvalidPattern { flag, .. }
                &&& flag@ == flag_name@
            },
            _ => false,
        },
{
    match present(raw_pattern) {
        None => Ok(None),
        Some(pattern) => match regex::Regex::new(pattern) {
            Ok(regex) => Ok(Some(regex)),
            Err(cause) => Err(FilterError::InvalidPattern { flag: flag_name.to_owned(), cause }),
        },
    }
}

/// Whether a name is taken, by whether it matches what is to be taken and what
/// is to be left out. Where nothing is asked for, every name will do.
pub open spec fn is_taken(included: Option<bool>, excluded: Option<bool>) -> bool {
    included != Some(false) && excluded != Some(true)
}

/// Whether a name is taken, by whether it matches.
pub fn taken(included: Option<bool>, excluded: Option<bool>) -> (r: bool)
    ensures
        r == is_taken(included, excluded),
{
    let kept = match included {
        Some(matches) => matches,
        None => true,
    };
    let dropped = match excluded {
        Some(matches) => matches,
        None => false,
    };
    kept && !dropped
}

/// Whether an optional expression matches a name.
pub open spec fn opt_matches(regex: Option<&regex::Regex>, name: Seq<char>) -> Option<bool> {
    match regex {
        Some(regex) => Some(regex_matches(regex_source(*regex), name)),
        None => None,
    }
}

/// Whether a name is taken.
pub fn selected_name(
    op_name: &str,
    include_name: Option<&regex::Regex>,
    exclude_name: Option<&regex::Regex>,
) -> (r: bool)
    ensures
        r == is_taken(opt_matches(include_name, op_name@), opt_matches(exclude_name, op_name@)),
{
    let included: Option<bool> = match include_name {
        Some(regex) => Some(regex.is_match(op_name)),
        None => None,
    };
    let excluded: Option<bool> = match exclude_name {
        Some(regex) => Some(regex.is_match(op_name)),
        None => None,
    };
    taken(included, excluded)
}

/// The list of the categories that a list names, names the same categories.
pub proof fn category_list_names_the_same(list: Seq<char>, categories: Seq<Seq<char>>)
    requires
        in_order(categories),
        categories.len() > 0,
        forall|t: Seq<char>| #[trigger] categories.contains(t) <==> names_category(list, t),
    ensures
        forall|t: Seq<char>| #[trigger]
            categories.contains(t) <==> names_category(join_texts(categories, ","@), t),
{
    reveal_strlit(",");
    assert(","@ =~= seq![',']);
    let parts = split_text(list, ',');
    lemma_split_parts(list, ',');
    assert forall|i: int| 0 <= i < categories.len() implies !(#[trigger] categories[i]).contains(
        ',',
    ) && trimmed(categories[i]) == categories[i] && categories[i].len() > 0 by {
        let t = categories[i];
        assert(categories.contains(t));
        let k = choose|k: int| 0 <= k < parts.len() && trimmed(#[trigger] parts[k]) == t;
        trimming_settles(parts[k]);
        let (a, b) = choose|a: int, b: int|
            0 <= a <= b <= parts[k].len() && t == #[trigger] parts[k].subrange(a, b);
        if t.contains(',') {
            let j = choose|j: int| 0 <= j < t.len() && t[j] == ',';
            assert(parts[k][a + j] == ',');
        }
    }
    split_undoes_join(categories, ',');
    let text = join_texts(categories, ","@);
    assert(split_text(text, ',') == categories);
    assert forall|t: Seq<char>| #[trigger]
        categories.contains(t) <==> names_category(text, t) by {
        if categories.contains(t) {
            let k = choose|k: int| 0 <= k < categories.len() && categories[k] == t;
            assert(trimmed(split_text(text, ',')[k]) == t);
        }
        if names_category(text, t) {
            let k = choose|k: int|
                0 <= k < split_text(text, ',').len() && trimmed(#[trigger] split_text(text, ',')[k])
                    == t;
            assert(categories[k] == t);
        }
    }
}

/// A list of names names each of them, whatever the white space around them, and
/// nothing else.
pub proof fn lists_name_their_parts(names: Seq<Seq<char>>, list: Seq<char>, category: Seq<char>)
    requires
        names.len() > 0,
        forall|i: int| 0 <= i < names.len() ==> !(#[trigger] names[i]).contains(','),
        list == join_texts(names, ","@),
    ensures
        names_category(list, category) <==> category.len() > 0 && exists|i: int|
            0 <= i < names.len() && trimmed(#[trigger] names[i]) == category,
{
    reveal_strlit(",");
    assert(","@ =~= seq![',']);
    split_undoes_join(names, ',');
    if names_category(list, category) {
        let k = choose|k: int|
            0 <= k < split_text(list, ',').len() && trimmed(#[trigger] split_text(list, ',')[k])
                == category;
        assert(trimmed(names[k]) == category);
    }
    if category.len() > 0 && exists|i: int|
        0 <= i < names.len() && trimmed(#[trigger] names[i]) == category {
        let k = choose|k: int| 0 <= k < names.len() && trimmed(#[trigger] names[k]) == category;
        assert(trimmed(split_text(list, ',')[k]) == category);
    }
}

/// A name is taken if and only if it matches what is to be taken, where that is asked
/// for, and does not match what is to be left out, where that is asked for.
pub proof fn names_are_taken_by_both_patterns(included: Option<bool>, excluded: Option<bool>)
    ensures
        is_taken(included, excluded) <==> (included is Some ==> included->0) && (excluded is Some
            ==> !excluded->0),
{
}

} // verus!
