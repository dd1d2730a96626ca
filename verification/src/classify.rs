// Classification of a context: which kind of environment its name points
// to, judged by the configured names.

use crate::config::{Config, NameLists};
use crate::text::{
    all_white_space, is_substring, lemma_trimmed_ignores_padding, normalize, normalized,
    str_contains,
};
use vstd::prelude::*;

verus! {

/// The kind of environment that a context belongs to.
#[derive(Clone, Copy, Debug, PartialEq, Eq, Structural)]
pub enum Category {
    Prod,
    Test,
    Dev,
    Unknown,
}

/// The colour in which a context is shown.
#[derive(Clone, Copy, Debug, PartialEq, Eq, Structural)]
pub enum Color {
    Red,
    Yellow,
    Green,
    Blue,
}

/// Some entry of `names` occurs in `text`. No entry of an empty list does.
pub open spec fn matches_any(text: Seq<char>, names: Seq<Seq<char>>) -> bool {
    exists|i: int| 0 <= i < names.len() && is_substring(#[trigger] names[i], text)
}

/// The category of a text that is already in the form in which names are
/// compared: the first list with an entry that occurs in it decides,
/// production before test before development.
pub open spec fn category_of_text(text: Seq<char>, names: NameLists) -> Category {
    if matches_any(text, names.prod) {
        Category::Prod
    } else if matches_any(text, names.test) {
        Category::Test
    } else if matches_any(text, names.dev) {
        Category::Dev
    } else {
        Category::Unknown
    }
}

/// The category of a context: that of its name, trimmed and lowercased.
pub open spec fn category_of(context: Seq<char>, names: NameLists) -> Category {
    category_of_text(normalized(context), names)
}

/// The colour of each category; blue where the context is not known.
pub open spec fn color_of(category: Category) -> Color {
    match category {
        Category::Prod => Color::Red,
        Category::Test => Color::Yellow,
        Category::Dev => Color::Green,
        Category::Unknown => Color::Blue,
    }
}

/// Whether some entry of `strings` occurs in `text`.
pub fn contains_list_item(text: &str, strings: &Vec<String>) -> (found: bool)
    ensures
        found == matches_any(text@, strings.deep_view()),
{
    let ghost names = strings.deep_view();
    let mut i: usize = 0;
    while i < strings.len()
        invariant
            i <= strings.len(),
            names == strings.deep_view(),
            forall|j: int| 0 <= j < i ==> !is_substring(#[trigger] names[j], text@),
        decreases strings.len() - i,
    {
        assert(names[i as int] == strings@[i as int]@);
        if str_contains(text, strings[i].as_str()) {
            return true;
        }
        i += 1;
    }
    false
}

/// Classifies a text that is already trimmed and lowercased.
pub fn classify_normalized(text: &str, config: &Config) -> (category: Category)
    ensures
        category == category_of_text(text@, config@),
{
    if contains_list_item(text, &config.prod_name) {
        Category::Prod
    } else if contains_list_item(text, &config.test_name) {
        Category::Test
    } else if contains_list_item(text, &config.dev_name) {
        Category::Dev
    } else {
        Category::Unknown
    }
}

/// Classifies a context by the configured names.
pub fn classify(context: &str, config: &Config) -> (category: Category)
    ensures
        category == category_of(context@, config@),
{
    let lower = normalize(context);
    classify_normalized(lower.as_str(), config)
}

/// The colour in which to show a context.
pub fn get_color(current_context: &str, config: &Config) -> (color: Color)
    ensures
        color == color_of(category_of(current_context@, config@)),
{
    match classify(current_context, config) {
        Category::Prod => Color::Red,
        Category::Test => Color::Yellow,
        Category::Dev => Color::Green,
        Category::Unknown => Color::Blue,
    }
}

/// A context whose name, once trimmed and lowercased, holds an entry of the
/// production list is a production context, whatever the other two lists
/// hold and whatever white space surrounds the name.
pub proof fn lemma_prod_entry_decides(
    lead: Seq<char>,
    context: Seq<char>,
    trail: Seq<char>,
    names: NameLists,
    entry: int,
)
    requires
        all_white_space(lead),
        all_white_space(trail),
        0 <= entry < names.prod.len(),
        is_substring(names.prod[entry], normalized(context)),
    ensures
        category_of(lead + context + trail, names) == Category::Prod,
{
    lemma_trimmed_ignores_padding(lead, context, trail);
}

/// Surrounding white space never changes the category of a context.
pub proof fn lemma_category_ignores_padding(
    lead: Seq<char>,
    context: Seq<char>,
    trail: Seq<char>,
    names: NameLists,
)
    requires
        all_white_space(lead),
        all_white_space(trail),
    ensures
        category_of(lead + context + trail, names) == category_of(context, names),
{
    lemma_trimmed_ignores_padding(lead, context, trail);
}

/// Two contexts whose trimmed names have the same lowercase form, as names
/// that differ in the case of their letters do, are of one category.
pub proof fn lemma_category_ignores_case(first: Seq<char>, second: Seq<char>, names: NameLists)
    requires
        normalized(first) == normalized(second),
    ensures
        category_of(first, names) == category_of(second, names),
{
}

} // verus!
