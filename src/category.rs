//! Camera categories and the selection of record files by name.
use vstd::prelude::*;

verus! {

/// The camera families that identifiers are issued for.
#[derive(Clone, Copy, Debug, PartialEq, Eq, Structural)]
pub enum Category {
    Hyrax,
    Bagheera,
    Hornet,
    Bumblebee,
    Coati,
}

/// The name of a category, as written on the command line and in file names.
pub open spec fn category_name(c: Category) -> Seq<char> {
    match c {
        Category::Hyrax => "hyrax"@,
        Category::Bagheera => "bagheera"@,
        Category::Hornet => "hornet"@,
        Category::Bumblebee => "bumblebee"@,
        Category::Coati => "coati"@,
    }
}

/// Whether `s` names some category.
pub open spec fn is_category_name(s: Seq<char>) -> bool {
    exists|c: Category| category_name(c) == s
}

/// The pattern that selects record files: any category name, followed
/// somewhere later on the same line by `txt`.
pub open spec fn record_pattern_text() -> Seq<char> {
    "(?:"@ + category_name(Category::Hyrax) + "|"@ + category_name(Category::Bagheera) + "|"@
        + category_name(Category::Hornet) + "|"@ + category_name(Category::Bumblebee) + "|"@
        + category_name(Category::Coati) + ").*txt"@
}

/// What searching `text` for the regular expression `pattern` gives: `None`
/// when the pattern does not compile, else whether it matches somewhere.
pub uninterp spec fn regex_search_result(pattern: Seq<char>, text: Seq<char>) -> Option<bool>;

/// Whether `path` names a record file.
pub open spec fn is_record_path(path: Seq<char>) -> bool {
    regex_search_result(record_pattern_text(), path) == Some(true)
}

impl Category {
    /// The category's name.
    pub fn name(&self) -> (r: &'static str)
        ensures
            r@ == category_name(*self),
    {
        match self {
            Category::Hyrax => "hyrax",
            Category::Bagheera => "bagheera",
            Category::Hornet => "hornet",
            Category::Bumblebee => "bumblebee",
            Category::Coati => "coati",
        }
    }

    /// The category that `s` names, if any.
    pub fn from_name(s: &str) -> (r: Option<Category>)
        ensures
            match r {
                Some(c) => category_name(c) == s@,
                None => !is_category_name(s@),
            },
    {
        let given: String = s.to_owned();
        if given == "hyrax".to_owned() {
            Some(Category::Hyrax)
        } else if given == "bagheera".to_owned() {
            Some(Category::Bagheera)
        } else if given == "hornet".to_owned() {
            Some(Category::Hornet)
        } else if given == "bumblebee".to_owned() {
            Some(Category::Bumblebee)
        } else if given == "coati".to_owned() {
            Some(Category::Coati)
        } else {
            assert forall|c: Category| category_name(c) != s@ by {
                match c {
                    Category::Hyrax => {},
                    Category::Bagheera => {},
                    Category::Hornet => {},
                    Category::Bumblebee => {},
                    Category::Coati => {},
                }
            }
            None
        }
    }
}

/// The pattern that selects record files, as text.
pub fn record_pattern() -> (r: String)
    ensures
        r@ == record_pattern_text(),
{
    let mut p = String::from_str("(?:");
    p.append(Category::Hyrax.name());
    p.append("|");
    p.append(Category::Bagheera.name());
    p.append("|");
    p.append(Category::Hornet.name());
    p.append("|");
    p.append(Category::Bumblebee.name());
    p.append("|");
    p.append(Category::Coati.name());
    p.append(").*txt");
    p
}

/// Relies on regex's `Regex::new` (compiles `pattern`, failing on invalid
/// syntax) and `Regex::is_match` (a match anywhere in `text`). Both depend
/// on their arguments alone.
#[verifier::external_body]
fn regex_search(pattern: &str, text: &str) -> (r: Option<bool>)
    ensures
        r == regex_search_result(pattern@, text@),
{
    regex::Regex::new(pattern).ok().map(|re| re.is_match(text))
}

/// Whether `path` names a record file.
pub fn is_record_file(path: &str) -> (r: bool)
    ensures
        r == is_record_path(path@),
{
    let pattern = record_pattern();
    match regex_search(pattern.as_str(), path) {
        Some(found) => found,
        None => false,
    }
}

/// The paths among `paths` that name record files, in their order.
pub fn select_record_files(paths: &Vec<String>) -> (r: Vec<String>)
    ensures
        r@.map_values(|s: String| s@) == paths@.map_values(|s: String| s@).filter(
            |p: Seq<char>| is_record_path(p),
        ),
{
    let ghost views = paths@.map_values(|s: String| s@);
    let mut out: Vec<String> = Vec::new();
    let mut k: usize = 0;
    while k < paths.len()
        invariant
            k <= paths.len(),
            views == paths@.map_values(|s: String| s@),
            out@.map_values(|s: String| s@) == views.subrange(0, k as int).filter(
                |p: Seq<char>| is_record_path(p),
            ),
        decreases paths.len() - k,
    {
        let keep = is_record_file(paths[k].as_str());
        proof {
            reveal(Seq::filter);
            assert(views.subrange(0, k + 1).drop_last() == views.subrange(0, k as int));
        }
        if keep {
            out.push(paths[k].clone());
        }
        k = k + 1;
    }
    assert(views.subrange(0, paths.len() as int) == views);
    out
}

} // verus!
