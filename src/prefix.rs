//! Classification of pull-request titles by their leading marker.
use vstd::prelude::*;
use vstd::string::StringExecFns;
use crate::config::opt_text;

verus! {

/// What `regex::Regex::replace_all` with an empty replacement leaves of a text.
pub uninterp spec fn regex_erased(pattern: Seq<char>, text: Seq<char>) -> Seq<char>;

/// What `str::trim` leaves of a text.
pub uninterp spec fn trimmed(text: Seq<char>) -> Seq<char>;

/// Relies on `regex::Regex::new` and `Regex::replace_all`: every match of the
/// pattern is removed; the result is a function of the pattern and the text.
#[verifier::external_body]
fn erase_matches(pattern: &str, text: &str) -> (r: String)
    ensures
        r@ == regex_erased(pattern@, text@),
{
    match regex::Regex::new(pattern) {
        Ok(re) => re.replace_all(text, "").into_owned(),
        Err(_) => text.to_owned(),
    }
}

/// Relies on `str::trim`: leading and trailing whitespace is removed; the result
/// depends on the characters alone.
#[verifier::external_body]
fn trim(text: &str) -> (r: &str)
    ensures
        r@ == trimmed(text@),
{
    text.trim()
}

/// Relies on `str::strip_prefix`: `Some` of what follows `prefix` exactly when
/// `text` starts with `prefix`.
#[verifier::external_body]
fn strip_prefix<'a>(text: &'a str, prefix: &str) -> (r: Option<&'a str>)
    ensures
        r is Some <==> prefix@.is_prefix_of(text@),
        r matches Some(rest) ==> rest@ == text@.skip(prefix@.len() as int),
{
    text.strip_prefix(prefix)
}

/// The kind of change that a pull request announces.
#[derive(Debug, Clone, Copy, PartialEq, Eq, Structural)]
pub enum Category {
    Feature,
    BugFix,
    Docs,
    Infra,
    Breaking,
    NoNote,
}

/// A classified pull request, holding the title without its markers.
#[derive(Debug, PartialEq, Eq)]
pub enum PRType {
    Feature(String),
    BugFix(String),
    Docs(String),
    Infra(String),
    Breaking(String),
    NoNote(String),
}

/// The title that was left, and the emoji that was found in place of a textual
/// marker, if any.
pub type PRTypeError = (String, Option<String>);

/// A classification as plain values: the category and remaining title, or the
/// remaining title and the emoji found.
pub type Outcome = Result<(Category, Seq<char>), (Seq<char>, Option<Seq<char>>)>;

pub open spec fn outcome(r: Result<PRType, PRTypeError>) -> Outcome {
    match r {
        Ok(p) => Ok((p.category(), p.text())),
        Err((t, e)) => Err((t@, opt_text(e))),
    }
}

/// The text after a marker: an invisible variation selector in front is
/// dropped, then surrounding whitespace.
pub open spec fn finished(t: Seq<char>) -> Seq<char> {
    if "\u{FE0F}"@.is_prefix_of(t) {
        trimmed(t.skip("\u{FE0F}"@.len() as int))
    } else {
        trimmed(t)
    }
}

/// Emoji that stand for a marker and are refused in its place.
pub open spec fn starts_with_glyph(v: Seq<char>) -> Option<Seq<char>> {
    if "✨"@.is_prefix_of(v) {
        Some("✨"@)
    } else if "🐛"@.is_prefix_of(v) {
        Some("🐛"@)
    } else if "📖"@.is_prefix_of(v) {
        Some("📖"@)
    } else if "🌱"@.is_prefix_of(v) {
        Some("🌱"@)
    } else if "⚠"@.is_prefix_of(v) {
        Some("⚠"@)
    } else if "👻"@.is_prefix_of(v) {
        Some("👻"@)
    } else {
        None
    }
}

/// How a title with its work-in-progress and tag prefixes already removed is
/// classified: the first textual marker that it starts with decides.
pub open spec fn classified(v: Seq<char>) -> Outcome {
    if v.len() == 0 {
        Err((v, None))
    } else if ":sparkles:"@.is_prefix_of(v) {
        Ok((Category::Feature, finished(v.skip(":sparkles:"@.len() as int))))
    } else if ":bug:"@.is_prefix_of(v) {
        Ok((Category::BugFix, finished(v.skip(":bug:"@.len() as int))))
    } else if ":book:"@.is_prefix_of(v) {
        Ok((Category::Docs, finished(v.skip(":book:"@.len() as int))))
    } else if ":seedling:"@.is_prefix_of(v) {
        Ok((Category::Infra, finished(v.skip(":seedling:"@.len() as int))))
    } else if ":warning:"@.is_prefix_of(v) {
        Ok((Category::Breaking, finished(v.skip(":warning:"@.len() as int))))
    } else if ":ghost:"@.is_prefix_of(v) {
        Ok((Category::NoNote, finished(v.skip(":ghost:"@.len() as int))))
    } else {
        Err((finished(v), starts_with_glyph(v)))
    }
}

/// A raw title with a leading work-in-progress marker and a leading tag in
/// brackets removed, each followed by trimming.
pub open spec fn normalized(title: Seq<char>) -> Seq<char> {
    trimmed(
        regex_erased(
            r"^\[[\w.-]*]"@,
            trimmed(regex_erased(r"(?i)^\W?WIP\W"@, title)),
        ),
    )
}

fn finish(t: &str) -> (r: String)
    ensures
        r@ == finished(t@),
{
    match strip_prefix(t, "\u{FE0F}") {
        Some(rest) => trim(rest).to_owned(),
        None => trim(t).to_owned(),
    }
}

impl PRType {
    pub open spec fn category(&self) -> Category {
        match self {
            PRType::Feature(_) => Category::Feature,
            PRType::BugFix(_) => Category::BugFix,
            PRType::Docs(_) => Category::Docs,
            PRType::Infra(_) => Category::Infra,
            PRType::Breaking(_) => Category::Breaking,
            PRType::NoNote(_) => Category::NoNote,
        }
    }

    pub open spec fn text(&self) -> Seq<char> {
        match self {
            PRType::Feature(t) => t@,
            PRType::BugFix(t) => t@,
            PRType::Docs(t) => t@,
            PRType::Infra(t) => t@,
            PRType::Breaking(t) => t@,
            PRType::NoNote(t) => t@,
        }
    }

    /// Classifies a title whose work-in-progress and tag prefixes are already
    /// removed.
    pub fn classify(value: &str) -> (r: Result<Self, PRTypeError>)
        ensures
            outcome(r) == classified(value@),
    {
        if value.is_empty() {
            return Err((value.to_owned(), None));
        }
        if let Some(t) = strip_prefix(value, ":sparkles:") {
            Ok(PRType::Feature(finish(t)))
        } else if let Some(t) = strip_prefix(value, ":bug:") {
            Ok(PRType::BugFix(finish(t)))
        } else if let Some(t) = strip_prefix(value, ":book:") {
            Ok(PRType::Docs(finish(t)))
        } else if let Some(t) = strip_prefix(value, ":seedling:") {
            Ok(PRType::Infra(finish(t)))
        } else if let Some(t) = strip_prefix(value, ":warning:") {
            Ok(PRType::Breaking(finish(t)))
        } else if let Some(t) = strip_prefix(value, ":ghost:") {
            Ok(PRType::NoNote(finish(t)))
        } else {
            let emoji = if strip_prefix(value, "✨").is_some() {
                Some("✨".to_owned())
            } else if strip_prefix(value, "🐛").is_some() {
                Some("🐛".to_owned())
            } else if strip_prefix(value, "📖").is_some() {
                Some("📖".to_owned())
            } else if strip_prefix(value, "🌱").is_some() {
                Some("🌱".to_owned())
            } else if strip_prefix(value, "⚠").is_some() {
                Some("⚠".to_owned())
            } else if strip_prefix(value, "👻").is_some() {
                Some("👻".to_owned())
            } else {
                None
            };
            Err((finish(value), emoji))
        }
    }

    /// Classifies a raw pull-request title.
    pub fn from_title(value: &str) -> (r: Result<Self, PRTypeError>)
        ensures
            outcome(r) == classified(normalized(value@)),
    {
        let without_wip = erase_matches(r"(?i)^\W?WIP\W", value);
        let without_tag = erase_matches(r"^\[[\w.-]*]", trim(without_wip.as_str()));
        Self::classify(trim(without_tag.as_str()))
    }

    /// The name of the category as the report shows it.
    pub open spec fn category_name(&self) -> Seq<char> {
        match self {
            PRType::Feature(_) => "Feature"@,
            PRType::BugFix(_) => "Bug"@,
            PRType::Docs(_) => "Docs"@,
            PRType::Infra(_) => "Infra"@,
            PRType::Breaking(_) => "Breaking"@,
            PRType::NoNote(_) => "NoNote"@,
        }
    }

    /// A report of the classification: `PR type '<category>'`, then on a new
    /// line ` PR title '<title>'`.
    pub fn describe(&self) -> (r: String)
        ensures
            r@ == "PR type '"@ + self.category_name() + "'\n PR title '"@ + self.text() + "'"@,
    {
        let (name, title) = match self {
            PRType::Feature(t) => ("Feature", t),
            PRType::BugFix(t) => ("Bug", t),
            PRType::Docs(t) => ("Docs", t),
            PRType::Infra(t) => ("Infra", t),
            PRType::Breaking(t) => ("Breaking", t),
            PRType::NoNote(t) => ("NoNote", t),
        };
        let mut r = String::new();
        r.append("PR type '");
        r.append(name);
        r.append("'\n PR title '");
        r.append(title.as_str());
        r.append("'");
        r
    }

    /// The title without its markers.
    pub fn title(&self) -> (r: String)
        ensures
            r@ == self.text(),
    {
        match self {
            PRType::Feature(t) => t.clone(),
            PRType::BugFix(t) => t.clone(),
            PRType::Docs(t) => t.clone(),
            PRType::Infra(t) => t.clone(),
            PRType::Breaking(t) => t.clone(),
            PRType::NoNote(t) => t.clone(),
        }
    }
}

} // verus!
