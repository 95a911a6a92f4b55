use vstd::prelude::*;
use crate::markup::string_seq_view;
use crate::paths::{
    expand_place_path_with_home, expand_place_spec, home_dir, opt_view, place_path_error_message,
    place_path_error_text, PlacePathError,
};
use crate::state::EntryView;
use crate::text::{
    char_count, concatenate, decimal, decimal_chars, is_space, law_trim_keeps_trimmed_text,
    string_from_range, trim, trim_spec,
};

verus! {

/// A value of the `go_to.entries` list as the configuration file holds it: a
/// table, with its `title` and its `path` where each is a string, or any other
/// kind of value.
pub enum GoToEntryValue {
    Table { title: Option<String>, path: Option<String> },
    Other,
}

pub enum ValueView {
    Table { title: Option<Seq<char>>, path: Option<Seq<char>> },
    Other,
}

impl View for GoToEntryValue {
    type V = ValueView;

    open spec fn view(&self) -> ValueView {
        match self {
            GoToEntryValue::Table { title, path } => ValueView::Table {
                title: opt_view(*title),
                path: opt_view(*path),
            },
            GoToEntryValue::Other => ValueView::Other,
        }
    }
}

/// The `[go_to]` section of the configuration file.
pub struct GoToConfigOverride {
    pub entries: Option<Vec<GoToEntryValue>>,
}

/// A configured destination of the "go to" overlay.
pub struct GoToEntry {
    pub title: String,
    pub path: String,
}

impl View for GoToEntry {
    type V = EntryView;

    open spec fn view(&self) -> EntryView {
        EntryView { title: self.title@, path: self.path@ }
    }
}

/// The configured destinations of the "go to" overlay, in order.
pub struct GoToConfig {
    pub entries: Vec<GoToEntry>,
}

impl View for GoToConfig {
    type V = Seq<EntryView>;

    open spec fn view(&self) -> Seq<EntryView> {
        self.entries@.map_values(|e: GoToEntry| e@)
    }
}

/// Why an entry of `go_to.entries` is skipped.
#[derive(Clone, Copy, Debug, PartialEq, Eq)]
pub enum GoToEntryError {
    /// The value is not a `{ title, path }` table.
    NotATable,
    /// The title is missing, not a string, or blank.
    MissingTitle,
    /// The path is missing, not a string, or blank.
    MissingPath,
    /// The path could not be expanded.
    Path(PlacePathError),
}

/// A string field after trimming, if it is present and not blank.
pub open spec fn nonblank(field: Option<Seq<char>>) -> Option<Seq<char>> {
    match field {
        Some(s) => if trim_spec(s).len() > 0 {
            Some(trim_spec(s))
        } else {
            None
        },
        None => None,
    }
}

/// The entry an element of `go_to.entries` gives, with a given home
/// directory for expanding its path.
pub open spec fn entry_spec(v: ValueView, home: Option<Seq<char>>) -> Result<EntryView, GoToEntryError> {
    match v {
        ValueView::Other => Err(GoToEntryError::NotATable),
        ValueView::Table { title, path } => match nonblank(title) {
            None => Err(GoToEntryError::MissingTitle),
            Some(t) => match nonblank(path) {
                None => Err(GoToEntryError::MissingPath),
                Some(p) => match expand_place_spec(p, home) {
                    Ok(e) => Ok(EntryView { title: t, path: e }),
                    Err(err) => Err(GoToEntryError::Path(err)),
                },
            },
        },
    }
}

/// The entries that the elements of `go_to.entries` give, in order, leaving
/// out those that are skipped.
pub open spec fn entries_spec(vals: Seq<ValueView>, home: Option<Seq<char>>) -> Seq<EntryView>
    decreases vals.len(),
{
    if vals.len() == 0 {
        Seq::empty()
    } else {
        let rest = entries_spec(vals.drop_last(), home);
        match entry_spec(vals.last(), home) {
            Ok(e) => rest.push(e),
            Err(_) => rest,
        }
    }
}

pub open spec fn entry_result_view(r: Result<GoToEntry, GoToEntryError>) -> Result<
    EntryView,
    GoToEntryError,
> {
    match r {
        Ok(e) => Ok(e@),
        Err(err) => Err(err),
    }
}

pub open spec fn values_view(o: Option<Vec<GoToEntryValue>>) -> Seq<ValueView> {
    match o {
        Some(v) => v@.map_values(|x: GoToEntryValue| x@),
        None => Seq::empty(),
    }
}

/// How the warnings name element `index` of the list: `go_to.entries[index]`.
pub open spec fn entry_field_name(index: nat) -> Seq<char> {
    "go_to.entries["@ + decimal(index) + "]"@
}

pub fn entry_field_name_text(index: usize) -> (r: String)
    ensures
        r@ == entry_field_name(index as nat),
{
    let digits = decimal_chars(index);
    let d = string_from_range(&digits, 0, digits.len());
    assert(digits@.subrange(0, digits@.len() as int) =~= digits@);
    let head = concatenate("go_to.entries[", d.as_str());
    concatenate(head.as_str(), "]")
}

/// Why an entry is skipped, in words.
pub open spec fn entry_error_text(err: GoToEntryError) -> Seq<char> {
    match err {
        GoToEntryError::NotATable => "expected a { title, path } object"@,
        GoToEntryError::MissingTitle => "go_to entries require a non-empty string title"@,
        GoToEntryError::MissingPath => "go_to entries require a non-empty string path"@,
        GoToEntryError::Path(e) => place_path_error_text(e),
    }
}

/// The warning printed for a skipped entry named `field`:
/// `elio: <field>: <reason>; skipping entry`.
pub open spec fn entry_warning(err: GoToEntryError, field: Seq<char>) -> Seq<char> {
    "elio: "@ + field + ": "@ + entry_error_text(err) + "; skipping entry"@
}

fn entry_error_message(err: GoToEntryError) -> (r: String)
    ensures
        r@ == entry_error_text(err),
{
    match err {
        GoToEntryError::NotATable => String::from_str("expected a { title, path } object"),
        GoToEntryError::MissingTitle => String::from_str(
            "go_to entries require a non-empty string title",
        ),
        GoToEntryError::MissingPath => String::from_str(
            "go_to entries require a non-empty string path",
        ),
        GoToEntryError::Path(e) => place_path_error_message(e),
    }
}

/// The warning for a skipped entry named `field`.
pub fn entry_warning_text(err: GoToEntryError, field: &str) -> (r: String)
    ensures
        r@ == entry_warning(err, field@),
{
    let a = concatenate("elio: ", field);
    let b = concatenate(a.as_str(), ": ");
    let reason = entry_error_message(err);
    let c = concatenate(b.as_str(), reason.as_str());
    concatenate(c.as_str(), "; skipping entry")
}

/// The warnings for the elements of `go_to.entries` that are skipped, in
/// order, each naming its element by its index.
pub open spec fn warnings_spec(vals: Seq<ValueView>, home: Option<Seq<char>>) -> Seq<Seq<char>>
    decreases vals.len(),
{
    if vals.len() == 0 {
        Seq::empty()
    } else {
        let rest = warnings_spec(vals.drop_last(), home);
        match entry_spec(vals.last(), home) {
            Ok(_) => rest,
            Err(e) => rest.push(entry_warning(e, entry_field_name((vals.len() - 1) as nat))),
        }
    }
}

fn nonblank_exec(field: &Option<String>) -> (r: Option<String>)
    ensures
        opt_view(r) == nonblank(opt_view(*field)),
{
    match field {
        Some(s) => {
            let t = trim(s.as_str());
            if char_count(t.as_str()) > 0 {
                Some(t)
            } else {
                None
            }
        },
        None => None,
    }
}

impl GoToEntry {
    /// The entry an element of `go_to.entries` gives, expanding its path with
    /// the home directory `home`.
    pub fn from_toml_value_with_home(value: &GoToEntryValue, home: Option<String>) -> (r: Result<
        Self,
        GoToEntryError,
    >)
        ensures
            entry_result_view(r) == entry_spec(value@, opt_view(home)),
    {
        match value {
            GoToEntryValue::Other => Err(GoToEntryError::NotATable),
            GoToEntryValue::Table { title, path } => {
                let title = match nonblank_exec(title) {
                    Some(t) => t,
                    None => {
                        return Err(GoToEntryError::MissingTitle);
                    },
                };
                let path = match nonblank_exec(path) {
                    Some(p) => p,
                    None => {
                        return Err(GoToEntryError::MissingPath);
                    },
                };
                match expand_place_path_with_home(path.as_str(), home) {
                    Ok(p) => Ok(GoToEntry { title, path: p }),
                    Err(e) => Err(GoToEntryError::Path(e)),
                }
            },
        }
    }

    /// The entry an element of `go_to.entries` gives, expanding its path with
    /// the user's home directory.
    pub fn from_toml_value(value: &GoToEntryValue) -> (r: Result<Self, GoToEntryError>)
        ensures
            exists|h: Option<Seq<char>>| entry_result_view(r) == entry_spec(value@, h),
    {
        let home = home_dir();
        GoToEntry::from_toml_value_with_home(value, home)
    }
}

impl GoToConfig {
    /// The configured destinations, from the `[go_to]` section, with paths
    /// expanded using the home directory `home`. Elements that are not
    /// tables, that lack a non-blank title or path, or whose path cannot be
    /// expanded are skipped.
    pub fn from_override_with_home(overrides: GoToConfigOverride, home: Option<String>) -> (r: Self)
        ensures
            r@ == entries_spec(values_view(overrides.entries), opt_view(home)),
    {
        let mut entries: Vec<GoToEntry> = Vec::new();
        match overrides.entries {
            None => {
                assert(entries@.map_values(|e: GoToEntry| e@) =~= Seq::<EntryView>::empty());
            },
            Some(values) => {
                let ghost vals = values@.map_values(|x: GoToEntryValue| x@);
                let mut i: usize = 0;
                assert(vals.take(0) =~= Seq::<ValueView>::empty());
                assert(entries@.map_values(|e: GoToEntry| e@) =~= Seq::<EntryView>::empty());
                while i < values.len()
                    invariant
                        i <= values@.len(),
                        vals == values@.map_values(|x: GoToEntryValue| x@),
                        entries@.map_values(|e: GoToEntry| e@) == entries_spec(
                            vals.take(i as int),
                            opt_view(home),
                        ),
                    decreases values@.len() - i,
                {
                    let h = match &home {
                        Some(s) => Some(s.clone()),
                        None => None,
                    };
                    let r = GoToEntry::from_toml_value_with_home(&values[i], h);
                    let ghost before = entries@;
                    assert(vals.take(i + 1).drop_last() =~= vals.take(i as int));
                    assert(vals.take(i + 1).last() == values@[i as int]@);
                    match r {
                        Ok(e) => {
                            entries.push(e);
                            assert(entries@.map_values(|e: GoToEntry| e@) =~= before.map_values(
                                |e: GoToEntry| e@,
                            ).push(entries@[before.len() as int]@));
                        },
                        Err(_) => {},
                    }
                    i = i + 1;
                }
                assert(vals.take(i as int) =~= vals);
            },
        }
        GoToConfig { entries }
    }

    /// The configured destinations, from the `[go_to]` section, with paths
    /// expanded using the user's home directory.
    pub fn from_override(overrides: GoToConfigOverride) -> (r: Self)
        ensures
            exists|h: Option<Seq<char>>| r@ == entries_spec(values_view(overrides.entries), h),
    {
        let home = home_dir();
        GoToConfig::from_override_with_home(overrides, home)
    }
}

impl GoToConfig {
    /// The configured destinations, as `from_override_with_home` gives them,
    /// with the warnings for the elements that were skipped.
    pub fn from_override_reporting_with_home(overrides: GoToConfigOverride, home: Option<String>) -> (r: (
        Self,
        Vec<String>,
    ))
        ensures
            r.0@ == entries_spec(values_view(overrides.entries), opt_view(home)),
            string_seq_view(r.1@) == warnings_spec(values_view(overrides.entries), opt_view(home)),
    {
        let mut entries: Vec<GoToEntry> = Vec::new();
        let mut warnings: Vec<String> = Vec::new();
        match overrides.entries {
            None => {
                assert(entries@.map_values(|e: GoToEntry| e@) =~= Seq::<EntryView>::empty());
                assert(string_seq_view(warnings@) =~= Seq::<Seq<char>>::empty());
            },
            Some(values) => {
                let ghost vals = values@.map_values(|x: GoToEntryValue| x@);
                let mut i: usize = 0;
                assert(vals.take(0) =~= Seq::<ValueView>::empty());
                assert(entries@.map_values(|e: GoToEntry| e@) =~= Seq::<EntryView>::empty());
                assert(string_seq_view(warnings@) =~= Seq::<Seq<char>>::empty());
                while i < values.len()
                    invariant
                        i <= values@.len(),
                        vals == values@.map_values(|x: GoToEntryValue| x@),
                        entries@.map_values(|e: GoToEntry| e@) == entries_spec(
                            vals.take(i as int),
                            opt_view(home),
                        ),
                        string_seq_view(warnings@) == warnings_spec(
                            vals.take(i as int),
                            opt_view(home),
                        ),
                    decreases values@.len() - i,
                {
                    let h = match &home {
                        Some(s) => Some(s.clone()),
                        None => None,
                    };
                    let r = GoToEntry::from_toml_value_with_home(&values[i], h);
                    let ghost before = entries@;
                    let ghost before_w = warnings@;
                    assert(vals.take(i + 1).drop_last() =~= vals.take(i as int));
                    assert(vals.take(i + 1).last() == values@[i as int]@);
                    assert(vals.take(i + 1).len() - 1 == i);
                    match r {
                        Ok(e) => {
                            entries.push(e);
                            assert(entries@.map_values(|e: GoToEntry| e@) =~= before.map_values(
                                |e: GoToEntry| e@,
                            ).push(entries@[before.len() as int]@));
                        },
                        Err(err) => {
                            let field = entry_field_name_text(i);
                            let w = entry_warning_text(err, field.as_str());
                            warnings.push(w);
                            assert(string_seq_view(warnings@) =~= string_seq_view(before_w).push(
                                w@,
                            ));
                        },
                    }
                    i = i + 1;
                }
                assert(vals.take(i as int) =~= vals);
            },
        }
        (GoToConfig { entries }, warnings)
    }

    /// The configured destinations and the warnings for the skipped elements,
    /// with paths expanded using the user's home directory (looked up once).
    pub fn from_override_reporting(overrides: GoToConfigOverride) -> (r: (Self, Vec<String>))
        ensures
            exists|h: Option<Seq<char>>|
                r.0@ == entries_spec(values_view(overrides.entries), h) && string_seq_view(r.1@)
                    == warnings_spec(values_view(overrides.entries), h),
    {
        let home = home_dir();
        GoToConfig::from_override_reporting_with_home(overrides, home)
    }
}

// ---------------------------------------------------------------------------
// Laws of the configuration
// ---------------------------------------------------------------------------

/// `s` is not blank and has no whitespace around it.
pub open spec fn tidy(s: Seq<char>) -> bool {
    s.len() > 0 && !is_space(s[0]) && !is_space(s.last())
}

/// An entry with a title and a path starting with `~/` is kept, with its
/// title, and its path the rest of the path under the home directory, when
/// the home directory is known; without a home directory it is skipped as
/// one whose `~` cannot be expanded.
pub proof fn law_tilde_entry_under_home(title: Seq<char>, rest: Seq<char>, home: Seq<char>)
    requires
        tidy(title),
        rest.len() > 0,
        rest[0] != '/',
        !is_space(rest.last()),
        home.len() > 0,
        home.last() != '/',
    ensures
        entry_spec(
            ValueView::Table { title: Some(title), path: Some(seq!['~', '/'] + rest) },
            Some(home),
        ) == Ok::<EntryView, GoToEntryError>(
            EntryView { title, path: home + seq!['/'] + rest },
        ),
        entry_spec(ValueView::Table { title: Some(title), path: Some(seq!['~', '/'] + rest) }, None)
            == Err::<EntryView, GoToEntryError>(GoToEntryError::Path(PlacePathError::HomeUnavailable)),
{
    let p = seq!['~', '/'] + rest;
    law_trim_keeps_trimmed_text(title);
    law_trim_keeps_trimmed_text(p);
    assert(p.skip(2) =~= rest);
}

/// An entry whose path does not start with `~` keeps its path as written,
/// whatever the home directory.
pub proof fn law_plain_entry_keeps_its_path(title: Seq<char>, path: Seq<char>, home: Option<Seq<char>>)
    requires
        tidy(title),
        tidy(path),
        path[0] != '~',
    ensures
        entry_spec(ValueView::Table { title: Some(title), path: Some(path) }, home) == Ok::<
            EntryView,
            GoToEntryError,
        >(EntryView { title, path }),
{
    law_trim_keeps_trimmed_text(title);
    law_trim_keeps_trimmed_text(path);
}

/// Every element of the list is either kept as an entry or skipped with one
/// warning: the entries and the warnings together number the elements.
pub proof fn law_each_element_kept_or_warned(vals: Seq<ValueView>, home: Option<Seq<char>>)
    ensures
        entries_spec(vals, home).len() + warnings_spec(vals, home).len() == vals.len(),
    decreases vals.len(),
{
    if vals.len() > 0 {
        law_each_element_kept_or_warned(vals.drop_last(), home);
    }
}

/// A skipped element's warning is the last one and names the element's
/// place in the list.
pub proof fn law_warning_names_the_element(vals: Seq<ValueView>, v: ValueView, home: Option<Seq<char>>)
    requires
        entry_spec(v, home) is Err,
    ensures
        warnings_spec(vals.push(v), home) == warnings_spec(vals, home).push(
            entry_warning(entry_spec(v, home)->Err_0, entry_field_name(vals.len())),
        ),
        entries_spec(vals.push(v), home) == entries_spec(vals, home),
{
    assert(vals.push(v).drop_last() =~= vals);
}

} // verus!
