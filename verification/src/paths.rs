use vstd::prelude::*;
use crate::text::{chars_of, string_from_range, concatenate};

verus! {

// ---------------------------------------------------------------------------
// Calls that read the machine
// ---------------------------------------------------------------------------

/// The current user's home directory.
/// Trusted: `dirs::home_dir`, converted to a `String` (lossily, for a path
/// that is not UTF-8). Its result depends on the environment (`$HOME`) and
/// the password database, so nothing is stated of it.
#[verifier::external_body]
pub fn home_dir() -> (r: Option<String>) {
    match dirs::home_dir() {
        Some(p) => Some(p.to_string_lossy().into_owned()),
        None => None,
    }
}

/// Whether `path` names a regular file (following symbolic links).
/// Trusted: `std::path::Path::is_file`. What it returns depends on the disk,
/// so nothing is stated of it.
#[verifier::external_body]
pub fn path_is_file(path: &str) -> (r: bool) {
    std::path::Path::new(path).is_file()
}

/// Whether anything exists at `path` (following symbolic links).
/// Trusted: `std::path::Path::exists`. What it returns depends on the disk,
/// so nothing is stated of it.
#[verifier::external_body]
pub fn path_exists(path: &str) -> (r: bool) {
    std::path::Path::new(path).exists()
}

/// What `std::path::Path::parent` gives for a path: the path without its
/// final component, or none for a root or an empty path.
pub uninterp spec fn path_parent_of(path: Seq<char>) -> Option<Seq<char>>;

/// The parent of `path`.
/// Trusted: `std::path::Path::parent`; the result is the name
/// `path_parent_of` applied to the path, a subslice of the path converted
/// back to a `String`.
#[verifier::external_body]
pub fn path_parent(path: &str) -> (r: Option<String>)
    ensures
        match r {
            Some(p) => path_parent_of(path@) == Some(p@),
            None => path_parent_of(path@) is None,
        },
{
    match std::path::Path::new(path).parent() {
        Some(p) => Some(p.to_string_lossy().into_owned()),
        None => None,
    }
}

// ---------------------------------------------------------------------------
// Joining and tilde expansion
// ---------------------------------------------------------------------------

/// `base` joined with `rest` as `PathBuf::join` does on Unix: an absolute
/// `rest` replaces `base`; otherwise a `/` is put between the two unless
/// `base` is empty or already ends with one.
pub open spec fn join_spec(base: Seq<char>, rest: Seq<char>) -> Seq<char> {
    if rest.len() > 0 && rest[0] == '/' {
        rest
    } else if base.len() == 0 || base.last() == '/' {
        base + rest
    } else {
        base + seq!['/'] + rest
    }
}

pub fn join_path(base: &str, rest: &str) -> (r: String)
    ensures
        r@ == join_spec(base@, rest@),
{
    let b = chars_of(base);
    let t = chars_of(rest);
    if t.len() > 0 && t[0] == '/' {
        return string_from_range(&t, 0, t.len());
    }
    if b.len() == 0 || b[b.len() - 1] == '/' {
        concatenate(base, rest)
    } else {
        let with_sep = concatenate(base, "/");
        proof {
            reveal_strlit("/");
        }
        concatenate(with_sep.as_str(), rest)
    }
}

/// `s` begins with `~/`.
pub open spec fn has_tilde_slash(s: Seq<char>) -> bool {
    s.len() >= 2 && s[0] == '~' && s[1] == '/'
}

/// `s` is exactly `~`.
pub open spec fn is_bare_tilde(s: Seq<char>) -> bool {
    s.len() == 1 && s[0] == '~'
}

/// Tilde expansion of a typed path, given the home directory: `~/rest` is
/// `rest` joined onto the home directory, `~` is the home directory, and
/// anything else, or any input when the home directory is unknown, is kept
/// as it is.
pub open spec fn expand_tilde_spec(input: Seq<char>, home: Option<Seq<char>>) -> Seq<char> {
    match home {
        Some(h) => if has_tilde_slash(input) {
            join_spec(h, input.skip(2))
        } else if is_bare_tilde(input) {
            h
        } else {
            input
        },
        None => input,
    }
}

pub open spec fn opt_view(o: Option<String>) -> Option<Seq<char>> {
    match o {
        Some(s) => Some(s@),
        None => None,
    }
}

fn tilde_form(cs: &Vec<char>) -> (r: (bool, bool))
    ensures
        r.0 == has_tilde_slash(cs@),
        r.1 == is_bare_tilde(cs@),
{
    let slash = cs.len() >= 2 && cs[0] == '~' && cs[1] == '/';
    let bare = cs.len() == 1 && cs[0] == '~';
    (slash, bare)
}

/// Tilde expansion of `input` with a given home directory.
pub fn expand_tilde_with_home(input: &str, home: Option<String>) -> (r: String)
    ensures
        r@ == expand_tilde_spec(input@, opt_view(home)),
{
    let cs = chars_of(input);
    let (slash, bare) = tilde_form(&cs);
    match home {
        Some(h) => {
            if slash {
                let rest = string_from_range(&cs, 2, cs.len());
                assert(rest@ =~= input@.skip(2));
                join_path(h.as_str(), rest.as_str())
            } else if bare {
                h
            } else {
                string_from_range(&cs, 0, cs.len())
            }
        },
        None => string_from_range(&cs, 0, cs.len()),
    }
}

/// Tilde expansion of `input` with the user's home directory. The home
/// directory is looked up only for `~` and `~/...`; every other input comes
/// back unchanged.
pub fn expand_tilde(input: &str) -> (r: String)
    ensures
        exists|h: Option<Seq<char>>| r@ == expand_tilde_spec(input@, h),
        !has_tilde_slash(input@) && !is_bare_tilde(input@) ==> r@ == input@,
{
    let cs = chars_of(input);
    let (slash, bare) = tilde_form(&cs);
    if slash || bare {
        let home = home_dir();
        expand_tilde_with_home(input, home)
    } else {
        let r = string_from_range(&cs, 0, cs.len());
        assert(r@ == expand_tilde_spec(input@, None));
        r
    }
}

// ---------------------------------------------------------------------------
// Configured place paths
// ---------------------------------------------------------------------------

/// Why a configured path could not be used.
#[derive(Clone, Copy, Debug, PartialEq, Eq)]
pub enum PlacePathError {
    /// The path starts with `~` but the home directory is unknown.
    HomeUnavailable,
}

/// What an expansion error says, in the warning for the entry it spoils.
pub open spec fn place_path_error_text(e: PlacePathError) -> Seq<char> {
    match e {
        PlacePathError::HomeUnavailable => "cannot expand `~`: the home directory is unknown"@,
    }
}

pub fn place_path_error_message(e: PlacePathError) -> (r: String)
    ensures
        r@ == place_path_error_text(e),
{
    match e {
        PlacePathError::HomeUnavailable => String::from_str(
            "cannot expand `~`: the home directory is unknown",
        ),
    }
}

/// Expansion of a configured path, given the home directory: like the tilde
/// expansion of typed paths, except that `~` and `~/...` are refused when the
/// home directory is unknown.
pub open spec fn expand_place_spec(path: Seq<char>, home: Option<Seq<char>>) -> Result<
    Seq<char>,
    PlacePathError,
> {
    if (has_tilde_slash(path) || is_bare_tilde(path)) && home is None {
        Err(PlacePathError::HomeUnavailable)
    } else {
        Ok(expand_tilde_spec(path, home))
    }
}

pub open spec fn result_view(r: Result<String, PlacePathError>) -> Result<Seq<char>, PlacePathError> {
    match r {
        Ok(s) => Ok(s@),
        Err(e) => Err(e),
    }
}

/// Expansion of a configured path with a given home directory.
pub fn expand_place_path_with_home(path: &str, home: Option<String>) -> (r: Result<String, PlacePathError>)
    ensures
        result_view(r) == expand_place_spec(path@, opt_view(home)),
{
    let cs = chars_of(path);
    let (slash, bare) = tilde_form(&cs);
    if (slash || bare) && home.is_none() {
        Err(PlacePathError::HomeUnavailable)
    } else {
        Ok(expand_tilde_with_home(path, home))
    }
}

/// Expansion of a configured path with the user's home directory.
pub fn expand_place_path(path: &str) -> (r: Result<String, PlacePathError>)
    ensures
        exists|h: Option<Seq<char>>| result_view(r) == expand_place_spec(path@, h),
        !has_tilde_slash(path@) && !is_bare_tilde(path@) ==> result_view(r) == Ok::<
            Seq<char>,
            PlacePathError,
        >(path@),
{
    let cs = chars_of(path);
    let (slash, bare) = tilde_form(&cs);
    if slash || bare {
        let home = home_dir();
        expand_place_path_with_home(path, home)
    } else {
        let r = string_from_range(&cs, 0, cs.len());
        assert(r@ =~= path@);
        assert(result_view(Ok(r)) == expand_place_spec(path@, None));
        Ok(r)
    }
}

// ---------------------------------------------------------------------------
// Where a typed path leads
// ---------------------------------------------------------------------------

/// The directory to open for a path: the path's parent when the path is a
/// file (the path itself when it has no parent), the path otherwise.
pub open spec fn cd_target_spec(path: Seq<char>, is_file: bool) -> Seq<char> {
    if is_file {
        match path_parent_of(path) {
            Some(p) => p,
            None => path,
        }
    } else {
        path
    }
}

/// The directory to open for `path`, given whether it is a file.
pub fn cd_target(path: String, is_file: bool) -> (r: String)
    ensures
        r@ == cd_target_spec(path@, is_file),
{
    if is_file {
        match path_parent(path.as_str()) {
            Some(p) => p,
            None => path,
        }
    } else {
        path
    }
}

// ---------------------------------------------------------------------------
// Laws of typed paths
// ---------------------------------------------------------------------------

/// A path that is not a file leads to itself; a file leads to its parent
/// directory (or to itself when it has no parent, as a root).
pub proof fn law_only_a_file_leads_to_its_parent(path: Seq<char>)
    ensures
        cd_target_spec(path, false) == path,
        path_parent_of(path) matches Some(p) ==> cd_target_spec(path, true) == p,
        path_parent_of(path) is None ==> cd_target_spec(path, true) == path,
{
}

/// `~/rest` is `rest` under the home directory, `~` is the home directory,
/// and a path that does not start with `~` is kept as it is, whatever the
/// home directory; without a home directory nothing is expanded.
pub proof fn law_tilde_expansion(rest: Seq<char>, home: Seq<char>, other: Seq<char>, h: Option<Seq<char>>)
    requires
        home.len() > 0,
        home.last() != '/',
        rest.len() > 0 ==> rest[0] != '/',
        other.len() > 0 ==> other[0] != '~',
    ensures
        expand_tilde_spec(seq!['~', '/'] + rest, Some(home)) == home + seq!['/'] + rest,
        expand_tilde_spec(seq!['~'], Some(home)) == home,
        expand_tilde_spec(other, h) == other,
        expand_tilde_spec(seq!['~', '/'] + rest, None) == seq!['~', '/'] + rest,
{
    assert((seq!['~', '/'] + rest).skip(2) =~= rest);
}

} // verus!
