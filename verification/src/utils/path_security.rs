//! Keeping application and file paths inside the directory they belong to.
//!
//! Paths are resolved by the file system, outside. What comes in here is the
//! result: a canonical path as the sequence of its components, or the fact
//! that it could not be resolved. The decisions are made on that.

use crate::text::{
    concat2, concat3, contains_char, contains_seq, is_blank, str_contains, str_eq, str_is_blank,
    to_chars, views,
};
use vstd::prelude::*;

verus! {

/// What a look at `apps/<name>` under the monorepo gave: its canonical path, if
/// it resolved, and whether a `platformio.ini` stands in it.
#[derive(Debug)]
pub struct AppProbe {
    pub canonical: Option<Vec<String>>,
    pub has_platformio_ini: bool,
}

/// A name that could lead out of the `apps` directory, or names nothing.
pub open spec fn app_name_error(name: Seq<char>) -> Option<Seq<char>> {
    if contains_seq(name, ".."@) || name.contains('/') || name.contains('\\') || name.contains(
        '\0',
    ) {
        Some("Invalid app name: contains path traversal characters"@)
    } else if is_blank(name) {
        Some("Invalid app name: empty or whitespace-only"@)
    } else {
        None
    }
}

/// Checks an application's name before anything is looked up under it.
pub fn validate_app_name(app_name: &str) -> (r: Result<(), String>)
    ensures
        match r {
            Ok(_) => app_name_error(app_name@) is None,
            Err(e) => app_name_error(app_name@) == Some(e@),
        },
{
    let chars = to_chars(app_name);
    if str_contains(app_name, "..") || contains_char(&chars, '/') || contains_char(&chars, '\\')
        || contains_char(&chars, '\0') {
        return Err(String::from_str("Invalid app name: contains path traversal characters"));
    }
    if str_is_blank(app_name) {
        return Err(String::from_str("Invalid app name: empty or whitespace-only"));
    }
    Ok(())
}

/// The components of a path that may not have resolved.
pub open spec fn components(path: Option<Vec<String>>) -> Option<Seq<Seq<char>>> {
    match path {
        Some(p) => Some(views(p@)),
        None => None,
    }
}

/// Why `name` is no application of the monorepo, if it is none.
pub open spec fn app_path_error(
    monorepo: Option<Seq<Seq<char>>>,
    name: Seq<char>,
    canonical: Option<Seq<Seq<char>>>,
    has_platformio_ini: bool,
) -> Option<Seq<char>> {
    if monorepo is None {
        Some("Invalid monorepo path"@)
    } else if app_name_error(name) is Some {
        app_name_error(name)
    } else if canonical is None {
        Some("App '"@ + name + "' not found"@)
    } else if !monorepo->0.is_prefix_of(canonical->0) {
        Some("Path escapes monorepo boundary"@)
    } else if !has_platformio_ini {
        Some("'"@ + name + "' is not a PlatformIO project"@)
    } else {
        None
    }
}

/// `path` begins with all the components of `base`.
pub fn path_starts_with(path: &Vec<String>, base: &Vec<String>) -> (b: bool)
    ensures
        b == views(base@).is_prefix_of(views(path@)),
{
    if base.len() > path.len() {
        return false;
    }
    let mut i: usize = 0;
    while i < base.len()
        invariant
            i <= base@.len() <= path@.len(),
            forall|k: int| 0 <= k < i ==> base@[k]@ == path@[k]@,
        decreases base@.len() - i,
    {
        if !str_eq(base[i].as_str(), path[i].as_str()) {
            proof {
                if views(base@).is_prefix_of(views(path@)) {
                    assert(views(path@).subrange(0, base@.len() as int)[i as int] == views(
                        base@,
                    )[i as int]);
                }
            }
            return false;
        }
        i += 1;
    }
    assert(views(base@) =~= views(path@).subrange(0, base@.len() as int));
    true
}

/// Validates that an app path is within the monorepo boundary.
///
/// `monorepo` is the canonical path of the monorepo, if it resolved. `probe` is
/// read only for a name that `validate_app_name` accepts. On success, the
/// application's canonical path.
pub fn validate_app_path(monorepo: &Option<Vec<String>>, app_name: &str, probe: &AppProbe) -> (r:
    Result<Vec<String>, String>)
    ensures
        match r {
            Ok(path) => app_path_error(
                components(*monorepo),
                app_name@,
                components(probe.canonical),
                probe.has_platformio_ini,
            ) is None && Some(views(path@)) == components(probe.canonical),
            Err(e) => app_path_error(
                components(*monorepo),
                app_name@,
                components(probe.canonical),
                probe.has_platformio_ini,
            ) == Some(e@),
        },
{
    let root = match monorepo {
        Some(root) => root,
        None => {
            return Err(String::from_str("Invalid monorepo path"));
        },
    };
    match validate_app_name(app_name) {
        Err(e) => {
            return Err(e);
        },
        Ok(_) => {},
    }
    let canonical = match &probe.canonical {
        Some(path) => path,
        None => {
            return Err(concat3("App '", app_name, "' not found"));
        },
    };
    if !path_starts_with(canonical, root) {
        return Err(String::from_str("Path escapes monorepo boundary"));
    }
    if !probe.has_platformio_ini {
        return Err(concat3("'", app_name, "' is not a PlatformIO project"));
    }
    let path = canonical.clone();
    assert(views(path@) =~= views(canonical@));
    Ok(path)
}

/// A resolved path as its components, or the error's text.
pub open spec fn resolved(path: Result<Vec<String>, String>) -> Result<Seq<Seq<char>>, Seq<char>> {
    match path {
        Ok(p) => Ok(views(p@)),
        Err(e) => Err(e@),
    }
}

/// Why `file` is no file under `base`, if it is none.
pub open spec fn file_path_error(
    base: Result<Seq<Seq<char>>, Seq<char>>,
    file: Result<Seq<Seq<char>>, Seq<char>>,
) -> Option<Seq<char>> {
    match base {
        Err(e) => Some("Invalid base path: "@ + e),
        Ok(b) => match file {
            Err(e) => Some("Invalid file path: "@ + e),
            Ok(f) => if b.is_prefix_of(f) {
                None
            } else {
                Some("File path escapes allowed directory"@)
            },
        },
    }
}

/// Validates that a file path is within an allowed directory.
///
/// Either argument is a canonical path, or the text of the error that resolving
/// it gave. On success, the file's canonical path.
pub fn validate_file_path(base: &Result<Vec<String>, String>, file: &Result<Vec<String>, String>) -> (r:
    Result<Vec<String>, String>)
    ensures
        match r {
            Ok(path) => file_path_error(resolved(*base), resolved(*file)) is None && Ok::<
                Seq<Seq<char>>,
                Seq<char>,
            >(views(path@)) == resolved(*file),
            Err(e) => file_path_error(resolved(*base), resolved(*file)) == Some(e@),
        },
{
    let root = match base {
        Ok(root) => root,
        Err(e) => {
            return Err(concat2("Invalid base path: ", e.as_str()));
        },
    };
    let canonical = match file {
        Ok(path) => path,
        Err(e) => {
            return Err(concat2("Invalid file path: ", e.as_str()));
        },
    };
    if !path_starts_with(canonical, root) {
        return Err(String::from_str("File path escapes allowed directory"));
    }
    let path = canonical.clone();
    assert(views(path@) =~= views(canonical@));
    Ok(path)
}

/// A name with a path separator, a NUL or two dots in a row is refused before
/// any path is looked at, whatever the file system would have said.
pub proof fn lemma_traversal_refused(
    monorepo: Seq<Seq<char>>,
    name: Seq<char>,
    canonical: Option<Seq<Seq<char>>>,
    has_platformio_ini: bool,
)
    requires
        contains_seq(name, ".."@) || name.contains('/') || name.contains('\\') || name.contains(
            '\0',
        ),
    ensures
        app_path_error(Some(monorepo), name, canonical, has_platformio_ini) == Some(
            "Invalid app name: contains path traversal characters"@,
        ),
{
}

/// A path that is accepted lies under the monorepo.
pub proof fn lemma_accepted_app_is_inside(
    monorepo: Option<Seq<Seq<char>>>,
    name: Seq<char>,
    canonical: Option<Seq<Seq<char>>>,
    has_platformio_ini: bool,
)
    requires
        app_path_error(monorepo, name, canonical, has_platformio_ini) is None,
    ensures
        monorepo is Some,
        canonical is Some,
        monorepo->0.is_prefix_of(canonical->0),
        has_platformio_ini,
{
}

} // verus!
