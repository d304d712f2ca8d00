//! Pin validation by name, and the names and places of saved profiles.
//!
//! Profiles are files in one directory, named after the application and the
//! profile. The file system is read and written outside; what is decided here is
//! which names are taken, which file a profile has, and that this file lies in
//! the directory.

use crate::table::StringMap;
use crate::text::{
    after_prefix, before_suffix, concat2, concat3, lemma_sorted_views, lowercase, sort_strings,
    sorted_by, str_eq, strip_prefix, strip_suffix, text_key, to_lowercase, trimmed, views,
};
use crate::utils::path_security::{path_starts_with, resolved};
use crate::utils::pin_validator::{
    pin_verdict, safe_pins, Module, PinPurpose, PinValidation, Platform,
};
use crate::utils::profile_paths::{
    profile_component_error, profile_filename, sanitize_profile_component,
};
use vstd::prelude::*;

verus! {

/// A named set of values for an application's defines.
#[derive(Debug, Clone)]
pub struct SavedProfile {
    pub name: String,
    pub app_name: String,
    pub environment: String,
    pub defines: StringMap<String>,
    pub created_at: String,
    pub updated_at: String,
}

/// The purpose that a name in lower case stands for.
pub open spec fn purpose_named(lower: Seq<char>) -> Option<PinPurpose> {
    if lower == "output"@ {
        Some(PinPurpose::Output)
    } else if lower == "input"@ {
        Some(PinPurpose::Input)
    } else if lower == "adc"@ {
        Some(PinPurpose::Adc)
    } else if lower == "i2c"@ {
        Some(PinPurpose::I2c)
    } else if lower == "spi"@ {
        Some(PinPurpose::Spi)
    } else if lower == "i2s"@ {
        Some(PinPurpose::I2s)
    } else if lower == "pwm"@ {
        Some(PinPurpose::Pwm)
    } else {
        None
    }
}

/// The platform that a name in lower case stands for: its short name, or the
/// name the build tool has for it.
pub open spec fn platform_named(lower: Seq<char>) -> Option<Platform> {
    if lower == "esp32"@ || lower == "espressif32"@ {
        Some(Platform::Esp32)
    } else if lower == "esp8266"@ || lower == "espressif8266"@ {
        Some(Platform::Esp8266)
    } else if lower == "avr"@ || lower == "atmelavr"@ {
        Some(Platform::Avr)
    } else {
        None
    }
}

/// The module that a name in lower case stands for.
pub open spec fn module_named(lower: Seq<char>) -> Option<Module> {
    if lower == "wrover"@ {
        Some(Module::Wrover)
    } else if lower == "pico"@ {
        Some(Module::Pico)
    } else if lower == "standard"@ {
        Some(Module::Standard)
    } else {
        None
    }
}

/// The purpose that `lower`, a name in lower case, stands for.
pub fn parse_purpose(lower: &str) -> (r: Option<PinPurpose>)
    ensures
        r == purpose_named(lower@),
{
    if str_eq(lower, "output") {
        Some(PinPurpose::Output)
    } else if str_eq(lower, "input") {
        Some(PinPurpose::Input)
    } else if str_eq(lower, "adc") {
        Some(PinPurpose::Adc)
    } else if str_eq(lower, "i2c") {
        Some(PinPurpose::I2c)
    } else if str_eq(lower, "spi") {
        Some(PinPurpose::Spi)
    } else if str_eq(lower, "i2s") {
        Some(PinPurpose::I2s)
    } else if str_eq(lower, "pwm") {
        Some(PinPurpose::Pwm)
    } else {
        None
    }
}

/// The platform that `lower`, a name in lower case, stands for.
pub fn parse_platform(lower: &str) -> (r: Option<Platform>)
    ensures
        r == platform_named(lower@),
{
    if str_eq(lower, "esp32") || str_eq(lower, "espressif32") {
        Some(Platform::Esp32)
    } else if str_eq(lower, "esp8266") || str_eq(lower, "espressif8266") {
        Some(Platform::Esp8266)
    } else if str_eq(lower, "avr") || str_eq(lower, "atmelavr") {
        Some(Platform::Avr)
    } else {
        None
    }
}

/// The module that `lower`, a name in lower case, stands for.
pub fn parse_module(lower: &str) -> (r: Option<Module>)
    ensures
        r == module_named(lower@),
{
    if str_eq(lower, "wrover") {
        Some(Module::Wrover)
    } else if str_eq(lower, "pico") {
        Some(Module::Pico)
    } else if str_eq(lower, "standard") {
        Some(Module::Standard)
    } else {
        None
    }
}

/// The module that `name` stands for, whatever its case; none for a name that
/// stands for none.
pub open spec fn chosen_module(name: Option<&str>) -> Option<Module> {
    match name {
        Some(m) => module_named(lowercase(m@)),
        None => None,
    }
}

fn choose_module(name: Option<&str>) -> (r: Option<Module>)
    ensures
        r == chosen_module(name),
{
    match name {
        Some(m) => {
            let lower = to_lowercase(m);
            parse_module(lower.as_str())
        },
        None => None,
    }
}

/// Validates a GPIO pin configuration given by names, whatever their case.
pub fn validate_pin(pin: u8, purpose: &str, platform: &str, module: Option<&str>) -> (r: Result<
    PinValidation,
    String,
>)
    ensures
        match purpose_named(lowercase(purpose@)) {
            None => r is Err && r->Err_0@ == "Unknown pin purpose: "@ + purpose@,
            Some(p) => match platform_named(lowercase(platform@)) {
                None => r is Err && r->Err_0@ == "Unknown platform: "@ + platform@,
                Some(target) => r is Ok && r->Ok_0@ == pin_verdict(
                    pin,
                    p,
                    target,
                    chosen_module(module),
                ),
            },
        },
{
    let purpose_lower = to_lowercase(purpose);
    let p = match parse_purpose(purpose_lower.as_str()) {
        Some(p) => p,
        None => {
            return Err(concat2("Unknown pin purpose: ", purpose));
        },
    };
    let platform_lower = to_lowercase(platform);
    let target = match parse_platform(platform_lower.as_str()) {
        Some(target) => target,
        None => {
            return Err(concat2("Unknown platform: ", platform));
        },
    };
    let module = choose_module(module);
    Ok(crate::utils::pin_validator::validate_pin(pin, p, target, module))
}

/// Gets the list of safe GPIO pins for a platform given by name, whatever its case.
pub fn get_safe_pins(platform: &str, module: Option<&str>) -> (r: Result<Vec<u8>, String>)
    ensures
        match platform_named(lowercase(platform@)) {
            None => r is Err && r->Err_0@ == "Unknown platform: "@ + platform@,
            Some(target) => r is Ok && r->Ok_0@ == safe_pins(target, chosen_module(module)),
        },
{
    let platform_lower = to_lowercase(platform);
    let target = match parse_platform(platform_lower.as_str()) {
        Some(target) => target,
        None => {
            return Err(concat2("Unknown platform: ", platform));
        },
    };
    let module = choose_module(module);
    Ok(crate::utils::pin_validator::get_safe_pins(target, module))
}

/// The complaint about the application's name, or else about the profile's.
pub open spec fn profile_names_error(app_name: Seq<char>, profile_name: Seq<char>) -> Option<
    Seq<char>,
> {
    if profile_component_error("app name"@, app_name) is Some {
        profile_component_error("app name"@, app_name)
    } else {
        profile_component_error("profile name"@, profile_name)
    }
}

/// Prepares a profile for saving: its names sanitized, and the name of its file.
pub fn save_profile(profile: SavedProfile) -> (r: Result<(SavedProfile, String), String>)
    ensures
        match r {
            Ok((saved, file_name)) => {
                &&& profile_names_error(profile.app_name@, profile.name@) is None
                &&& saved.app_name@ == trimmed(profile.app_name@)
                &&& saved.name@ == trimmed(profile.name@)
                &&& saved.environment == profile.environment
                &&& saved.defines == profile.defines
                &&& saved.created_at == profile.created_at
                &&& saved.updated_at == profile.updated_at
                &&& file_name@ == profile_filename(profile.app_name@, profile.name@)
            },
            Err(e) => profile_names_error(profile.app_name@, profile.name@) == Some(e@),
        },
{
    let safe_app = match sanitize_profile_component("app name", profile.app_name.as_str()) {
        Ok(s) => s,
        Err(e) => {
            return Err(e);
        },
    };
    let safe_name = match sanitize_profile_component("profile name", profile.name.as_str()) {
        Ok(s) => s,
        Err(e) => {
            return Err(e);
        },
    };
    let mut file_name = concat3(safe_app.as_str(), "_", safe_name.as_str());
    file_name.append(".json");
    let saved = SavedProfile {
        name: safe_name,
        app_name: safe_app,
        environment: profile.environment,
        defines: profile.defines,
        created_at: profile.created_at,
        updated_at: profile.updated_at,
    };
    Ok((saved, file_name))
}

/// Why the profile cannot be loaded, if it cannot. `dir` is the canonical path of
/// the profiles directory, `file` that of the profile's file, each or the error
/// that resolving it gave.
pub open spec fn load_profile_error(
    dir: Result<Seq<Seq<char>>, Seq<char>>,
    app_name: Seq<char>,
    profile_name: Seq<char>,
    file: Result<Seq<Seq<char>>, Seq<char>>,
) -> Option<Seq<char>> {
    match dir {
        Err(e) => Some("Failed to resolve profiles dir: "@ + e),
        Ok(d) => if profile_names_error(app_name, profile_name) is Some {
            profile_names_error(app_name, profile_name)
        } else {
            match file {
                Err(e) => Some("Failed to resolve profile path: "@ + e),
                Ok(f) => if d.is_prefix_of(f) {
                    None
                } else {
                    Some("Profile path escapes profiles directory"@)
                },
            }
        },
    }
}

fn profile_file(app_name: &str, profile_name: &str) -> (r: Result<String, String>)
    ensures
        match r {
            Ok(name) => profile_names_error(app_name@, profile_name@) is None && name@
                == profile_filename(app_name@, profile_name@),
            Err(e) => profile_names_error(app_name@, profile_name@) == Some(e@),
        },
{
    crate::utils::profile_paths::build_profile_filename(app_name, profile_name)
}

/// Decides whether a profile may be loaded, and from which file of the profiles
/// directory. `file` is read only for names that are accepted.
pub fn load_profile(
    dir: &Result<Vec<String>, String>,
    app_name: &str,
    profile_name: &str,
    file: &Result<Vec<String>, String>,
) -> (r: Result<String, String>)
    ensures
        match r {
            Ok(name) => load_profile_error(resolved(*dir), app_name@, profile_name@, resolved(*file))
                is None && name@ == profile_filename(app_name@, profile_name@),
            Err(e) => load_profile_error(resolved(*dir), app_name@, profile_name@, resolved(*file))
                == Some(e@),
        },
{
    let root = match dir {
        Ok(root) => root,
        Err(e) => {
            return Err(concat2("Failed to resolve profiles dir: ", e.as_str()));
        },
    };
    let name = match profile_file(app_name, profile_name) {
        Ok(name) => name,
        Err(e) => {
            return Err(e);
        },
    };
    let canonical = match file {
        Ok(path) => path,
        Err(e) => {
            return Err(concat2("Failed to resolve profile path: ", e.as_str()));
        },
    };
    if !path_starts_with(canonical, root) {
        return Err(String::from_str("Profile path escapes profiles directory"));
    }
    Ok(name)
}

/// What was found of a file that may not exist.
pub open spec fn probed(file: Option<Result<Vec<String>, String>>) -> Option<
    Result<Seq<Seq<char>>, Seq<char>>,
> {
    match file {
        Some(f) => Some(resolved(f)),
        None => None,
    }
}

/// Why the profile cannot be deleted, if it cannot. A profile whose file does
/// not exist is deleted already, which is no error.
pub open spec fn delete_profile_error(
    dir: Result<Seq<Seq<char>>, Seq<char>>,
    app_name: Seq<char>,
    profile_name: Seq<char>,
    file: Option<Result<Seq<Seq<char>>, Seq<char>>>,
) -> Option<Seq<char>> {
    match file {
        Some(f) => load_profile_error(dir, app_name, profile_name, f),
        None => match dir {
            Err(e) => Some("Failed to resolve profiles dir: "@ + e),
            Ok(_) => profile_names_error(app_name, profile_name),
        },
    }
}

/// Decides whether a profile may be deleted, and which file of the profiles
/// directory is to be removed: none where the file does not exist. `file` is
/// the file's canonical path or the error that resolving it gave, where the
/// file exists; it is read only for names that are accepted.
pub fn delete_profile(
    dir: &Result<Vec<String>, String>,
    app_name: &str,
    profile_name: &str,
    file: &Option<Result<Vec<String>, String>>,
) -> (r: Result<Option<String>, String>)
    ensures
        match r {
            Ok(target) => delete_profile_error(
                resolved(*dir),
                app_name@,
                profile_name@,
                probed(*file),
            ) is None && match target {
                Some(name) => file is Some && name@ == profile_filename(app_name@, profile_name@),
                None => file is None,
            },
            Err(e) => delete_profile_error(resolved(*dir), app_name@, profile_name@, probed(*file))
                == Some(e@),
        },
{
    match file {
        Some(found) => match load_profile(dir, app_name, profile_name, found) {
            Ok(name) => Ok(Some(name)),
            Err(e) => Err(e),
        },
        None => {
            match dir {
                Ok(_) => {},
                Err(e) => {
                    return Err(concat2("Failed to resolve profiles dir: ", e.as_str()));
                },
            }
            match profile_file(app_name, profile_name) {
                Ok(_) => Ok(None),
                Err(e) => Err(e),
            }
        },
    }
}

/// The profile that the file `file` holds, if it is a profile of the
/// application whose files begin with `prefix`.
pub open spec fn profile_name_in(file: Seq<char>, prefix: Seq<char>) -> Option<Seq<char>> {
    if ".json"@.is_suffix_of(file) {
        match after_prefix(file, prefix) {
            Some(rest) => before_suffix(rest, ".json"@),
            None => None,
        }
    } else {
        None
    }
}

/// The profiles among `files`, in the order of the files.
pub open spec fn profile_names(files: Seq<Seq<char>>, prefix: Seq<char>) -> Seq<Seq<char>>
    decreases files.len(),
{
    if files.len() == 0 {
        Seq::empty()
    } else {
        let rest = profile_names(files.drop_last(), prefix);
        match profile_name_in(files.last(), prefix) {
            Some(name) => rest.push(name),
            None => rest,
        }
    }
}

/// Lists all saved profiles for an app, in the order of their names. `files` are
/// the names of the files in the profiles directory.
pub fn list_profiles(app_name: &str, files: &Vec<String>) -> (r: Result<Vec<String>, String>)
    ensures
        match r {
            Ok(names) => profile_component_error("app name"@, app_name@) is None && views(names@)
                == sorted_by(
                profile_names(views(files@), trimmed(app_name@) + "_"@),
                text_key(),
            ),
            Err(e) => profile_component_error("app name"@, app_name@) == Some(e@),
        },
{
    let safe_app = match sanitize_profile_component("app name", app_name) {
        Ok(s) => s,
        Err(e) => {
            return Err(e);
        },
    };
    let prefix = concat2(safe_app.as_str(), "_");
    let ghost all = views(files@);
    let mut names: Vec<String> = Vec::new();
    let mut i: usize = 0;
    assert(all.take(0) =~= Seq::<Seq<char>>::empty());
    assert(views(names@) =~= Seq::<Seq<char>>::empty());
    while i < files.len()
        invariant
            i <= files@.len(),
            all == views(files@),
            views(names@) == profile_names(all.take(i as int), prefix@),
        decreases files@.len() - i,
    {
        proof {
            assert(all.take(i as int + 1).drop_last() =~= all.take(i as int));
            assert(all.take(i as int + 1).last() == files@[i as int]@);
        }
        let file = files[i].as_str();
        if crate::text::ends_with(file, ".json") {
            match strip_prefix(file, prefix.as_str()) {
                Some(rest) => match strip_suffix(rest, ".json") {
                    Some(name) => {
                        let ghost before = views(names@);
                        names.push(String::from_str(name));
                        assert(views(names@) =~= before.push(name@));
                    },
                    None => {},
                },
                None => {},
            }
        }
        i += 1;
    }
    assert(all.take(files@.len() as int) =~= all);
    proof {
        lemma_sorted_views(names@);
    }
    Ok(sort_strings(names))
}

} // verus!
