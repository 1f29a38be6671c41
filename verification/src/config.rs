//! Where the settings and the library are kept.

use vstd::prelude::*;

verus! {

/// The path `child` joined onto `base` by `Path::join`, with the path syntax
/// of the platform the library is built for.
pub uninterp spec fn spec_path_join(base: Seq<char>, child: Seq<char>) -> Seq<char>;

/// Calls `Path::join`. The contract only names the result: which separator is
/// put between the parts, and what happens when `child` is absolute, follows
/// the platform's path syntax and is not stated.
#[verifier::external_body]
fn path_join(base: &str, child: &str) -> (r: String)
    ensures
        r@ == spec_path_join(base@, child@),
{
    std::path::Path::new(base).join(child).to_string_lossy().into_owned()
}

/// The folder under which the application keeps its data, given the value of
/// `APPDATA` (on Windows) or `HOME` (elsewhere): `APPDATA` itself, or
/// `$HOME/.config`; the current folder `.` when the variable is unset.
pub fn dirs_path(on_windows: bool, var: Option<String>) -> (p: String)
    ensures
        p@ == match var {
            None => "."@,
            Some(v) => if on_windows { v@ } else { spec_path_join(v@, ".config"@) },
        },
{
    match var {
        None => String::from_str("."),
        Some(v) => if on_windows { v } else { path_join(v.as_str(), ".config") },
    }
}

/// The name of the application's data folder: `WaVoic` on Windows (under
/// `%APPDATA%`), `wavoic` elsewhere (under `~/.config`).
pub open spec fn spec_data_dir_name(on_windows: bool) -> Seq<char> {
    if on_windows { "WaVoic"@ } else { "wavoic"@ }
}

/// The application's data folder inside the folder `dirs`: `%APPDATA%\WaVoic`
/// on Windows, `~/.config/wavoic` elsewhere.
pub fn default_data_dir(on_windows: bool, dirs: &str) -> (p: String)
    ensures
        p@ == spec_path_join(dirs@, spec_data_dir_name(on_windows)),
{
    if on_windows { path_join(dirs, "WaVoic") } else { path_join(dirs, "wavoic") }
}

/// What starting the engine with the selected devices gives: the input and
/// output device names, or the message for the first one not selected.
pub open spec fn spec_selected_devices(input: Option<Seq<char>>, output: Option<Seq<char>>) -> Result<
    (Seq<char>, Seq<char>),
    Seq<char>,
> {
    match (input, output) {
        (None, _) => Err("no input device selected"@),
        (Some(_), None) => Err("no output device selected"@),
        (Some(i), Some(o)) => Ok((i, o)),
    }
}

/// The view of an optional string.
pub open spec fn opt_str(s: Option<String>) -> Option<Seq<char>> {
    match s {
        Some(x) => Some(x@),
        None => None,
    }
}

/// The devices the settings select for the engine: both must be chosen; the
/// input is checked first.
pub fn selected_devices(input: Option<String>, output: Option<String>) -> (r: Result<(String, String), String>)
    ensures
        match r {
            Ok((i, o)) => spec_selected_devices(opt_str(input), opt_str(output)) == Ok::<(Seq<char>, Seq<char>), Seq<char>>((i@, o@)),
            Err(m) => spec_selected_devices(opt_str(input), opt_str(output)) == Err::<(Seq<char>, Seq<char>), Seq<char>>(m@),
        },
{
    match input {
        None => Err(String::from_str("no input device selected")),
        Some(i) => match output {
            None => Err(String::from_str("no output device selected")),
            Some(o) => Ok((i, o)),
        },
    }
}

} // verus!
