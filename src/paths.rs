//! Where the session is stored.
use vstd::prelude::*;
use crate::text::{chars_of, string_of, push_all, same_chars};

verus! {

/// `name` placed under the directory `dir`, as `Path::join` places a
/// relative name: one separator between them, none after an empty directory.
pub open spec fn path_join(dir: Seq<char>, name: Seq<char>) -> Seq<char> {
    if dir.len() == 0 || dir.last() == '/' {
        dir + name
    } else {
        dir + seq!['/'] + name
    }
}

/// The directory under the home directory that holds the session.
pub open spec fn session_dir(home: Seq<char>) -> Seq<char> {
    path_join(home, ".save-windows-status"@)
}

/// Whether the execution mode is the development mode.
pub open spec fn is_development(mode: Seq<char>) -> bool {
    mode == "development"@
}

fn join_path(dir: &str, name: &str) -> (r: String)
    ensures
        r@ == path_join(dir@, name@),
{
    let mut v = chars_of(dir);
    let n = v.len();
    if n > 0 && v[n - 1] != '/' {
        v.push('/');
    }
    let w = chars_of(name);
    push_all(&mut v, &w);
    string_of(&v)
}

/// The directory that must exist before the session is written: none in
/// development mode (the working directory), else the session directory
/// under `home`.
pub fn get_save_dir(mode: &str, home: &str) -> (r: Option<String>)
    ensures
        match r {
            Some(d) => !is_development(mode@) && d@ == session_dir(home@),
            None => is_development(mode@),
        },
{
    let dev = chars_of("development");
    if same_chars(&chars_of(mode), &dev) {
        None
    } else {
        Some(join_path(home, ".save-windows-status"))
    }
}

/// The session file: `apps_state.json` in the working directory in
/// development mode, else in the session directory under `home`.
pub fn get_save_path(mode: &str, home: &str) -> (r: String)
    ensures
        is_development(mode@) ==> r@ == "apps_state.json"@,
        !is_development(mode@) ==> r@ == path_join(session_dir(home@), "apps_state.json"@),
{
    match get_save_dir(mode, home) {
        Some(d) => join_path(d.as_str(), "apps_state.json"),
        None => "apps_state.json".to_string(),
    }
}

} // verus!
