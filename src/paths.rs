//! Where the application keeps its files: a per-user data directory.

use vstd::prelude::*;

verus! {

/// Directory of the application inside the data directory.
pub const APP_DIR: &'static str = "com.example.chat";

/// File name of the database.
pub const DB_FILE: &'static str = "chat.db";

/// Directory of stored images inside the application's directory.
pub const IMAGES_DIR: &'static str = "images";

/// Relies on `dirs::data_local_dir`: the platform's per-user local data
/// directory, where there is one.
#[verifier::external_body]
fn local_data_dir() -> (r: Option<String>) {
    dirs::data_local_dir().map(|p| p.to_string_lossy().into_owned())
}

/// Relies on `dirs::home_dir`: the user's home directory, where there is one.
#[verifier::external_body]
fn home_dir() -> (r: Option<String>) {
    dirs::home_dir().map(|p| p.to_string_lossy().into_owned())
}

/// The data directory: the local data directory, else the home directory.
pub fn choose_root(local: Option<String>, home: Option<String>) -> (r: Option<String>)
    ensures
        local is Some ==> r == local,
        local is None ==> r == home,
{
    match local {
        Some(d) => Some(d),
        None => home,
    }
}

/// The data directory of this user, if the platform names one.
pub fn data_root() -> Option<String> {
    choose_root(local_data_dir(), home_dir())
}

/// Components of the database path under a data directory: that
/// directory (the current directory where there is none), the
/// application's directory, the file.
pub fn db_path_from(root: Option<String>) -> (r: Vec<String>)
    ensures
        r@.len() == 3,
        r@[0]@ == (match root {
            Some(d) => d@,
            None => "."@,
        }),
        r@[1]@ == APP_DIR@,
        r@[2]@ == DB_FILE@,
{
    let base = match root {
        Some(d) => d,
        None => String::from_str("."),
    };
    vec![base, String::from_str(APP_DIR), String::from_str(DB_FILE)]
}

/// Components of the images directory under a data directory; `None`
/// where there is none.
pub fn images_dir_from(root: Option<String>) -> (r: Option<Vec<String>>)
    ensures
        r is Some <==> root is Some,
        r matches Some(v) ==> v@.len() == 3 && v@[0] == root.unwrap() && v@[1]@ == APP_DIR@
            && v@[2]@ == IMAGES_DIR@,
{
    match root {
        Some(d) => Some(vec![d, String::from_str(APP_DIR), String::from_str(IMAGES_DIR)]),
        None => None,
    }
}

/// Components of this user's database path.
pub fn get_db_path() -> (r: Vec<String>)
    ensures
        r@.len() == 3,
        r@[1]@ == APP_DIR@,
        r@[2]@ == DB_FILE@,
{
    db_path_from(data_root())
}

/// Components of this user's images directory; `None` where the platform
/// names no data directory.
pub fn get_images_dir() -> (r: Option<Vec<String>>)
    ensures
        r matches Some(v) ==> v@.len() == 3 && v@[1]@ == APP_DIR@ && v@[2]@ == IMAGES_DIR@,
{
    images_dir_from(data_root())
}

} // verus!
