//! Platform-dependent installation directories, as decisions over plain
//! values: the platform, and the canonicalized directory of the running
//! executable (whose lookup is I/O and stays with the caller).

use vstd::prelude::*;
use vstd::string::*;

verus! {

/// The platforms the directory layout differs on.
#[derive(Clone, Copy, Debug, PartialEq, Eq, Structural)]
pub enum Platform {
    Windows,
    MacOs,
    Other,
}

/// The canonicalized directory holding the running executable: its textual
/// path and its path components, in order.
#[derive(Debug)]
pub struct ExecDir {
    pub path: String,
    pub components: Vec<String>,
}

/// Why a directory could not be determined.
#[derive(Clone, Copy, Debug, PartialEq, Eq, Structural)]
pub enum EnvError {
    ExecDirUnavailable,
}

impl EnvError {
    /// A human-readable description.
    pub fn message(&self) -> (r: String)
        ensures
            r@ == "could not get parent dir of executable path"@,
    {
        String::from_str("could not get parent dir of executable path")
    }
}

/// Adjacent `Contents` and `MacOS` components mark a relocatable bundle.
pub open spec fn in_app_bundle(components: Seq<String>) -> bool {
    exists|i: int|
        0 <= i && i + 1 < components.len() && (#[trigger] components[i])@ == "Contents"@
            && components[i + 1]@ == "MacOS"@
}

/// Whether the executable sits inside a relocatable application bundle.
pub fn macos_is_in_app_bundle(components: &Vec<String>) -> (r: bool)
    ensures
        r == in_app_bundle(components@),
{
    let contents: String = String::from_str("Contents");
    let macos: String = String::from_str("MacOS");
    let n: usize = components.len();
    if n < 2 {
        return false;
    }
    let mut i: usize = 0;
    while i < n - 1
        invariant
            i <= n - 1,
            n == components@.len(),
            n >= 2,
            contents@ == "Contents"@,
            macos@ == "MacOS"@,
            forall|j: int|
                0 <= j < i ==> !((#[trigger] components@[j])@ == "Contents"@ && components@[j
                    + 1]@ == "MacOS"@),
        decreases n - i,
    {
        if components[i] == contents && components[i + 1] == macos {
            return true;
        }
        i = i + 1;
    }
    false
}

/// Concatenation of a base path, a separator and a relative path.
fn join_with(base: &String, sep: &str, rel: &str) -> (r: String)
    ensures
        r@ == base@ + sep@ + rel@,
{
    let mut s: String = base.clone();
    s.append(sep);
    s.append(rel);
    s
}

/// The library directory: beside the executable on windows, inside the
/// bundle on a bundled mac, and the system location otherwise.
pub fn lib_dir(platform: &Platform, exec_dir: &Option<ExecDir>) -> (r: Result<String, EnvError>)
    ensures
        match *platform {
            Platform::Windows => match exec_dir {
                Some(d) => r matches Ok(p) && p@ == d.path@ + "\\"@ + "..\\lib"@,
                None => r == Err::<String, EnvError>(EnvError::ExecDirUnavailable),
            },
            Platform::MacOs => match exec_dir {
                Some(d) => r matches Ok(p) && p@ == if in_app_bundle(d.components@) {
                    d.path@ + "/"@ + "../Resources/lib"@
                } else {
                    "/usr/lib"@
                },
                None => r == Err::<String, EnvError>(EnvError::ExecDirUnavailable),
            },
            Platform::Other => r matches Ok(p) && p@ == "/usr/lib"@,
        },
{
    match platform {
        Platform::Windows => match exec_dir {
            Some(d) => Ok(join_with(&d.path, "\\", "..\\lib")),
            None => Err(EnvError::ExecDirUnavailable),
        },
        Platform::MacOs => match exec_dir {
            Some(d) => {
                if macos_is_in_app_bundle(&d.components) {
                    Ok(join_with(&d.path, "/", "../Resources/lib"))
                } else {
                    Ok(String::from_str("/usr/lib"))
                }
            },
            None => Err(EnvError::ExecDirUnavailable),
        },
        Platform::Other => Ok(String::from_str("/usr/lib")),
    }
}

/// The shared-data directory, chosen like `lib_dir`.
pub fn data_dir(platform: &Platform, exec_dir: &Option<ExecDir>) -> (r: Result<String, EnvError>)
    ensures
        match *platform {
            Platform::Windows => match exec_dir {
                Some(d) => r matches Ok(p) && p@ == d.path@ + "\\"@ + "..\\share"@,
                None => r == Err::<String, EnvError>(EnvError::ExecDirUnavailable),
            },
            Platform::MacOs => match exec_dir {
                Some(d) => r matches Ok(p) && p@ == if in_app_bundle(d.components@) {
                    d.path@ + "/"@ + "../Resources/share"@
                } else {
                    "/usr/share"@
                },
                None => r == Err::<String, EnvError>(EnvError::ExecDirUnavailable),
            },
            Platform::Other => r matches Ok(p) && p@ == "/usr/share"@,
        },
{
    match platform {
        Platform::Windows => match exec_dir {
            Some(d) => Ok(join_with(&d.path, "\\", "..\\share")),
            None => Err(EnvError::ExecDirUnavailable),
        },
        Platform::MacOs => match exec_dir {
            Some(d) => {
                if macos_is_in_app_bundle(&d.components) {
                    Ok(join_with(&d.path, "/", "../Resources/share"))
                } else {
                    Ok(String::from_str("/usr/share"))
                }
            },
            None => Err(EnvError::ExecDirUnavailable),
        },
        Platform::Other => Ok(String::from_str("/usr/share")),
    }
}

/// The application's own data directory: the data directory plus the
/// application name.
pub fn pkg_data_dir(platform: &Platform, exec_dir: &Option<ExecDir>) -> (r: Result<
    String,
    EnvError,
>)
    ensures
        match *platform {
            Platform::Windows => match exec_dir {
                Some(d) => r matches Ok(p) && p@ == d.path@ + "\\"@ + "..\\share"@ + "\\"@
                    + "rnote"@,
                None => r == Err::<String, EnvError>(EnvError::ExecDirUnavailable),
            },
            Platform::MacOs => match exec_dir {
                Some(d) => r matches Ok(p) && p@ == (if in_app_bundle(d.components@) {
                    d.path@ + "/"@ + "../Resources/share"@
                } else {
                    "/usr/share"@
                }) + "/"@ + "rnote"@,
                None => r == Err::<String, EnvError>(EnvError::ExecDirUnavailable),
            },
            Platform::Other => r matches Ok(p) && p@ == "/usr/share"@ + "/"@ + "rnote"@,
        },
{
    let base: Result<String, EnvError> = data_dir(platform, exec_dir);
    match base {
        Ok(d) => match platform {
            Platform::Windows => Ok(join_with(&d, "\\", "rnote")),
            _ => Ok(join_with(&d, "/", "rnote")),
        },
        Err(e) => Err(e),
    }
}

/// The locale directory, chosen like `lib_dir`.
pub fn locale_dir(platform: &Platform, exec_dir: &Option<ExecDir>) -> (r: Result<String, EnvError>)
    ensures
        match *platform {
            Platform::Windows => match exec_dir {
                Some(d) => r matches Ok(p) && p@ == d.path@ + "\\"@ + "..\\share\\locale"@,
                None => r == Err::<String, EnvError>(EnvError::ExecDirUnavailable),
            },
            Platform::MacOs => match exec_dir {
                Some(d) => r matches Ok(p) && p@ == if in_app_bundle(d.components@) {
                    d.path@ + "/"@ + "../Resources/share/locale"@
                } else {
                    "/usr/share/locale"@
                },
                None => r == Err::<String, EnvError>(EnvError::ExecDirUnavailable),
            },
            Platform::Other => r matches Ok(p) && p@ == "/usr/share/locale"@,
        },
{
    match platform {
        Platform::Windows => match exec_dir {
            Some(d) => Ok(join_with(&d.path, "\\", "..\\share\\locale")),
            None => Err(EnvError::ExecDirUnavailable),
        },
        Platform::MacOs => match exec_dir {
            Some(d) => {
                if macos_is_in_app_bundle(&d.components) {
                    Ok(join_with(&d.path, "/", "../Resources/share/locale"))
                } else {
                    Ok(String::from_str("/usr/share/locale"))
                }
            },
            None => Err(EnvError::ExecDirUnavailable),
        },
        Platform::Other => Ok(String::from_str("/usr/share/locale")),
    }
}

/// Whether the display-scale workaround applies: the registry value read by
/// the caller is exactly one.
pub fn gdk_scale_workaround(value: Option<u32>) -> (r: bool)
    ensures
        r == (value == Some(1u32)),
{
    match value {
        Some(v) => v == 1,
        None => false,
    }
}

} // verus!
