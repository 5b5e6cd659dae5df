//! What the operating system is told and asked.
use crate::path;
use crate::path::FilePath;
use crate::text;
use vstd::prelude::*;

verus! {

/// The registry key of the programs that start at sign-in.
pub const RUN_KEY: &'static str = "HKCU\\Software\\Microsoft\\Windows\\CurrentVersion\\Run";

/// The name of this program's value below the key.
pub const VALUE_NAME: &'static str = "Kosmos Downloader";

/// The downloads folder of a user profile.
pub fn profile_downloads(profile: &str) -> (r: FilePath)
    ensures
        r@ == path::joined(profile@, "Downloads"@),
{
    FilePath::new(profile).join("Downloads")
}

/// Where downloads are saved unless the user says otherwise: the profile's downloads folder if
/// it exists, or the current directory.
pub fn default_download_directory(existing: Option<FilePath>, current_dir: Option<FilePath>) -> (r:
    FilePath)
    ensures
        r@ == (match existing {
            Some(dir) => dir@,
            None => match current_dir {
                Some(dir) => dir@,
                None => "."@,
            },
        }),
{
    match existing {
        Some(dir) => dir,
        None => match current_dir {
            Some(dir) => dir,
            None => FilePath::new("."),
        },
    }
}

/// The command that starts an executable at sign-in. A command line is split at spaces unless
/// the path is quoted.
pub fn startup_value(executable: &FilePath) -> (r: String)
    ensures
        r@ == "\""@ + executable@ + "\""@,
{
    text::join3("\"", executable.as_str(), "\"")
}

/// The arguments that ask whether a value exists.
pub fn query_arguments(key: &str, value_name: &str) -> (r: Vec<String>)
    ensures
        text::string_views(r@) == seq!["query"@, key@, "/v"@, value_name@],
{
    let mut r: Vec<String> = Vec::new();
    r.push("query".to_string());
    r.push(key.to_owned());
    r.push("/v".to_string());
    r.push(value_name.to_owned());
    assert(text::string_views(r@) =~= seq!["query"@, key@, "/v"@, value_name@]);
    r
}

/// The arguments that set or remove a value, or nothing where it is gone already.
pub fn change_arguments(key: &str, value_name: &str, value: Option<&str>, exists: bool) -> (r:
    Option<Vec<String>>)
    ensures
        r is None <==> value is None && !exists,
        r matches Some(arguments) ==> text::string_views(arguments@) == (match value {
            Some(value) => seq![
                "add"@,
                key@,
                "/v"@,
                value_name@,
                "/t"@,
                "REG_SZ"@,
                "/d"@,
                value@,
                "/f"@,
            ],
            None => seq!["delete"@, key@, "/v"@, value_name@, "/f"@],
        }),
{
    let mut r: Vec<String> = Vec::new();
    match value {
        Some(value) => {
            r.push("add".to_string());
            r.push(key.to_owned());
            r.push("/v".to_string());
            r.push(value_name.to_owned());
            r.push("/t".to_string());
            r.push("REG_SZ".to_string());
            r.push("/d".to_string());
            r.push(value.to_owned());
            r.push("/f".to_string());
            assert(text::string_views(r@) =~= seq![
                "add"@,
                key@,
                "/v"@,
                value_name@,
                "/t"@,
                "REG_SZ"@,
                "/d"@,
                value@,
                "/f"@,
            ]);
            Some(r)
        },
        None => {
            if !exists {
                return None;
            }
            r.push("delete".to_string());
            r.push(key.to_owned());
            r.push("/v".to_string());
            r.push(value_name.to_owned());
            r.push("/f".to_string());
            assert(text::string_views(r@) =~= seq![
                "delete"@,
                key@,
                "/v"@,
                value_name@,
                "/f"@,
            ]);
            Some(r)
        },
    }
}

/// Where the registry tool lies below the system root, if that is known.
pub fn reg_executable(system_root: Option<&str>) -> (r: Option<FilePath>)
    ensures
        r is Some <==> system_root is Some && system_root->0@.len() > 0,
        r matches Some(tool) ==> tool@ == path::joined(
            path::joined(system_root->0@, "System32"@),
            "reg.exe"@,
        ),
{
    match system_root {
        Some(root) => if root.is_empty() {
            None
        } else {
            Some(FilePath::new(root).join("System32").join("reg.exe"))
        },
        None => None,
    }
}

/// Law: a start-up command is the path of the program in quotation marks, so that spaces do not part
/// it; starting at sign-in is set by adding the value, unset by deleting it, and left alone where it
/// is not set anyway.
pub proof fn law_startup_commands_hold_together(
    executable: FilePath,
    command: String,
    key: &str,
    name: &str,
    value: Option<&str>,
    exists: bool,
    r: Option<Vec<String>>,
)
    requires
        call_ensures(startup_value, (&executable,), command),
        call_ensures(change_arguments, (key, name, value, exists), r),
    ensures
        command@.len() == executable@.len() + 2 && command@[0] == '"' && command@.last() == '"',
        command@.subrange(1, command@.len() - 1) == executable@,
        r is None <==> value is None && !exists,
        r matches Some(arguments) ==> arguments@.len() > 1 && arguments@[1]@ == key@ && (value is Some
            ==> arguments@[0]@ == "add"@ && arguments@.len() == 9 && arguments@[7]@ == value->0@)
            && (value is None ==> arguments@[0]@ == "delete"@),
{
    reveal_strlit("\"");
    assert(command@.subrange(1, command@.len() - 1) =~= executable@);
    if r is Some {
        let views = text::string_views(r->0@);
        assert(views.len() == r->0@.len());
        assert(views[0] == r->0@[0]@);
        assert(views[1] == r->0@[1]@);
        if value is Some {
            assert(views[7] == r->0@[7]@);
        }
    }
}

} // verus!
