use vstd::prelude::*;

verus! {

/// The host platforms the preview launcher knows a default-open command for.
#[derive(Clone, Copy)]
pub enum Platform {
    Linux,
    Windows,
    MacOs,
    Unknown,
}

/// The command that opens a file in the platform's default viewer: the
/// program to spawn and its full argument list, ending with the file's
/// path. A platform without a known command gets none, and no preview is
/// attempted there.
pub fn viewer_command(platform: Platform, path: &str) -> (c: Option<(String, Vec<String>)>)
    ensures
        (match platform {
            Platform::Linux => c matches Some(cmd) && cmd.0@ == "xdg-open"@ && cmd.1@.len() == 1
                && cmd.1@[0]@ == path@,
            Platform::Windows => c matches Some(cmd) && cmd.0@ == "cmd"@ && cmd.1@.len() == 3
                && cmd.1@[0]@ == "/C"@ && cmd.1@[1]@ == "start"@ && cmd.1@[2]@ == path@,
            Platform::MacOs => c matches Some(cmd) && cmd.0@ == "open"@ && cmd.1@.len() == 1
                && cmd.1@[0]@ == path@,
            Platform::Unknown => c is None,
        }),
{
    match platform {
        Platform::Linux => {
            let mut args: Vec<String> = Vec::new();
            args.push(path.to_owned());
            Some(("xdg-open".to_owned(), args))
        },
        Platform::Windows => {
            let mut args: Vec<String> = Vec::new();
            args.push("/C".to_owned());
            args.push("start".to_owned());
            args.push(path.to_owned());
            Some(("cmd".to_owned(), args))
        },
        Platform::MacOs => {
            let mut args: Vec<String> = Vec::new();
            args.push(path.to_owned());
            Some(("open".to_owned(), args))
        },
        Platform::Unknown => None,
    }
}

} // verus!
