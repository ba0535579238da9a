//! Command-line decisions of the emoji, build and fork tools.
use vstd::prelude::*;
use crate::text::{chars_eq, chars_of, starts_with_chars, string_of};

verus! {

/// The arguments that the emoji script accepts: a URL, then optionally `-v`. Gives whether
/// output is verbose, or `None` where the usage text is owed.
pub open spec fn emoji_script_verbose(args: Seq<Seq<char>>) -> Option<bool> {
    if args.len() < 2 || args.len() > 3 {
        None
    } else if args.len() == 3 {
        if args[2] == "-v"@ {
            Some(true)
        } else {
            None
        }
    } else {
        Some(false)
    }
}

/// The arguments that the emoji tool accepts: as the emoji script's, except that a lone URL
/// must start with "http".
pub open spec fn emoji_tool_verbose(args: Seq<Seq<char>>) -> Option<bool> {
    if args.len() < 2 || args.len() > 3 {
        None
    } else if args.len() == 3 {
        if args[2] == "-v"@ {
            Some(true)
        } else {
            None
        }
    } else if "http"@.is_prefix_of(args[1]) {
        Some(false)
    } else {
        None
    }
}

/// The character sequences of a list of arguments.
pub open spec fn arg_views(args: Seq<String>) -> Seq<Seq<char>> {
    args.map_values(|a: String| a@)
}

/// Whether the emoji script's output is verbose; `None` where its usage text is owed.
pub fn emoji_script_options(args: &Vec<String>) -> (r: Option<bool>)
    ensures
        r == emoji_script_verbose(arg_views(args@)),
{
    if args.len() < 2 || args.len() > 3 {
        None
    } else if args.len() == 3 {
        let a = chars_of(args[2].as_str());
        if chars_eq(&a, &chars_of("-v")) {
            Some(true)
        } else {
            None
        }
    } else {
        Some(false)
    }
}

/// Whether the emoji tool's output is verbose; `None` where its usage text is owed.
pub fn emoji_tool_options(args: &Vec<String>) -> (r: Option<bool>)
    ensures
        r == emoji_tool_verbose(arg_views(args@)),
{
    if args.len() < 2 || args.len() > 3 {
        None
    } else if args.len() == 3 {
        let a = chars_of(args[2].as_str());
        if chars_eq(&a, &chars_of("-v")) {
            Some(true)
        } else {
            None
        }
    } else if starts_with_chars(&chars_of(args[1].as_str()), &chars_of("http")) {
        Some(false)
    } else {
        None
    }
}

/// The device and build type that the build tool is asked for, the device `emulator`
/// standing for `sdk_phone64_x86_64`; `None` unless there are exactly two arguments.
pub open spec fn build_target(args: Seq<Seq<char>>) -> Option<(Seq<char>, Seq<char>)> {
    if args.len() != 3 {
        None
    } else if args[1] == "emulator"@ {
        Some(("sdk_phone64_x86_64"@, args[2]))
    } else {
        Some((args[1], args[2]))
    }
}

/// The device and build type that the build tool's arguments ask for.
pub fn build_target_options(args: &Vec<String>) -> (r: Option<(String, String)>)
    ensures
        match r {
            None => build_target(arg_views(args@)) is None,
            Some((d, t)) => build_target(arg_views(args@)) == Some((d@, t@)),
        },
{
    if args.len() != 3 {
        return None;
    }
    let build_type = args[2].clone();
    if chars_eq(&chars_of(args[1].as_str()), &chars_of("emulator")) {
        Some((string_of(&chars_of("sdk_phone64_x86_64")), build_type))
    } else {
        Some((args[1].clone(), build_type))
    }
}

} // verus!
