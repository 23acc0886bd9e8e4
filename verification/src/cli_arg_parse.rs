//! Reading the command line: which mode to run in and which file to read.
use vstd::prelude::*;
use crate::error::error_context::str_pairs_view;
use crate::error::error_message::{json_error_message, json_parses};
use crate::text::{owned, str_eq};
use crate::utils::{get_error_message, message_from};

verus! {

pub struct Config {
    pub option: RunMode,
    pub file_path: String,
}

#[derive(Debug, Clone, Copy, PartialEq, Eq, Structural)]
pub enum RunMode {
    Execute,
    Analysis,
}

/// The text of an error message as the command line reports it: the
/// message for `code` where the table has one, the complaint about the
/// missing template otherwise, and the parse error where the table is no
/// JSON document.
pub open spec fn reported(json: Seq<char>, code: Seq<char>, params: Seq<(Seq<char>, Seq<char>)>) -> Seq<char> {
    if !json_parses(json) {
        "JSONパースエラー: "@ + json_error_message(json)
    } else {
        match message_from(json, code, params) {
            Ok(m) => m,
            Err(m) => m,
        }
    }
}

/// The mode an option names.
pub open spec fn spec_mode(s: Seq<char>) -> Option<RunMode> {
    if s == "-exe"@ {
        Some(RunMode::Execute)
    } else if s == "-ana"@ {
        Some(RunMode::Analysis)
    } else {
        None
    }
}

impl RunMode {
    /// The mode an option names; an unknown option is reported with
    /// `CMD001`, from the message table written `messages`.
    pub fn from_str(s: &str, messages: &str) -> (r: Result<RunMode, String>)
        ensures
            r matches Ok(m) ==> spec_mode(s@) == Some(m),
            r is Err ==> spec_mode(s@) is None,
            r matches Err(m) ==> m@ == reported(
                messages@,
                "CMD001"@,
                seq![("option"@, s@)],
            ),
    {
        if str_eq(s, "-exe") {
            Ok(RunMode::Execute)
        } else if str_eq(s, "-ana") {
            Ok(RunMode::Analysis)
        } else {
            let mut params: Vec<(&str, &str)> = Vec::new();
            params.push(("option", s));
            assert(str_pairs_view(params@) =~= seq![("option"@, s@)]);
            match get_error_message(messages, "CMD001", params.as_slice()) {
                Ok(message) => Err(message),
                Err(message) => Err(message),
            }
        }
    }
}

/// The option and the file the arguments name: both after the program's
/// name, the file alone (running it), or nothing (running `main.grn`).
pub open spec fn spec_arguments(args: Seq<Seq<char>>) -> Option<(Seq<char>, Seq<char>)> {
    if args.len() == 3 {
        Some((args[1], args[2]))
    } else if args.len() == 2 {
        Some(("-exe"@, args[1]))
    } else if args.len() == 1 {
        Some(("-exe"@, "main.grn"@))
    } else {
        None
    }
}

impl Config {
    /// Reads the arguments of the command line, the program's name first;
    /// errors are reported from the message table written `messages`
    /// (`CMD002` for a wrong number of arguments).
    pub fn new(args: &[String], messages: &str) -> (r: Result<Config, String>)
        ensures
            r matches Ok(c) ==> spec_arguments(args@.map_values(|a: String| a@)) matches Some(p) && spec_mode(
                p.0,
            ) == Some(c.option) && c.file_path@ == p.1,
            r is Err ==> match spec_arguments(args@.map_values(|a: String| a@)) {
                Some(p) => spec_mode(p.0) is None,
                None => true,
            },
            r matches Err(m) ==> m@ == match spec_arguments(
                args@.map_values(|a: String| a@),
            ) {
                Some(p) => reported(messages@, "CMD001"@, seq![("option"@, p.0)]),
                None => reported(messages@, "CMD002"@, seq![]),
            },
    {
        let ghost texts = args@.map_values(|a: String| a@);
        let (option_str, file_path) = if args.len() == 3 {
            (args[1].clone(), args[2].clone())
        } else if args.len() == 2 {
            (owned("-exe"), args[1].clone())
        } else if args.len() == 1 {
            (owned("-exe"), owned("main.grn"))
        } else {
            let params: Vec<(&str, &str)> = Vec::new();
            assert(str_pairs_view(params@) =~= seq![]);
            return match get_error_message(messages, "CMD002", params.as_slice()) {
                Ok(message) => Err(message),
                Err(message) => Err(message),
            };
        };
        assert(spec_arguments(texts) == Some((option_str@, file_path@)));
        let option = RunMode::from_str(option_str.as_str(), messages)?;
        Ok(Config { option, file_path })
    }
}

} // verus!
