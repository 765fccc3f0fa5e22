//! The command line's own decisions: the CORS origins list and the server command.
use std::collections::HashMap;
use vstd::prelude::*;

use crate::text::{clone_strings, join, join_spec, split, split_spec, trim, trim_spec, views};

verus! {

/// The origins of a comma-separated list: each item trimmed, empty items dropped.
pub open spec fn origins_spec(arg: Seq<char>) -> Seq<Seq<char>> {
    split_spec(arg, ',').map_values(|p: Seq<char>| trim_spec(p)).filter(|p: Seq<char>| p.len() > 0)
}

/// The CORS origins given on the command line (none when the option is absent).
pub fn parse_cors_origins(arg: Option<&str>) -> (r: Vec<String>)
    ensures
        views(r@) == origins_spec(
            match arg {
                Some(a) => a@,
                None => Seq::<char>::empty(),
            },
        ),
{
    let text = match arg {
        Some(a) => a,
        None => "",
    };
    proof {
        reveal_strlit("");
    }
    let parts = split(text, ',');
    let ghost pv = views(parts@);
    let ghost tv = pv.map_values(|p: Seq<char>| trim_spec(p));
    let mut r: Vec<String> = Vec::new();
    let n = parts.len();
    for i in 0..n
        invariant
            n == parts@.len(),
            pv == views(parts@),
            tv == pv.map_values(|p: Seq<char>| trim_spec(p)),
            views(r@) == tv.take(i as int).filter(|p: Seq<char>| p.len() > 0),
    {
        proof {
            reveal_with_fuel(Seq::filter, 1);
            assert(tv.take(i + 1).drop_last() =~= tv.take(i as int));
            assert(tv.take(i + 1).last() == trim_spec(parts@[i as int]@));
        }
        let ghost prev = views(r@);
        let t = trim(parts[i].as_str());
        if t.as_str().unicode_len() > 0 {
            r.push(t);
            assert(views(r@) =~= prev.push(tv[i as int]));
        }
    }
    assert(tv.take(n as int) =~= tv);
    r
}

/// The server command of the command line: only without a configuration file and with
/// trailing words; the words after a `--` when the arguments have one (none if nothing
/// follows it), else the trailing words unless they join to nothing.
pub open spec fn server_command_spec(
    has_config: bool,
    trailing: Seq<Seq<char>>,
    after_separator: Option<Seq<Seq<char>>>,
) -> Option<Seq<Seq<char>>> {
    if !has_config && trailing.len() > 0 {
        match after_separator {
            Some(a) => if a.len() > 0 {
                Some(a)
            } else {
                None
            },
            None => if join_spec(trailing, " "@).len() > 0 {
                Some(trailing)
            } else {
                None
            },
        }
    } else {
        None
    }
}

/// The server command of the command line.
pub fn choose_server_command(
    has_config: bool,
    trailing: &Vec<String>,
    after_separator: Option<&Vec<String>>,
) -> (r: Option<Vec<String>>)
    ensures
        match (
            r,
            server_command_spec(
                has_config,
                views(trailing@),
                match after_separator {
                    Some(a) => Some(views(a@)),
                    None => None,
                },
            ),
        ) {
            (Some(c), Some(s)) => views(c@) == s,
            (None, None) => true,
            _ => false,
        },
{
    if !has_config && trailing.len() > 0 {
        let command_str = join(trailing.as_slice(), " ");
        match after_separator {
            Some(args) => if args.len() > 0 {
                Some(clone_strings(args))
            } else {
                None
            },
            None => if command_str.as_str().unicode_len() > 0 {
                Some(clone_strings(trailing))
            } else {
                None
            },
        }
    } else {
        None
    }
}

/// The map that a JSON text denotes when it is an object whose values are all strings
/// (later members replacing earlier ones with the same key); nothing for any other text.
pub uninterp spec fn json_string_map(text: Seq<char>) -> Option<Map<Seq<char>, Seq<char>>>;

/// Parses a JSON object of strings: `serde_json::from_str` into a
/// `HashMap<String, String>`. The contract claims only that the map's contents (not the
/// order in which it is walked) depend on the text alone.
#[verifier::external_body]
fn parse_string_map(text: &str) -> (r: Option<HashMap<String, String>>)
    ensures
        match r {
            Some(m) => json_string_map(text@) == Some(m.deep_view()),
            None => json_string_map(text@) is None,
        },
{
    serde_json::from_str::<HashMap<String, String>>(text).ok()
}

/// The headers given on the command line as a JSON object of strings: none when the
/// option is absent or its text is not such an object.
pub fn parse_headers_arg(arg: Option<&str>) -> (r: Option<HashMap<String, String>>)
    ensures
        arg is None ==> r is None,
        arg matches Some(t) ==> match r {
            Some(m) => json_string_map(t@) == Some(m.deep_view()),
            None => json_string_map(t@) is None,
        },
{
    match arg {
        Some(t) => parse_string_map(t),
        None => None,
    }
}

} // verus!
