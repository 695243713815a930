//! Scalar option and list-entry changes, each `(name, value, reset)`.

use vstd::prelude::*;

use crate::error::Error;
use crate::text::{concat2, concat3, joined};

verus! {

/// One setting change: `(name, value, reset)`; `value` is ignored when
/// `reset` is set.
pub type Setting = (String, String, bool);

/// The status of a scalar option change.
pub open spec fn option_status(s: Setting) -> Seq<char> {
    if s.2 {
        "option "@ + s.0@ + " reset to default"@
    } else {
        "option "@ + s.0@ + " set to "@ + s.1@
    }
}

/// The status of a list-entry change.
pub open spec fn list_status(s: Setting) -> Seq<char> {
    if s.2 {
        "list "@ + s.0@ + " reset to default"@
    } else {
        "list "@ + s.0@ + " entry set to "@ + s.1@
    }
}

/// Applies one scalar option change: `"option <name> reset to default"` or
/// `"option <name> set to <value>"`.
pub fn apply_option(setting: &Setting) -> (r: Result<String, Error>)
    ensures
        r matches Ok(s) && s@ == option_status(*setting),
{
    let (name, value, reset) = setting;
    if *reset {
        Ok(concat3("option ", name.as_str(), " reset to default"))
    } else {
        let mut s = concat3("option ", name.as_str(), " set to ");
        s.append(value.as_str());
        Ok(s)
    }
}

/// Applies one list-entry change: `"list <name> reset to default"` or
/// `"list <name> entry set to <value>"`.
pub fn apply_list(setting: &Setting) -> (r: Result<String, Error>)
    ensures
        r matches Ok(s) && s@ == list_status(*setting),
{
    let (name, value, reset) = setting;
    if *reset {
        Ok(concat3("list ", name.as_str(), " reset to default"))
    } else {
        let mut s = concat3("list ", name.as_str(), " entry set to ");
        s.append(value.as_str());
        Ok(s)
    }
}

/// The library call for a scalar option change: `reset-option <name>` or
/// `set-option <name> <value>`.
pub fn option_line(setting: &Setting) -> (r: String)
    ensures
        r@ == (if setting.2 {
            "reset-option "@ + setting.0@
        } else {
            "set-option "@ + setting.0@ + " "@ + setting.1@
        }),
{
    let (name, value, reset) = setting;
    if *reset {
        concat2("reset-option ", name.as_str())
    } else {
        let mut s = concat3("set-option ", name.as_str(), " ");
        s.append(value.as_str());
        s
    }
}

/// The library call for a list-entry change: `reset-list <name>` or
/// `set-list <name> <value>`.
pub fn list_line(setting: &Setting) -> (r: String)
    ensures
        r@ == (if setting.2 {
            "reset-list "@ + setting.0@
        } else {
            "set-list "@ + setting.0@ + " "@ + setting.1@
        }),
{
    let (name, value, reset) = setting;
    if *reset {
        concat2("reset-list ", name.as_str())
    } else {
        let mut s = concat3("set-list ", name.as_str(), " ");
        s.append(value.as_str());
        s
    }
}

/// The `SetOptions` reply: one status line per option, then one per list
/// entry, in order, joined with `"\n"`.
pub open spec fn set_options_status(options: Seq<Setting>, lists: Seq<Setting>) -> Seq<char> {
    joined(options.map_values(|s: Setting| option_status(s)) + lists.map_values(|s: Setting| list_status(s)), "\n"@)
}

/// Applies every option change, then every list-entry change, and joins
/// their status lines with `"\n"`.
pub fn set_options(options: &Vec<Setting>, lists: &Vec<Setting>) -> (r: Result<String, Error>)
    ensures
        r matches Ok(s) && s@ == set_options_status(options@, lists@),
{
    let mut results: Vec<String> = Vec::new();
    let mut i: usize = 0;
    while i < options.len()
        invariant
            i <= options@.len(),
            results@.len() == i,
            forall|k: int| 0 <= k < i ==> (#[trigger] results@[k])@ == option_status(options@[k]),
        decreases options.len() - i,
    {
        match apply_option(&options[i]) {
            Ok(s) => {
                results.push(s);
            },
            Err(e) => {
                return Err(e);
            },
        }
        i = i + 1;
    }
    let n = options.len();
    let mut j: usize = 0;
    while j < lists.len()
        invariant
            n == options@.len(),
            j <= lists@.len(),
            results@.len() == n + j,
            forall|k: int| 0 <= k < n ==> (#[trigger] results@[k])@ == option_status(options@[k]),
            forall|k: int| n <= k < n + j ==> (#[trigger] results@[k])@ == list_status(lists@[k - n]),
        decreases lists.len() - j,
    {
        match apply_list(&lists[j]) {
            Ok(s) => {
                results.push(s);
            },
            Err(e) => {
                return Err(e);
            },
        }
        j = j + 1;
    }
    proof {
        assert(crate::text::string_views(results@) =~= options@.map_values(|s: Setting| option_status(s))
            + lists@.map_values(|s: Setting| list_status(s)));
    }
    Ok(crate::text::join_strings(&results, "\n"))
}

} // verus!
