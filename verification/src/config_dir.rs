//! The Modulix configuration directory, from `MX_DAEMON_CONFIG_DIR`.

use vstd::prelude::*;

use crate::text::{concat2, ends_with, owned};

verus! {

/// `from_env` when set and non-empty, else `default_dir`; with exactly one
/// `/` appended when it does not already end with one.
pub open spec fn spec_resolve(from_env: Option<Seq<char>>, default_dir: Seq<char>) -> Seq<char> {
    let raw = match from_env {
        Some(s) => if s.len() > 0 {
            s
        } else {
            default_dir
        },
        None => default_dir,
    };
    if raw.len() > 0 && raw.last() == '/' {
        raw
    } else {
        raw + "/"@
    }
}

/// Resolves the configuration directory from the value of
/// `MX_DAEMON_CONFIG_DIR` (`None` when unset or not UTF-8), falling back to
/// the compiled-in `default_dir`. Only computes a string: nothing is checked
/// or created on disk.
pub fn resolve(from_env: Option<&str>, default_dir: &str) -> (r: String)
    ensures
        r@ == spec_resolve(
            match from_env {
                Some(s) => Some(s@),
                None => None,
            },
            default_dir@,
        ),
{
    let raw = match from_env {
        Some(s) if s.unicode_len() > 0 => s,
        _ => default_dir,
    };
    proof {
        reveal_strlit("/");
        assert("/"@ =~= seq!['/']);
    }
    if ends_with(raw, "/") {
        proof {
            assert(raw@.skip(raw@.len() - 1)[0] == raw@.last());
        }
        owned(raw)
    } else {
        proof {
            if raw@.len() > 0 && raw@.last() == '/' {
                assert(raw@.skip(raw@.len() - 1) =~= "/"@);
            }
        }
        concat2(raw, "/")
    }
}

/// A resolved directory is never empty and always ends with `/`.
pub proof fn law_resolve_ends_with_slash(from_env: Option<Seq<char>>, default_dir: Seq<char>)
    ensures
        spec_resolve(from_env, default_dir).len() > 0,
        spec_resolve(from_env, default_dir).last() == '/',
{
    reveal_strlit("/");
}

/// Resolving an already resolved directory gives it back unchanged.
pub proof fn law_resolve_is_idempotent(from_env: Option<Seq<char>>, default_dir: Seq<char>, other_default: Seq<char>)
    ensures
        spec_resolve(Some(spec_resolve(from_env, default_dir)), other_default) == spec_resolve(from_env, default_dir),
{
    law_resolve_ends_with_slash(from_env, default_dir);
}

} // verus!
