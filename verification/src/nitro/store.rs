//! The names the thread store derives: its database address, the folders of
//! thread workspaces and the files of run logs. The SQL itself runs in the
//! application.

use vstd::prelude::*;
use crate::nitro::types::{slug, slug_of};
use crate::text::push_str;

verus! {

/// The SQLite address of the store's database file (created when missing).
pub fn database_url(db_path: &str) -> (r: String)
    ensures
        r@ == "sqlite:"@ + db_path@ + "?mode=rwc"@,
{
    let mut r = "sqlite:".to_string();
    push_str(&mut r, db_path);
    push_str(&mut r, "?mode=rwc");
    r
}

/// The folder a thread's first workspace gets under the workspace root:
/// the thread key's slug.
pub fn default_workspace_name(thread_key: &str) -> (r: String)
    ensures
        r@ == slug_of(thread_key@),
{
    slug(thread_key)
}

/// The folder a thread's workspace gets when it is cleared: the slug and
/// the time of clearing (`%Y%m%dT%H%M%SZ`).
pub fn fresh_workspace_name(thread_key: &str, stamp: &str) -> (r: String)
    ensures
        r@ == slug_of(thread_key@) + "-"@ + stamp@,
{
    let mut r = slug(thread_key);
    push_str(&mut r, "-");
    push_str(&mut r, stamp);
    r
}

/// The file a run's log goes to, named by the time it started.
pub fn run_log_name(stamp: &str) -> (r: String)
    ensures
        r@ == "run-"@ + stamp@ + ".log"@,
{
    let mut r = "run-".to_string();
    push_str(&mut r, stamp);
    push_str(&mut r, ".log");
    r
}

} // verus!
