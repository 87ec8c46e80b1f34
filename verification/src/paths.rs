//! Path resolution for the agent's data directories.
//!
//! Paths are text. The home directory comes from the `NANOBOT_RUST_HOME`
//! setting when given (read by the caller), else from the user's home
//! directory. Creating the directories is left to the caller.

use vstd::prelude::*;
use crate::text::chars_to_string;
use crate::text::push_str;
use crate::text::str_chars;

verus! {

/// The user's home directory, from `dirs::home_dir()`, as text (lossy for
/// a path that is not UTF-8). It depends on the environment; nothing is
/// claimed of it.
#[verifier::external_body]
pub(crate) fn home_dir() -> (r: Option<String>) {
    dirs::home_dir().map(|p| p.to_string_lossy().into_owned())
}

/// `PathBuf::join` on Unix: an absolute component replaces the base; else
/// the component is appended, with a `/` between when the base is not
/// empty and does not already end with one.
pub open spec fn path_join(base: Seq<char>, comp: Seq<char>) -> Seq<char> {
    if comp.len() > 0 && comp[0] == '/' {
        comp
    } else if base.len() == 0 {
        comp
    } else if base.last() == '/' {
        base + comp
    } else {
        base + "/"@ + comp
    }
}

/// Computes `path_join`.
pub fn join_path(base: &str, comp: &str) -> (r: String)
    ensures
        r@ == path_join(base@, comp@),
{
    let b = str_chars(base);
    let c = str_chars(comp);
    if c.len() > 0 && c[0] == '/' {
        return String::from_str(comp);
    }
    if b.len() == 0 {
        return String::from_str(comp);
    }
    let mut out = b;
    if out[out.len() - 1] != '/' {
        push_str(&mut out, "/");
    }
    push_str(&mut out, comp);
    chars_to_string(&out)
}

/// The home directory: the configured one when given, else
/// `<user home>/.nanobot-rust`.
pub open spec fn home_from(env_home: Option<Seq<char>>, user_home: Option<Seq<char>>) -> Result<Seq<char>, Seq<char>> {
    match env_home {
        Some(h) => Ok(h),
        None => match user_home {
            Some(u) => Ok(path_join(u, ".nanobot-rust"@)),
            None => Err("Could not determine home directory"@),
        },
    }
}

/// The text of an optional string slice.
pub open spec fn opt_str(o: Option<&str>) -> Option<Seq<char>> {
    match o {
        Some(h) => Some(h@),
        None => None,
    }
}

/// Result views.
pub open spec fn path_result(r: Result<String, String>) -> Result<Seq<char>, Seq<char>> {
    match r {
        Ok(p) => Ok(p@),
        Err(e) => Err(e@),
    }
}

/// `comp` under the home directory, or the home's error.
pub open spec fn under_home(home: Result<Seq<char>, Seq<char>>, comp: Seq<char>) -> Result<Seq<char>, Seq<char>> {
    match home {
        Ok(h) => Ok(path_join(h, comp)),
        Err(e) => Err(e),
    }
}

/// The home directory for the given `NANOBOT_RUST_HOME` setting.
pub fn home_for(env_home: Option<&str>, user_home: Option<String>) -> (r: Result<String, String>)
    ensures
        path_result(r) == home_from(
            opt_str(env_home),
            crate::session::opt_view(user_home),
        ),
{
    match env_home {
        Some(h) => Ok(String::from_str(h)),
        None => match user_home {
            Some(u) => Ok(join_path(u.as_str(), ".nanobot-rust")),
            None => Err(String::from_str("Could not determine home directory")),
        },
    }
}

/// The home directory for the given `NANOBOT_RUST_HOME` setting, the user's
/// home directory coming from the environment.
pub fn get_nanobot_home(env_home: Option<&str>) -> (r: Result<String, String>)
    ensures
        env_home matches Some(h) ==> path_result(r) == Ok::<Seq<char>, Seq<char>>(h@),
        env_home is None ==> (r is Ok || path_result(r) == Err::<Seq<char>, Seq<char>>("Could not determine home directory"@)),
        exists|u: Option<Seq<char>>| path_result(r) == #[trigger] home_from(
            opt_str(env_home),
            u,
        ),
{
    let u = home_dir();
    let ghost uv = crate::session::opt_view(u);
    let r = home_for(env_home, u);
    assert(path_result(r) == home_from(
        opt_str(env_home),
        uv,
    ));
    r
}

fn home_child(env_home: Option<&str>, comp: &str) -> (r: Result<String, String>)
    ensures
        exists|u: Option<Seq<char>>| path_result(r) == under_home(
            #[trigger] home_from(
                opt_str(env_home),
                u,
            ),
            comp@,
        ),
{
    let u = home_dir();
    let ghost uv = crate::session::opt_view(u);
    let h = home_for(env_home, u);
    let r = match h {
        Ok(h) => Ok(join_path(h.as_str(), comp)),
        Err(e) => Err(e),
    };
    assert(path_result(r) == under_home(
        home_from(
            opt_str(env_home),
            uv,
        ),
        comp@,
    ));
    r
}

/// The data directory: `<home>/data`.
pub fn get_data_dir(env_home: Option<&str>) -> (r: Result<String, String>)
    ensures
        exists|u: Option<Seq<char>>| path_result(r) == under_home(
            #[trigger] home_from(
                opt_str(env_home),
                u,
            ),
            "data"@,
        ),
{
    home_child(env_home, "data")
}

/// The cron jobs directory: `<home>/cron`.
pub fn get_cron_dir(env_home: Option<&str>) -> (r: Result<String, String>)
    ensures
        exists|u: Option<Seq<char>>| path_result(r) == under_home(
            #[trigger] home_from(
                opt_str(env_home),
                u,
            ),
            "cron"@,
        ),
{
    home_child(env_home, "cron")
}

/// The sessions directory: `<home>/sessions`.
pub fn get_sessions_dir(env_home: Option<&str>) -> (r: Result<String, String>)
    ensures
        exists|u: Option<Seq<char>>| path_result(r) == under_home(
            #[trigger] home_from(
                opt_str(env_home),
                u,
            ),
            "sessions"@,
        ),
{
    home_child(env_home, "sessions")
}

/// The memory directory: `<home>/memory`.
pub fn get_memory_dir(env_home: Option<&str>) -> (r: Result<String, String>)
    ensures
        exists|u: Option<Seq<char>>| path_result(r) == under_home(
            #[trigger] home_from(
                opt_str(env_home),
                u,
            ),
            "memory"@,
        ),
{
    home_child(env_home, "memory")
}

/// The skills directory: `<home>/skills`.
pub fn get_skills_dir(env_home: Option<&str>) -> (r: Result<String, String>)
    ensures
        exists|u: Option<Seq<char>>| path_result(r) == under_home(
            #[trigger] home_from(
                opt_str(env_home),
                u,
            ),
            "skills"@,
        ),
{
    home_child(env_home, "skills")
}

/// The templates directory: `<home>/templates`.
pub fn get_templates_dir(env_home: Option<&str>) -> (r: Result<String, String>)
    ensures
        exists|u: Option<Seq<char>>| path_result(r) == under_home(
            #[trigger] home_from(
                opt_str(env_home),
                u,
            ),
            "templates"@,
        ),
{
    home_child(env_home, "templates")
}

/// The media directory `<home>/media`, or `<home>/media/<channel>`.
pub fn get_media_dir(env_home: Option<&str>, channel: Option<&str>) -> (r: Result<String, String>)
    ensures
        exists|u: Option<Seq<char>>| path_result(r) == match channel {
            Some(ch) => match under_home(
                #[trigger] home_from(
                    opt_str(env_home),
                    u,
                ),
                "media"@,
            ) {
                Ok(m) => Ok(path_join(m, ch@)),
                Err(e) => Err(e),
            },
            None => under_home(
                home_from(
                    opt_str(env_home),
                    u,
                ),
                "media"@,
            ),
        },
{
    let m = home_child(env_home, "media");
    match channel {
        Some(ch) => match m {
            Ok(p) => Ok(join_path(p.as_str(), ch)),
            Err(e) => Err(e),
        },
        None => m,
    }
}

/// The workspace: the configured path when given and not empty, else
/// `<home>/workspace`.
pub fn get_workspace_path(env_home: Option<&str>, config_workspace: Option<&str>) -> (r: Result<String, String>)
    ensures
        (config_workspace matches Some(ws) && ws@.len() > 0) ==> path_result(r) == Ok::<Seq<char>, Seq<char>>(config_workspace.unwrap()@),
        !(config_workspace matches Some(ws) && ws@.len() > 0) ==> exists|u: Option<Seq<char>>| path_result(r) == under_home(
            #[trigger] home_from(
                opt_str(env_home),
                u,
            ),
            "workspace"@,
        ),
{
    match config_workspace {
        Some(ws) => {
            if !ws.is_empty() {
                return Ok(String::from_str(ws));
            }
        },
        None => {},
    }
    home_child(env_home, "workspace")
}

/// The configuration file: `<home>/config.yaml` when it exists, else the
/// legacy `<user home>/.nanobot/config.yaml` when that exists, else the
/// former (to be created). Whether each file exists is given by the caller.
pub fn config_path_choice(home: &str, user_home: Option<&str>, home_config_exists: bool, legacy_exists: bool) -> (r: String)
    ensures
        r@ == (if home_config_exists || user_home is None || !legacy_exists {
            path_join(home@, "config.yaml"@)
        } else {
            path_join(path_join(user_home.unwrap()@, ".nanobot"@), "config.yaml"@)
        }),
{
    let own = join_path(home, "config.yaml");
    if home_config_exists {
        return own;
    }
    match user_home {
        Some(u) => {
            if legacy_exists {
                let dir = join_path(u, ".nanobot");
                join_path(dir.as_str(), "config.yaml")
            } else {
                own
            }
        },
        None => own,
    }
}

} // verus!
