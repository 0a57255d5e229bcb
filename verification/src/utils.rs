//! Helpers: cutting a JSON object out of text, and finding the directory
//! that the application keeps its data in.

use vstd::prelude::*;
use crate::paths::{join, parent, path_join, path_parent};
use crate::text::{
    find_char, first_index_of_char, from_chars, is_last_char, last_index_of_char, opt_text,
    rfind_char, slice, to_chars,
};

verus! {

/// The span of `text` from its first `{` to its last `}`, both included, when
/// both exist and the brace opens no later than the other closes.
pub open spec fn json_span(text: Seq<char>) -> Option<Seq<char>> {
    match (first_index_of_char(text, '{'), last_index_of_char(text, '}')) {
        (Some(start), Some(end)) => if start <= end {
            Some(text.subrange(start, end + 1))
        } else {
            None
        },
        _ => None,
    }
}

/// Cuts the JSON object out of free-form process output: everything from the
/// first `{` to the last `}`. Nothing inside the span is checked.
pub fn extract_json(text: &str) -> (r: Option<String>)
    ensures
        match r {
            Some(json) => json_span(text@) == Some(json@),
            None => json_span(text@) is None,
        },
{
    let chars = to_chars(text);
    let start = match find_char(&chars, '{') {
        Some(i) => i,
        None => {
            return None;
        },
    };
    let end = match rfind_char(&chars, '}') {
        Some(i) => i,
        None => {
            return None;
        },
    };
    let n: usize = chars.len();
    assert(is_last_char(chars@, '}', end as int) && end < n);
    if start <= end {
        let span = slice(&chars, start, end + 1);
        Some(from_chars(&span))
    } else {
        None
    }
}

/// The name of the application's own directory.
pub const APP_DIR_NAME: &'static str = "unofficial-neuro-kar-manager";

/// The kind of system the application runs on.
#[derive(Debug, Clone, Copy, PartialEq, Eq, Structural)]
pub enum Platform {
    Linux,
    Windows,
    MacOs,
    Other,
}

/// What the process environment says about where data may go. Each field is
/// the value of one variable, `None` where it is not set; `executable` is the
/// path of the running program, `None` where it cannot be had.
pub struct Environment {
    pub xdg_data_home: Option<String>,
    pub home: Option<String>,
    pub local_app_data: Option<String>,
    pub user_profile: Option<String>,
    pub executable: Option<String>,
}

/// What an `Environment` stands for.
pub struct EnvironmentModel {
    pub xdg_data_home: Option<Seq<char>>,
    pub home: Option<Seq<char>>,
    pub local_app_data: Option<Seq<char>>,
    pub user_profile: Option<Seq<char>>,
    pub executable: Option<Seq<char>>,
}

impl View for Environment {
    type V = EnvironmentModel;

    open spec fn view(&self) -> EnvironmentModel {
        EnvironmentModel {
            xdg_data_home: opt_text(self.xdg_data_home),
            home: opt_text(self.home),
            local_app_data: opt_text(self.local_app_data),
            user_profile: opt_text(self.user_profile),
            executable: opt_text(self.executable),
        }
    }
}

/// The directory for the application's data, or why there is none.
///
/// On Linux it lies in the XDG data directory, which defaults to
/// `.local/share` in the home directory. On Windows it lies in the local
/// application data, which defaults to `AppData/Local` in the user's profile.
/// On macOS it lies in `Library/Application Support` in the home directory.
/// Elsewhere it is the directory of the running program.
pub open spec fn app_data_dir(platform: Platform, env: EnvironmentModel) -> Result<
    Seq<char>,
    Seq<char>,
> {
    match platform {
        Platform::Linux => match (env.xdg_data_home, env.home) {
            (Some(data), _) => Ok(path_join(data, APP_DIR_NAME@)),
            (None, Some(home)) => Ok(
                path_join(path_join(path_join(home, ".local"@), "share"@), APP_DIR_NAME@),
            ),
            (None, None) => Err("Cannot determine user data directory"@),
        },
        Platform::Windows => match (env.local_app_data, env.user_profile) {
            (Some(data), _) => Ok(path_join(data, APP_DIR_NAME@)),
            (None, Some(profile)) => Ok(
                path_join(path_join(path_join(profile, "AppData"@), "Local"@), APP_DIR_NAME@),
            ),
            (None, None) => Err("Cannot determine AppData directory"@),
        },
        Platform::MacOs => match env.home {
            Some(home) => Ok(
                path_join(
                    path_join(path_join(home, "Library"@), "Application Support"@),
                    APP_DIR_NAME@,
                ),
            ),
            None => Err("Cannot determine home directory"@),
        },
        Platform::Other => match env.executable {
            Some(exe) => match path_parent(exe) {
                Some(dir) => Ok(dir),
                None => Err("Cannot determine executable parent directory"@),
            },
            None => Err("Cannot determine executable path"@),
        },
    }
}

/// The application's directory under `second` under `first` under `base`.
fn app_dir_under(base: &str, first: &str, second: &str) -> (dir: String)
    ensures
        dir@ == path_join(path_join(path_join(base@, first@), second@), APP_DIR_NAME@),
{
    let a = join(base, first);
    let b = join(a.as_str(), second);
    join(b.as_str(), APP_DIR_NAME)
}

/// The directory that the application keeps its data in, from what the
/// environment says.
pub fn get_app_data_dir(platform: Platform, env: &Environment) -> (r: Result<String, String>)
    ensures
        match app_data_dir(platform, env@) {
            Ok(dir) => r matches Ok(d) && d@ == dir,
            Err(why) => r matches Err(m) && m@ == why,
        },
{
    match platform {
        Platform::Linux => {
            if let Some(data) = &env.xdg_data_home {
                Ok(join(data.as_str(), APP_DIR_NAME))
            } else if let Some(home) = &env.home {
                Ok(app_dir_under(home.as_str(), ".local", "share"))
            } else {
                Err("Cannot determine user data directory".to_owned())
            }
        },
        Platform::Windows => {
            if let Some(data) = &env.local_app_data {
                Ok(join(data.as_str(), APP_DIR_NAME))
            } else if let Some(profile) = &env.user_profile {
                Ok(app_dir_under(profile.as_str(), "AppData", "Local"))
            } else {
                Err("Cannot determine AppData directory".to_owned())
            }
        },
        Platform::MacOs => {
            if let Some(home) = &env.home {
                Ok(app_dir_under(home.as_str(), "Library", "Application Support"))
            } else {
                Err("Cannot determine home directory".to_owned())
            }
        },
        Platform::Other => {
            if let Some(exe) = &env.executable {
                match parent(exe.as_str()) {
                    Some(dir) => Ok(dir),
                    None => Err("Cannot determine executable parent directory".to_owned()),
                }
            } else {
                Err("Cannot determine executable path".to_owned())
            }
        },
    }
}

} // verus!
