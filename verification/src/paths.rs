//! The process environment the tool reads, as plain values, and the joining
//! of path components with the platform's separator.

use vstd::prelude::*;
use crate::config::opt_view;

verus! {

/// What the tool reads from its environment. Each variable is `None` when it
/// is unset (or not valid Unicode).
#[derive(Debug, Clone)]
pub struct Environment {
    /// Whether the platform is Windows (separator `\`, `APPDATA` honoured).
    pub windows: bool,
    /// The directories of `PATH`, in order.
    pub path_dirs: Vec<String>,
    /// `ProgramFiles`.
    pub program_files: Option<String>,
    /// `LOCALAPPDATA`.
    pub local_app_data: Option<String>,
    /// `APPDATA`.
    pub appdata: Option<String>,
    /// `XDG_CONFIG_HOME`.
    pub xdg_config_home: Option<String>,
    /// `GH_CONFIG_DIR`.
    pub gh_config_dir: Option<String>,
    /// `GH_AUTOSWITCH_CONFIG`.
    pub config_override: Option<String>,
    /// The user's home directory (`HOME`, or `USERPROFILE` on Windows).
    pub home: Option<String>,
}

/// The environment as mathematical values.
pub struct EnvironmentView {
    pub windows: bool,
    pub path_dirs: Seq<Seq<char>>,
    pub program_files: Option<Seq<char>>,
    pub local_app_data: Option<Seq<char>>,
    pub appdata: Option<Seq<char>>,
    pub xdg_config_home: Option<Seq<char>>,
    pub gh_config_dir: Option<Seq<char>>,
    pub config_override: Option<Seq<char>>,
    pub home: Option<Seq<char>>,
}

impl View for Environment {
    type V = EnvironmentView;

    open spec fn view(&self) -> EnvironmentView {
        EnvironmentView {
            windows: self.windows,
            path_dirs: self.path_dirs@.map_values(|d: String| d@),
            program_files: opt_view(self.program_files),
            local_app_data: opt_view(self.local_app_data),
            appdata: opt_view(self.appdata),
            xdg_config_home: opt_view(self.xdg_config_home),
            gh_config_dir: opt_view(self.gh_config_dir),
            config_override: opt_view(self.config_override),
            home: opt_view(self.home),
        }
    }
}

/// The platform's main separator.
pub open spec fn separator(windows: bool) -> char {
    if windows {
        '\\'
    } else {
        '/'
    }
}

/// Whether `c` separates path components (`/`, and also `\` on Windows).
pub open spec fn is_separator(c: char, windows: bool) -> bool {
    c == '/' || (windows && c == '\\')
}

/// A bare Windows drive such as `C:`, to which a relative component is
/// joined without a separator (`C:` and `x` give the drive-relative `C:x`).
pub open spec fn is_bare_drive(base: Seq<char>, windows: bool) -> bool {
    &&& windows
    &&& base.len() == 2
    &&& base[1] == ':'
    &&& (('a' <= base[0] && base[0] <= 'z') || ('A' <= base[0] && base[0] <= 'Z'))
}

/// `base` extended by the relative component `part`: a separator goes between
/// them unless `base` is empty, already ends with one, or is a bare drive.
pub open spec fn joined(base: Seq<char>, part: Seq<char>, windows: bool) -> Seq<char> {
    if base.len() == 0 || is_separator(base.last(), windows) || is_bare_drive(base, windows) {
        base + part
    } else {
        base + seq![separator(windows)] + part
    }
}

/// Whether a variable holds a non-empty value.
pub open spec fn non_empty(v: Option<Seq<char>>) -> bool {
    v matches Some(s) && s.len() > 0
}

/// Join the relative component `part` to `base`.
pub fn join_path(base: &str, part: &str, windows: bool) -> (r: String)
    ensures
        r@ == joined(base@, part@, windows),
{
    let n = base.unicode_len();
    let mut r = String::from_str(base);
    if n > 0 {
        let last = base.get_char(n - 1);
        assert(base@.last() == last);
        let first = base.get_char(0);
        let bare_drive = windows && n == 2 && last == ':' && (('a' <= first && first <= 'z') || (
        'A' <= first && first <= 'Z'));
        if !(last == '/' || (windows && last == '\\')) && !bare_drive {
            if windows {
                r.append("\\");
                proof {
                    reveal_strlit("\\");
                }
            } else {
                r.append("/");
                proof {
                    reveal_strlit("/");
                }
            }
        }
    }
    r.append(part);
    assert(r@ =~= joined(base@, part@, windows));
    r
}

/// Whether `v` holds a non-empty string.
pub fn is_set(v: &Option<String>) -> (r: bool)
    ensures
        r == non_empty(opt_view(*v)),
{
    match v {
        Some(s) => s.unicode_len() > 0,
        None => false,
    }
}

} // verus!
