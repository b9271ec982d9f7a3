//! Where the agent keeps its files: `PathBuf::join` on text, for the path rules of Unix
//! and of Windows.

use vstd::prelude::*;
use vstd::string::*;

verus! {

/// Which platform's path rules apply.
pub enum PathStyle {
    Unix,
    Windows,
}

/// `c` separates path components: `/`, and on Windows also `\`.
pub open spec fn is_path_separator(style: PathStyle, c: char) -> bool {
    c == '/' || (style is Windows && c == '\\')
}

/// The separator that `PathBuf::push` writes.
pub open spec fn main_separator(style: PathStyle) -> char {
    if style is Windows {
        '\\'
    } else {
        '/'
    }
}

/// An ASCII letter.
pub open spec fn is_ascii_letter(c: char) -> bool {
    ('a' as u32 <= c as u32 <= 'z' as u32) || ('A' as u32 <= c as u32 <= 'Z' as u32)
}

/// A path that is nothing but a Windows drive, such as `C:`, to which `push` adds no
/// separator.
pub open spec fn is_drive_only(style: PathStyle, s: Seq<char>) -> bool {
    style is Windows && s.len() == 2 && s[1] == ':' && is_ascii_letter(s[0])
}

/// `PathBuf::push` puts a separator between `base` and what follows it.
pub open spec fn needs_separator(style: PathStyle, base: Seq<char>) -> bool {
    base.len() > 0 && !is_path_separator(style, base.last()) && !is_drive_only(style, base)
}

/// A relative path of one component: no separator, no drive colon.
pub open spec fn is_plain_segment(style: PathStyle, seg: Seq<char>) -> bool {
    forall|i: int| 0 <= i < seg.len() ==> !is_path_separator(style, #[trigger] seg[i]) && seg[i] != ':'
}

/// `base.join(segment)` for a plain `segment`.
pub open spec fn joined(style: PathStyle, base: Seq<char>, segment: Seq<char>) -> Seq<char> {
    if needs_separator(style, base) {
        base + seq![main_separator(style)] + segment
    } else {
        base + segment
    }
}

fn is_separator_char(style: &PathStyle, c: char) -> (r: bool)
    ensures
        r == is_path_separator(*style, c),
{
    c == '/' || (matches!(style, PathStyle::Windows) && c == '\\')
}

fn is_ascii_letter_char(c: char) -> (r: bool)
    ensures
        r == is_ascii_letter(c),
{
    let n = c as u32;
    (97 <= n && n <= 122) || (65 <= n && n <= 90)
}

/// `PathBuf::from(base).join(segment)`, for a `segment` of one plain component.
pub fn join_path(style: &PathStyle, base: &str, segment: &str) -> (r: String)
    requires
        is_plain_segment(*style, segment@),
    ensures
        r@ == joined(*style, base@, segment@),
{
    let n = base.unicode_len();
    let drive_only = matches!(style, PathStyle::Windows) && n == 2 && base.get_char(1) == ':'
        && is_ascii_letter_char(base.get_char(0));
    let need_sep = n > 0 && !is_separator_char(style, base.get_char(n - 1)) && !drive_only;
    let mut out = base.to_owned();
    if need_sep {
        if matches!(style, PathStyle::Windows) {
            out.append("\\");
            proof {
                reveal_strlit("\\");
            }
        } else {
            out.append("/");
            proof {
                reveal_strlit("/");
            }
        }
    }
    out.append(segment);
    out
}

/// `data_dir.join("config.json")`: the agent's own saved settings.
pub fn config_path(data_dir: &str, style: PathStyle) -> (r: String)
    ensures
        r@ == joined(style, data_dir@, "config.json"@),
{
    proof {
        reveal_strlit("config.json");
    }
    join_path(&style, data_dir, "config.json")
}

/// The system-wide copy of the agent's settings, which users without the agent's own
/// data directory can read: `{ProgramData or C:/ProgramData}\OpenUsage\agent.json` on
/// Windows, `/etc/openusage-agent/config.json` elsewhere.
pub fn system_config_path(style: PathStyle, program_data: Option<String>) -> (r: String)
    ensures
        r@ == match style {
            PathStyle::Windows => joined(
                style,
                joined(
                    style,
                    match program_data {
                        Some(p) => p@,
                        None => "C:/ProgramData"@,
                    },
                    "OpenUsage"@,
                ),
                "agent.json"@,
            ),
            PathStyle::Unix => "/etc/openusage-agent/config.json"@,
        },
{
    match style {
        PathStyle::Windows => {
            let root = match program_data {
                Some(p) => p,
                None => String::from_str("C:/ProgramData"),
            };
            proof {
                reveal_strlit("OpenUsage");
                reveal_strlit("agent.json");
            }
            let dir = join_path(&style, root.as_str(), "OpenUsage");
            join_path(&style, dir.as_str(), "agent.json")
        },
        PathStyle::Unix => String::from_str("/etc/openusage-agent/config.json"),
    }
}

/// The agent's data directory: the one given on the command line, else
/// `.openusage-agent` in the home directory, else in `/tmp`.
pub fn resolve_data_dir(style: PathStyle, given: Option<String>, home: Option<String>) -> (r: String)
    ensures
        r@ == match given {
            Some(d) => d@,
            None => joined(
                style,
                match home {
                    Some(h) => h@,
                    None => "/tmp"@,
                },
                ".openusage-agent"@,
            ),
        },
{
    match given {
        Some(d) => d,
        None => {
            let base = match home {
                Some(h) => h,
                None => String::from_str("/tmp"),
            };
            proof {
                reveal_strlit(".openusage-agent");
            }
            join_path(&style, base.as_str(), ".openusage-agent")
        },
    }
}

/// The plugin directory: the one given on the command line, else `plugins` in the data
/// directory.
pub fn resolve_plugins_dir(style: PathStyle, given: Option<String>, data_dir: &str) -> (r: String)
    ensures
        r@ == match given {
            Some(d) => d@,
            None => joined(style, data_dir@, "plugins"@),
        },
{
    match given {
        Some(d) => d,
        None => {
            proof {
                reveal_strlit("plugins");
            }
            join_path(&style, data_dir, "plugins")
        },
    }
}

} // verus!
