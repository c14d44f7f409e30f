//! Preferences the settings screen shows: which readers are built in, where screenshots go by
//! default, and whether the desktop prefers a dark theme.

use vstd::prelude::*;
use crate::local_wiki::{to_lowercase, unicode_lowercase};
use crate::text::{chars_of, contains, find_str, opt_string, or_default, string_from_chars};
use crate::wiki_engine::string_views;
use crate::workspace::{data_dir, home_dir, join_path, joined_path, picture_dir};

verus! {

/// The readers built into the app: no outside tool is needed for them.
pub struct XReaderStatus {
    pub installed: bool,
    pub supported_platforms: Vec<String>,
    pub install_command: String,
}

/// The platforms with a built-in reader, as listed to the user.
pub open spec fn builtin_platforms() -> Seq<Seq<char>> {
    seq![
        "mp.weixin.qq.com (WeChat)"@,
        "x.com / twitter.com (X/Twitter)"@,
        "Other web pages (via Jina Reader)"@,
    ]
}

/// The readers are built in, so they are always there and nothing is to be installed.
pub fn check_xreader_status() -> (r: Result<XReaderStatus, String>)
    ensures
        r matches Ok(s) && s.installed && string_views(s.supported_platforms@)
            == builtin_platforms() && s.install_command@.len() == 0,
{
    let mut supported_platforms: Vec<String> = Vec::new();
    supported_platforms.push("mp.weixin.qq.com (WeChat)".to_owned());
    supported_platforms.push("x.com / twitter.com (X/Twitter)".to_owned());
    supported_platforms.push("Other web pages (via Jina Reader)".to_owned());
    assert(string_views(supported_platforms@) =~= builtin_platforms());
    Ok(XReaderStatus { installed: true, supported_platforms, install_command: String::new() })
}

/// Where screenshots go unless the user chose a folder. On Linux: `openwiki-screenshots` in
/// the pictures folder, else in `~/Pictures`, else in `/tmp`. Elsewhere:
/// `com.openwiki.app/screenshots` in the data folder, else under the current folder.
pub open spec fn screenshot_dir_for(
    is_linux: bool,
    pictures: Option<Seq<char>>,
    home: Option<Seq<char>>,
    data: Option<Seq<char>>,
) -> Seq<char> {
    if is_linux {
        match pictures {
            Some(p) => joined_path(p, "openwiki-screenshots"@),
            None => match home {
                Some(h) => joined_path(joined_path(h, "Pictures"@), "openwiki-screenshots"@),
                None => "/tmp/openwiki-screenshots"@,
            },
        }
    } else {
        match data {
            Some(d) => joined_path(joined_path(d, "com.openwiki.app"@), "screenshots"@),
            None => "com.openwiki.app/screenshots"@,
        }
    }
}

pub fn screenshot_dir_from(
    is_linux: bool,
    pictures: &Option<String>,
    home: &Option<String>,
    data: &Option<String>,
) -> (r: String)
    ensures
        r@ == screenshot_dir_for(is_linux, opt_string(*pictures), opt_string(*home), opt_string(*data)),
{
    if is_linux {
        match pictures {
            Some(p) => join_path(p.as_str(), "openwiki-screenshots"),
            None => match home {
                Some(h) => {
                    let pics = join_path(h.as_str(), "Pictures");
                    join_path(pics.as_str(), "openwiki-screenshots")
                },
                None => "/tmp/openwiki-screenshots".to_owned(),
            },
        }
    } else {
        match data {
            Some(d) => {
                let app = join_path(d.as_str(), "com.openwiki.app");
                join_path(app.as_str(), "screenshots")
            },
            None => "com.openwiki.app/screenshots".to_owned(),
        }
    }
}

/// The default screenshot folder of this user.
pub fn get_default_screenshot_dir(is_linux: bool) -> (r: String)
    ensures
        exists|p: Option<Seq<char>>, h: Option<Seq<char>>, d: Option<Seq<char>>|
            r@ == screenshot_dir_for(is_linux, p, h, d),
{
    let p = picture_dir();
    let h = home_dir();
    let d = data_dir();
    screenshot_dir_from(is_linux, &p, &h, &d)
}

/// Whether the desktop prefers a dark theme, from what `gsettings` printed for the GNOME
/// `color-scheme` and `gtk-theme` keys (absent where the command failed). A colour scheme
/// naming `prefer-dark` means dark, one naming `prefer-light` or `default` light; otherwise a
/// theme name holding `dark` in any case means dark. Off Linux nothing is known, and the
/// window's own query decides.
pub open spec fn dark_mode_from(
    is_linux: bool,
    color_scheme: Option<Seq<char>>,
    gtk_theme: Option<Seq<char>>,
) -> Option<bool> {
    if !is_linux {
        None
    } else {
        let scheme = match color_scheme {
            Some(s) => if contains(s, "prefer-dark"@) {
                Some(true)
            } else if contains(s, "prefer-light"@) || contains(s, "default"@) {
                Some(false)
            } else {
                None
            },
            None => None,
        };
        match scheme {
            Some(b) => Some(b),
            None => match gtk_theme {
                Some(t) => Some(contains(unicode_lowercase(t), "dark"@)),
                None => Some(false),
            },
        }
    }
}

fn holds(s: &[char], needle: &str) -> (b: bool)
    ensures
        b == contains(s@, needle@),
{
    match find_str(s, needle) {
        Some(i) => {
            assert(crate::text::find(s@, needle@) == Some(i as int));
            true
        },
        None => false,
    }
}

pub fn get_system_dark_mode(
    is_linux: bool,
    color_scheme: &Option<String>,
    gtk_theme: &Option<String>,
) -> (r: Option<bool>)
    ensures
        r == dark_mode_from(is_linux, opt_string(*color_scheme), opt_string(*gtk_theme)),
{
    if !is_linux {
        return None;
    }
    match color_scheme {
        Some(s) => {
            let sc = chars_of(s.as_str());
            if holds(&sc, "prefer-dark") {
                return Some(true);
            }
            if holds(&sc, "prefer-light") || holds(&sc, "default") {
                return Some(false);
            }
        },
        None => {},
    }
    match gtk_theme {
        Some(t) => {
            let l = to_lowercase(&chars_of(t.as_str()));
            Some(holds(&l, "dark"))
        },
        None => Some(false),
    }
}

} // verus!
