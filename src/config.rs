use vstd::prelude::*;
use vstd::string::*;
use crate::text::{chars_of, matches_at};

verus! {

/// Settings read from the configuration file.
pub struct Config {
    pub catalog_url: String,
    pub platform: String,
}

/// Why the configuration text could not be used.
#[derive(PartialEq, Eq, Structural, Clone, Copy, Debug)]
pub enum ConfigError {
    /// No line gives the `url` key.
    MissingCatalogUrl,
}

/// End of the line that starts at `i`: the next newline, or the end of text.
pub open spec fn line_end(s: Seq<char>, i: int) -> int
    decreases s.len() - i,
{
    if i < 0 || i >= s.len() || s[i] == '\n' {
        if i < 0 { 0 } else { i }
    } else {
        line_end(s, i + 1)
    }
}

/// What a line must begin with to give `key`.
pub open spec fn key_prefix(key: Seq<char>) -> Seq<char> {
    key + seq![' ', '=', ' ']
}

/// The value on the line `[i, e)` when that line begins with `key = `.
pub open spec fn line_value(s: Seq<char>, key: Seq<char>, i: int, e: int) -> Option<Seq<char>> {
    let pre = key_prefix(key);
    if e - i >= pre.len() && s.subrange(i, i + pre.len()) == pre {
        Some(s.subrange(i + pre.len(), e))
    } else {
        None
    }
}

/// The value of `key` given by the last such line at or after line start `i`.
pub open spec fn value_from(s: Seq<char>, key: Seq<char>, i: int) -> Option<Seq<char>>
    decreases s.len() - i,
{
    if i < 0 || i > s.len() {
        None
    } else {
        let e = line_end(s, i);
        let later = if i <= e < s.len() {
            value_from(s, key, e + 1)
        } else {
            None
        };
        match later {
            Some(v) => Some(v),
            None => line_value(s, key, i, e),
        }
    }
}

/// The value of `key` in key = value text: the rest of the last line that
/// begins with the key followed by ` = `.
pub open spec fn config_value_spec(s: Seq<char>, key: Seq<char>) -> Option<Seq<char>> {
    value_from(s, key, 0)
}

/// Finds the end of the line that starts at `i`.
fn find_line_end(s: &Vec<char>, i: usize) -> (e: usize)
    requires
        i <= s@.len(),
    ensures
        e as int == line_end(s@, i as int),
        i <= e <= s@.len(),
{
    let mut e: usize = i;
    while e < s.len() && s[e] != '\n'
        invariant
            i <= e <= s@.len(),
            line_end(s@, e as int) == line_end(s@, i as int),
        decreases s@.len() - e,
    {
        e = e + 1;
    }
    e
}

/// The value of `key` in key = value text, from the last line that begins
/// with `key = `.
pub fn config_value(text: &str, key: &str) -> (r: Option<String>)
    ensures
        match (r, config_value_spec(text@, key@)) {
            (Some(v), Some(w)) => v@ == w,
            (None, None) => true,
            _ => false,
        },
{
    let s = chars_of(text);
    let mut pre = chars_of(key);
    pre.push(' ');
    pre.push('=');
    pre.push(' ');
    assert(pre@ =~= key_prefix(key@));
    let n = s.len();
    let mut found: Option<(usize, usize)> = None;
    let mut i: usize = 0;
    let mut done = false;
    while !done
        invariant
            n == s@.len(),
            s@ == text@,
            pre@ == key_prefix(key@),
            i <= n,
            match found {
                Some((a, b)) => a <= b <= n,
                None => true,
            },
            done ==> match (found, config_value_spec(s@, key@)) {
                (Some((a, b)), Some(w)) => s@.subrange(a as int, b as int) == w,
                (None, None) => true,
                _ => false,
            },
            !done ==> config_value_spec(s@, key@) == match value_from(s@, key@, i as int) {
                Some(v) => Some(v),
                None => match found {
                    Some((a, b)) => Some(s@.subrange(a as int, b as int)),
                    None => None,
                },
            },
        decreases n - i + (if done { 0int } else { 1int }),
    {
        let e = find_line_end(&s, i);
        let pl = pre.len();
        if e - i >= pl && matches_at(&s, &pre, i) {
            found = Some((i + pl, e));
        }
        if e == n {
            done = true;
        } else {
            i = e + 1;
        }
    }
    match found {
        Some((a, b)) => Some(String::from_str(text.substring_char(a, b))),
        None => None,
    }
}

/// The text written to a fresh configuration file.
pub fn default_config_text() -> (r: String)
    ensures
        r@ == "version = 1\nurl = https://coobyk.github.io/misc/fkinstall.json\nos = linux"@,
{
    String::from_str("version = 1\nurl = https://coobyk.github.io/misc/fkinstall.json\nos = linux")
}

impl Config {
    /// Reads the catalog address from the `url` key and the platform keyword
    /// from the `os` key, which is `linux` when no line gives it.
    pub fn from_text(text: &str) -> (r: Result<Config, ConfigError>)
        ensures
            config_value_spec(text@, "url"@) is None <==> r is Err,
            r is Err ==> r == Err::<Config, ConfigError>(ConfigError::MissingCatalogUrl),
            r is Ok ==> Some(r->Ok_0.catalog_url@) == config_value_spec(text@, "url"@),
            r is Ok ==> r->Ok_0.platform@ == match config_value_spec(text@, "os"@) {
                Some(p) => p,
                None => "linux"@,
            },
    {
        let url = config_value(text, "url");
        match url {
            None => Err(ConfigError::MissingCatalogUrl),
            Some(catalog_url) => {
                let platform = match config_value(text, "os") {
                    Some(p) => p,
                    None => String::from_str("linux"),
                };
                Ok(Config { catalog_url, platform })
            },
        }
    }
}

} // verus!
