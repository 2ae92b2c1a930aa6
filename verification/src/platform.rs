//! The platform the tool runs on, its path separator and path normalisation.

use vstd::prelude::*;
use crate::text::{chars_of, string_of, str_equals};

verus! {

/// The operating system family the tool runs on.
#[derive(Debug, Clone, Copy, PartialEq, Eq, Structural)]
pub enum Platform {
    Windows,
    Linux,
    MacOS,
    Unknown,
}

/// The character that separates the components of a path on `p`:
/// a backslash on Windows, a forward slash everywhere else.
pub open spec fn separator_char(p: Platform) -> char {
    match p {
        Platform::Windows => '\\',
        _ => '/',
    }
}

/// The separator on `p`, as text.
pub open spec fn separator_text(p: Platform) -> Seq<char> {
    seq![separator_char(p)]
}

/// One character of a path normalised for `p`: on Windows every `/` becomes
/// `\`, on every other platform every `\` becomes `/`.
pub open spec fn normalize_char(p: Platform, c: char) -> char {
    match p {
        Platform::Windows => if c == '/' { '\\' } else { c },
        _ => if c == '\\' { '/' } else { c },
    }
}

/// A whole path normalised for `p`, character by character.
pub open spec fn normalized(p: Platform, s: Seq<char>) -> Seq<char> {
    s.map_values(|c: char| normalize_char(p, c))
}

/// The platform named by an operating system name as Rust reports it
/// (`"windows"`, `"linux"`, `"macos"`); any other name is `Unknown`.
pub open spec fn platform_named(os: Seq<char>) -> Platform {
    if os == "windows"@ {
        Platform::Windows
    } else if os == "linux"@ {
        Platform::Linux
    } else if os == "macos"@ {
        Platform::MacOS
    } else {
        Platform::Unknown
    }
}

impl Platform {
    /// Whether this is Windows.
    pub fn is_windows(&self) -> (res: bool)
        ensures
            res == (*self == Platform::Windows),
    {
        match self {
            Platform::Windows => true,
            _ => false,
        }
    }

    /// The path separator of this platform.
    pub fn path_separator(&self) -> (res: &str)
        ensures
            res@ == separator_text(*self),
    {
        match self {
            Platform::Windows => {
                proof {
                    reveal_strlit("\\");
                }
                "\\"
            },
            Platform::Linux | Platform::MacOS => {
                proof {
                    reveal_strlit("/");
                }
                "/"
            },
            Platform::Unknown => {
                proof {
                    reveal_strlit("/");
                }
                "/"
            },
        }
    }

    /// `path` with its separators turned into those of this platform.
    pub fn normalize_path(&self, path: &str) -> (res: String)
        ensures
            res@ == normalized(*self, path@),
    {
        let cs = chars_of(path);
        let n = cs.len();
        let mut out: Vec<char> = Vec::new();
        let mut i: usize = 0;
        while i < n
            invariant
                n == cs@.len(),
                cs@ == path@,
                i <= n,
                out@ =~= normalized(*self, cs@.take(i as int)),
            decreases n - i,
        {
            let c = cs[i];
            let d = match self {
                Platform::Windows => if c == '/' { '\\' } else { c },
                _ => if c == '\\' { '/' } else { c },
            };
            out.push(d);
            assert(cs@.take(i + 1) =~= cs@.take(i as int).push(c));
            i = i + 1;
        }
        assert(cs@.take(n as int) =~= cs@);
        string_of(&out)
    }
}

/// The platform named by `os`, an operating system name as Rust reports it
/// in `std::env::consts::OS`.
pub fn detect_platform(os: &str) -> (res: Platform)
    ensures
        res == platform_named(os@),
{
    if str_equals(os, "windows") {
        Platform::Windows
    } else if str_equals(os, "linux") {
        Platform::Linux
    } else if str_equals(os, "macos") {
        Platform::MacOS
    } else {
        Platform::Unknown
    }
}

} // verus!

verus! {

/// Normalising a path that is already normalised changes nothing.
pub proof fn lemma_normalize_path_idempotent(p: Platform, s: Seq<char>)
    ensures
        normalized(p, normalized(p, s)) == normalized(p, s),
{
    assert(normalized(p, normalized(p, s)) =~= normalized(p, s));
}

/// A normalised path is as long as the path it came from and holds no
/// separator of the other family: no `/` on Windows, no `\` elsewhere.
pub proof fn lemma_normalized_uses_own_separator(p: Platform, s: Seq<char>)
    ensures
        normalized(p, s).len() == s.len(),
        p == Platform::Windows ==> !normalized(p, s).contains('/'),
        p != Platform::Windows ==> !normalized(p, s).contains('\\'),
{
    if p == Platform::Windows && normalized(p, s).contains('/') {
        let i = choose|i: int| 0 <= i < normalized(p, s).len() && normalized(p, s)[i] == '/';
        assert(normalized(p, s)[i] == normalize_char(p, s[i]));
    }
    if p != Platform::Windows && normalized(p, s).contains('\\') {
        let i = choose|i: int| 0 <= i < normalized(p, s).len() && normalized(p, s)[i] == '\\';
        assert(normalized(p, s)[i] == normalize_char(p, s[i]));
    }
}

/// An unknown platform treats paths exactly as Linux does: the same
/// separator and the same normalisation.
pub proof fn lemma_unknown_behaves_like_linux(s: Seq<char>)
    ensures
        separator_text(Platform::Unknown) == separator_text(Platform::Linux),
        normalized(Platform::Unknown, s) == normalized(Platform::Linux, s),
{
    assert(normalized(Platform::Unknown, s) =~= normalized(Platform::Linux, s));
}

} // verus!

verus! {

/// Normalisation touches nothing but separators: every character that is
/// neither `/` nor `\` stays where it was, and every separator becomes the
/// platform's own (`\` on Windows, `/` elsewhere). The length is kept.
pub proof fn lemma_normalize_changes_only_separators(p: Platform, s: Seq<char>)
    ensures
        normalized(p, s).len() == s.len(),
        forall|i: int|
            0 <= i < s.len() && s[i] != '/' && s[i] != '\\' ==> #[trigger] normalized(p, s)[i]
                == s[i],
        forall|i: int|
            0 <= i < s.len() && (s[i] == '/' || s[i] == '\\') ==> #[trigger] normalized(p, s)[i]
                == (if p == Platform::Windows {
                '\\'
            } else {
                '/'
            }),
{
}

} // verus!
