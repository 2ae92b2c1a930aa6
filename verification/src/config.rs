//! The two configuration files: the start file and the routes file.

use vstd::prelude::*;
use crate::platform::{Platform, normalized, separator_text};
use crate::text::{chars_of, string_of};

verus! {

/// The start file: where the routes file and the exclusion list are, and
/// what to do with the computer when a backup ends (`"y"`, `"s"`, `"off"`,
/// `"n"`, ...).
pub struct Inicio {
    pub archivo_de_rutas: String,
    pub archivo_excluir_carpetas: String,
    pub apagar_equipo: String,
}

/// The routes file: pairs of a source directory and a destination relative
/// to the backup directory, the backup directory itself, and the name the
/// backup disk is expected to carry.
#[derive(Clone)]
pub struct Config {
    pub rutas_origen_destino: Vec<(String, String)>,
    pub destino_final: String,
    pub name_disk: String,
}

/// The text of a routes file.
pub struct ConfigView {
    pub routes: Seq<(Seq<char>, Seq<char>)>,
    pub destino_final: Seq<char>,
    pub name_disk: Seq<char>,
}

/// The text of a list of routes.
pub open spec fn routes_view(v: Seq<(String, String)>) -> Seq<(Seq<char>, Seq<char>)> {
    v.map_values(|r: (String, String)| (r.0@, r.1@))
}

impl View for Config {
    type V = ConfigView;

    open spec fn view(&self) -> ConfigView {
        ConfigView {
            routes: routes_view(self.rutas_origen_destino@),
            destino_final: self.destino_final@,
            name_disk: self.name_disk@,
        }
    }
}

/// Whether `c` separates path components on some platform.
pub open spec fn is_path_separator(c: char) -> bool {
    c == '\\' || c == '/'
}

/// `s` without its drive colons: every `:` removed.
pub open spec fn without_colons(s: Seq<char>) -> Seq<char>
    decreases s.len(),
{
    if s.len() == 0 {
        s
    } else if s.last() == ':' {
        without_colons(s.drop_last())
    } else {
        without_colons(s.drop_last()).push(s.last())
    }
}

/// `s` without the separators it ends with.
pub open spec fn trim_trailing_separators(s: Seq<char>) -> Seq<char>
    decreases s.len(),
{
    if s.len() > 0 && is_path_separator(s.last()) {
        trim_trailing_separators(s.drop_last())
    } else {
        s
    }
}

/// Where a route whose relative destination is `destino` is copied to:
/// the backup directory without its trailing separators, one separator of
/// the platform, then the destination without colons and normalised.
pub open spec fn destination_path(destino_final: Seq<char>, destino: Seq<char>, p: Platform) -> Seq<char> {
    trim_trailing_separators(destino_final) + separator_text(p) + normalized(p, without_colons(destino))
}

/// A route with both of its paths normalised for `p`.
pub open spec fn normalized_route(p: Platform, r: (Seq<char>, Seq<char>)) -> (Seq<char>, Seq<char>) {
    (normalized(p, r.0), normalized(p, r.1))
}

fn remove_colons(s: &str) -> (res: Vec<char>)
    ensures
        res@ == without_colons(s@),
{
    let cs = chars_of(s);
    let mut out: Vec<char> = Vec::new();
    let mut i: usize = 0;
    while i < cs.len()
        invariant
            cs@ == s@,
            i <= cs@.len(),
            out@ == without_colons(cs@.take(i as int)),
        decreases cs@.len() - i,
    {
        let c = cs[i];
        assert(cs@.take(i + 1).drop_last() =~= cs@.take(i as int));
        if c != ':' {
            out.push(c);
        }
        i = i + 1;
    }
    assert(cs@.take(cs@.len() as int) =~= cs@);
    out
}

fn trim_separators_end(s: &str) -> (res: Vec<char>)
    ensures
        res@ == trim_trailing_separators(s@),
{
    let cs = chars_of(s);
    let mut j: usize = cs.len();
    assert(cs@.take(j as int) =~= cs@);
    while j > 0 && (cs[j - 1] == '\\' || cs[j - 1] == '/')
        invariant
            cs@ == s@,
            j <= cs@.len(),
            trim_trailing_separators(cs@.take(j as int)) == trim_trailing_separators(cs@),
        decreases j,
    {
        assert(cs@.take(j as int).drop_last() =~= cs@.take(j - 1));
        j = j - 1;
    }
    let mut out: Vec<char> = Vec::new();
    let mut k: usize = 0;
    while k < j
        invariant
            cs@ == s@,
            j <= cs@.len(),
            k <= j,
            out@ =~= cs@.take(k as int),
        decreases j - k,
    {
        out.push(cs[k]);
        assert(cs@.take(k + 1) =~= cs@.take(k as int).push(cs@[k as int]));
        k = k + 1;
    }
    out
}

impl Config {
    /// Normalises, for `platform`, both paths of every route and the backup
    /// directory; the disk name is kept.
    pub fn normalize_paths(&mut self, platform: &Platform)
        ensures
            final(self)@.routes == old(self)@.routes.map_values(
                |r: (Seq<char>, Seq<char>)| normalized_route(*platform, r),
            ),
            final(self)@.destino_final == normalized(*platform, old(self)@.destino_final),
            final(self)@.name_disk == old(self)@.name_disk,
    {
        let ghost before = self@.routes;
        let mut routes: Vec<(String, String)> = Vec::new();
        let n = self.rutas_origen_destino.len();
        let mut i: usize = 0;
        while i < n
            invariant
                n == self.rutas_origen_destino@.len(),
                before == routes_view(self.rutas_origen_destino@),
                i <= n,
                routes@.len() == i,
                forall|j: int|
                    0 <= j < i ==> (#[trigger] routes@[j].0@, routes@[j].1@) == normalized_route(
                        *platform,
                        before[j],
                    ),
            decreases n - i,
        {
            let a = platform.normalize_path(self.rutas_origen_destino[i].0.as_str());
            let b = platform.normalize_path(self.rutas_origen_destino[i].1.as_str());
            routes.push((a, b));
            i = i + 1;
        }
        self.rutas_origen_destino = routes;
        self.destino_final = platform.normalize_path(self.destino_final.as_str());
        assert(self@.routes =~= before.map_values(
            |r: (Seq<char>, Seq<char>)| normalized_route(*platform, r),
        ));
    }

    /// The directory, on the backup disk, that the route with relative
    /// destination `destino` is copied to on `platform`.
    pub fn build_destination_path(&self, destino: &str, platform: &Platform) -> (res: String)
        ensures
            res@ == destination_path(self.destino_final@, destino@, *platform),
    {
        let base = trim_separators_end(self.destino_final.as_str());
        let cleaned = string_of(&remove_colons(destino));
        let rest = platform.normalize_path(cleaned.as_str());
        let mut res = string_of(&base);
        res.append(platform.path_separator());
        res.append(rest.as_str());
        res
    }
}

} // verus!

verus! {

/// Trimming the trailing separators of `s`: the result is a prefix of `s`
/// that does not end with `/` or `\`, and all that was cut off are `/` and
/// `\` characters.
pub proof fn lemma_trim_trailing_separators(s: Seq<char>)
    ensures
        trim_trailing_separators(s).len() <= s.len(),
        trim_trailing_separators(s) == s.take(trim_trailing_separators(s).len() as int),
        trim_trailing_separators(s).len() == 0 || (trim_trailing_separators(s).last() != '/'
            && trim_trailing_separators(s).last() != '\\'),
        forall|i: int|
            trim_trailing_separators(s).len() <= i < s.len() ==> #[trigger] s[i] == '/' || s[i]
                == '\\',
    decreases s.len(),
{
    if s.len() > 0 && is_path_separator(s.last()) {
        lemma_trim_trailing_separators(s.drop_last());
        let t = trim_trailing_separators(s.drop_last());
        assert(s.drop_last().take(t.len() as int) =~= s.take(t.len() as int));
        assert forall|i: int| t.len() <= i < s.len() implies is_path_separator(#[trigger] s[i]) by {
            if i < s.len() - 1 {
                assert(s[i] == s.drop_last()[i]);
            }
        }
    } else {
        assert(s.take(s.len() as int) =~= s);
    }
}

/// Text with its colons removed holds no colon and is no longer than
/// before.
pub proof fn lemma_without_colons_has_no_colon(s: Seq<char>)
    ensures
        !without_colons(s).contains(':'),
        without_colons(s).len() <= s.len(),
    decreases s.len(),
{
    if s.len() > 0 {
        lemma_without_colons_has_no_colon(s.drop_last());
        let t = without_colons(s.drop_last());
        if s.last() != ':' {
            assert forall|i: int| 0 <= i < t.push(s.last()).len() implies t.push(s.last())[i]
                != ':' by {
                if i < t.len() {
                    assert(!t.contains(':'));
                    assert(t.push(s.last())[i] == t[i]);
                }
            }
        }
    }
}

/// Separators at the end of the backup directory make no difference to the
/// destination of a route: `"/mnt/g/"`, `"/mnt/g//"` and `"/mnt/g"` give the
/// same path.
pub proof fn lemma_destination_ignores_trailing_separators(
    destino_final: Seq<char>,
    extra: Seq<char>,
    destino: Seq<char>,
    p: Platform,
)
    requires
        forall|i: int| 0 <= i < extra.len() ==> is_path_separator(#[trigger] extra[i]),
    ensures
        destination_path(destino_final + extra, destino, p) == destination_path(
            destino_final,
            destino,
            p,
        ),
    decreases extra.len(),
{
    if extra.len() > 0 {
        let shorter = extra.drop_last();
        assert((destino_final + extra).drop_last() =~= destino_final + shorter);
        assert((destino_final + extra).last() == extra.last());
        lemma_destination_ignores_trailing_separators(destino_final, shorter, destino, p);
    } else {
        assert(destino_final + extra =~= destino_final);
    }
}

/// The shape of a destination: the backup directory with its trailing
/// separators cut off (so that no separator is doubled where the parts
/// meet), one separator of the platform, and a tail that holds no colon and
/// no separator of the other platform family.
pub proof fn lemma_destination_shape(destino_final: Seq<char>, destino: Seq<char>, p: Platform)
    ensures
        ({
            let base = trim_trailing_separators(destino_final);
            let tail = normalized(p, without_colons(destino));
            &&& destination_path(destino_final, destino, p) == base + separator_text(p) + tail
            &&& base == destino_final.take(base.len() as int)
            &&& base.len() == 0 || !is_path_separator(base.last())
            &&& !tail.contains(':')
            &&& p == Platform::Windows ==> !tail.contains('/')
            &&& p != Platform::Windows ==> !tail.contains('\\')
        }),
{
    lemma_trim_trailing_separators(destino_final);
    lemma_without_colons_has_no_colon(destino);
    crate::platform::lemma_normalized_uses_own_separator(p, without_colons(destino));
    let w = without_colons(destino);
    let tail = normalized(p, w);
    if tail.contains(':') {
        let i = choose|i: int| 0 <= i < tail.len() && tail[i] == ':';
        assert(tail[i] == crate::platform::normalize_char(p, w[i]));
        assert(w.contains(':'));
    }
}

} // verus!

verus! {

/// Removing colons removes exactly the colons: every other character of the
/// text is kept, in order, so a text without colons is left as it is.
pub proof fn lemma_without_colons_removes_only_colons(s: Seq<char>)
    ensures
        without_colons(s) == s.filter(|c: char| c != ':'),
        !s.contains(':') ==> without_colons(s) == s,
    decreases s.len(),
{
    reveal(Seq::filter);
    if s.len() > 0 {
        lemma_without_colons_removes_only_colons(s.drop_last());
        if !s.contains(':') {
            assert(!s.drop_last().contains(':')) by {
                if s.drop_last().contains(':') {
                    let i = choose|i: int| 0 <= i < s.drop_last().len() && s.drop_last()[i] == ':';
                    assert(s[i] == ':');
                }
            }
            assert(s.last() != ':') by {
                assert(s[s.len() - 1] == s.last());
            }
            assert(s.drop_last().push(s.last()) =~= s);
        }
    }
}

/// The destination of a route whose relative destination `d` holds no
/// colon keeps every character of `d`: after the backup directory (without
/// its trailing separators) and one separator of the platform come the
/// characters of `d` one for one, each separator turned into the
/// platform's own and every other character unchanged.
pub proof fn lemma_destination_keeps_route_text(destino_final: Seq<char>, d: Seq<char>, p: Platform)
    requires
        !d.contains(':'),
    ensures
        ({
            let base = trim_trailing_separators(destino_final);
            let path = destination_path(destino_final, d, p);
            let sep = if p == Platform::Windows {
                '\\'
            } else {
                '/'
            };
            &&& path.len() == base.len() + 1 + d.len()
            &&& path.take(base.len() as int) == base
            &&& path[base.len() as int] == sep
            &&& forall|i: int|
                0 <= i < d.len() ==> #[trigger] path[base.len() + 1 + i] == if d[i] == '/' || d[i]
                    == '\\' {
                    sep
                } else {
                    d[i]
                }
        }),
{
    lemma_without_colons_removes_only_colons(d);
    crate::platform::lemma_normalize_changes_only_separators(p, d);
    let base = trim_trailing_separators(destino_final);
    let path = destination_path(destino_final, d, p);
    assert(path.take(base.len() as int) =~= base);
    assert forall|i: int| 0 <= i < d.len() implies #[trigger] path[base.len() + 1 + i] == if d[i]
        == '/' || d[i] == '\\' {
        if p == Platform::Windows {
            '\\'
        } else {
            '/'
        }
    } else {
        d[i]
    } by {
        assert(path[base.len() + 1 + i] == normalized(p, d)[i]);
    }
}

} // verus!
