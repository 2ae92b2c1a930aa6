//! Locating the start file from the name of the program.

use vstd::prelude::*;
use crate::platform::Platform;
use crate::text::{chars_of, string_of};

verus! {

/// Whether `c` separates the parts of a program name.
pub open spec fn is_name_separator(c: char) -> bool {
    c == '*' || c == '_'
}

/// Reading a program name from the start: the parts already closed by a
/// separator and the part read since the last separator.
pub open spec fn name_scan(s: Seq<char>) -> (Seq<Seq<char>>, Seq<char>)
    decreases s.len(),
{
    if s.len() == 0 {
        (seq![], seq![])
    } else {
        let (done, cur) = name_scan(s.drop_last());
        if is_name_separator(s.last()) {
            (done.push(cur), seq![])
        } else {
            (done, cur.push(s.last()))
        }
    }
}

/// The parts of a program name split at every `*` and `_`, empty parts
/// included, as `str::split` gives them: there is always one part more than
/// there are separators.
pub open spec fn name_parts(s: Seq<char>) -> Seq<Seq<char>> {
    let (done, cur) = name_scan(s);
    done.push(cur)
}

/// The parts of the program name `stem` (the executable's file name without
/// its extension), split at every `*` and `_`.
pub fn split_program_name(stem: &str) -> (res: Vec<String>)
    ensures
        res@.map_values(|p: String| p@) == name_parts(stem@),
{
    let cs = chars_of(stem);
    let mut done: Vec<String> = Vec::new();
    let mut cur: Vec<char> = Vec::new();
    let mut i: usize = 0;
    while i < cs.len()
        invariant
            cs@ == stem@,
            i <= cs@.len(),
            (done@.map_values(|p: String| p@), cur@) == name_scan(cs@.take(i as int)),
        decreases cs@.len() - i,
    {
        let c = cs[i];
        assert(cs@.take(i + 1).drop_last() =~= cs@.take(i as int));
        let ghost before = done@.map_values(|p: String| p@);
        if c == '*' || c == '_' {
            let part = string_of(&cur);
            done.push(part);
            cur = Vec::new();
            assert(done@.map_values(|p: String| p@) =~= before.push(part@));
        } else {
            cur.push(c);
            assert(done@.map_values(|p: String| p@) =~= before);
        }
        i = i + 1;
    }
    assert(cs@.take(cs@.len() as int) =~= cs@);
    let ghost before = done@.map_values(|p: String| p@);
    let last = string_of(&cur);
    done.push(last);
    assert(done@.map_values(|p: String| p@) =~= before.push(last@));
    done
}

/// The directory that holds the start files on `p`.
pub open spec fn start_file_directory(p: Platform) -> Seq<char> {
    if p == Platform::Windows {
        "c:\\xcopy\\tools\\"@
    } else {
        "./inputs-backup/"@
    }
}

/// The start file named by the parts of the program name: the third part
/// names it, in the start file directory of `p`, with the `.json`
/// extension. A name of fewer than three parts names no start file.
pub open spec fn start_file_of(parts: Seq<Seq<char>>, p: Platform) -> Option<Seq<char>> {
    if parts.len() > 2 {
        Some(start_file_directory(p) + parts[2] + ".json"@)
    } else {
        None
    }
}

/// The path of the start file named by the parts of the program name, on
/// `platform`; `None` when the name has fewer than three parts.
pub fn start_file_path(parts: &Vec<String>, platform: Platform) -> (res: Option<String>)
    ensures
        match res {
            Some(r) => start_file_of(parts@.map_values(|q: String| q@), platform) == Some(r@),
            None => start_file_of(parts@.map_values(|q: String| q@), platform) is None,
        },
{
    let ghost pv = parts@.map_values(|q: String| q@);
    if parts.len() > 2 {
        let mut path = if platform.is_windows() {
            String::from_str("c:\\xcopy\\tools\\")
        } else {
            String::from_str("./inputs-backup/")
        };
        path.append(parts[2].as_str());
        path.append(".json");
        assert(pv[2] == parts@[2]@);
        Some(path)
    } else {
        None
    }
}

} // verus!

verus! {

/// The start file is named by the third part of the program name, whatever
/// follows it: the directory of the platform (`c:\xcopy\tools\` on Windows,
/// `./inputs-backup/` elsewhere), that part, then `.json`. Parts added after
/// the third change nothing; fewer than three parts name no start file.
pub proof fn lemma_start_file_uses_third_part(
    parts: Seq<Seq<char>>,
    more: Seq<Seq<char>>,
    p: Platform,
)
    ensures
        parts.len() >= 3 ==> start_file_of(parts, p) == Some(
            (if p == Platform::Windows {
                "c:\\xcopy\\tools\\"@
            } else {
                "./inputs-backup/"@
            }) + parts[2] + ".json"@,
        ),
        parts.len() >= 3 ==> start_file_of(parts + more, p) == start_file_of(parts, p),
        parts.len() < 3 ==> start_file_of(parts, p) is None,
{
    if parts.len() >= 3 {
        assert((parts + more)[2] == parts[2]);
    }
}

proof fn lemma_name_scan_split(a: Seq<char>, c: char, b: Seq<char>)
    requires
        c == '*' || c == '_',
    ensures
        name_scan(a + seq![c] + b) == ({
            let (da, ca) = name_scan(a);
            let (db, cb) = name_scan(b);
            (da.push(ca) + db, cb)
        }),
    decreases b.len(),
{
    let (da, ca) = name_scan(a);
    if b.len() == 0 {
        assert(a + seq![c] + b =~= a + seq![c]);
        assert((a + seq![c]).drop_last() =~= a);
        assert(da.push(ca) + Seq::<Seq<char>>::empty() =~= da.push(ca));
    } else {
        lemma_name_scan_split(a, c, b.drop_last());
        assert((a + seq![c] + b).drop_last() =~= a + seq![c] + b.drop_last());
        assert((a + seq![c] + b).last() == b.last());
        let (db, cb) = name_scan(b.drop_last());
        assert(da.push(ca) + db.push(cb) =~= (da.push(ca) + db).push(cb));
    }
}

/// Splitting a program name at a `*` or `_` gives the parts before it
/// followed by the parts after it, and a name holding neither is one part:
/// the name is cut at every separator and nowhere else.
pub proof fn lemma_program_name_splits_at_separators(a: Seq<char>, c: char, b: Seq<char>)
    requires
        c == '*' || c == '_',
    ensures
        name_parts(a + seq![c] + b) == name_parts(a) + name_parts(b),
        (forall|i: int| 0 <= i < a.len() ==> #[trigger] a[i] != '*' && a[i] != '_') ==> name_parts(a)
            == seq![a],
{
    lemma_name_scan_split(a, c, b);
    let (da, ca) = name_scan(a);
    let (db, cb) = name_scan(b);
    assert((da.push(ca) + db).push(cb) =~= da.push(ca) + db.push(cb));
    if forall|i: int| 0 <= i < a.len() ==> #[trigger] a[i] != '*' && a[i] != '_' {
        lemma_name_scan_no_separator(a);
    }
}

proof fn lemma_name_scan_no_separator(a: Seq<char>)
    requires
        forall|i: int| 0 <= i < a.len() ==> #[trigger] a[i] != '*' && a[i] != '_',
    ensures
        name_scan(a) == (Seq::<Seq<char>>::empty(), a),
    decreases a.len(),
{
    if a.len() > 0 {
        assert forall|i: int| 0 <= i < a.drop_last().len() implies #[trigger] a.drop_last()[i] != '*'
            && a.drop_last()[i] != '_' by {
            assert(a.drop_last()[i] == a[i]);
        }
        lemma_name_scan_no_separator(a.drop_last());
        assert(a[a.len() - 1] == a.last());
        assert(a.drop_last().push(a.last()) =~= a);
    } else {
        assert(a =~= Seq::<char>::empty());
    }
}

} // verus!
