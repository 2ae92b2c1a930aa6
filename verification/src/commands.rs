//! The copy commands: robocopy on Windows, rsync elsewhere. What each copy
//! runs, which exit codes mean success, and which output lines are kept.

use vstd::prelude::*;
use crate::platform::Platform;
use crate::text::{
    chars_of, contains, contains_text, lines_of, split_lines, string_of, trim_chars, trimmed,
};
use crate::tools::check_drive_backup::trim_trailing_slashes;

verus! {

/// A command to run: the program and its arguments.
pub struct CopyCommand {
    pub program: String,
    pub args: Vec<String>,
}

/// The text of a list of strings.
pub open spec fn texts(v: Seq<String>) -> Seq<Seq<char>> {
    v.map_values(|s: String| s@)
}

/// The exclusion entries trimmed of surrounding white space.
pub open spec fn trimmed_entries(excluir: Seq<Seq<char>>) -> Seq<Seq<char>> {
    excluir.map_values(|e: Seq<char>| trimmed(e))
}

/// The arguments of robocopy: source, destination, `/E` for the whole
/// tree, then `/XD` and the trimmed exclusions when there are any.
pub open spec fn robocopy_args(origen: Seq<char>, destino: Seq<char>, excluir: Seq<Seq<char>>) -> Seq<
    Seq<char>,
> {
    seq![origen, destino, "/E"@] + if excluir.len() > 0 {
        seq!["/XD"@] + trimmed_entries(excluir)
    } else {
        seq![]
    }
}

/// The arguments of rsync: archive mode with itemized changes, one
/// `--exclude=` per trimmed exclusion, the source without its trailing
/// slashes followed by one `/` (so that its contents are copied), and the
/// destination.
pub open spec fn rsync_args(origen: Seq<char>, destino: Seq<char>, excluir: Seq<Seq<char>>) -> Seq<
    Seq<char>,
> {
    seq!["-a"@, "--itemize-changes"@] + excluir.map_values(
        |e: Seq<char>| "--exclude="@ + trimmed(e),
    ) + seq![trim_trailing_slashes(origen) + "/"@, destino]
}

/// The program and arguments that copy `origen` to `destino` on `p`,
/// leaving out the exclusions.
pub open spec fn copy_command_of(
    p: Platform,
    origen: Seq<char>,
    destino: Seq<char>,
    excluir: Seq<Seq<char>>,
) -> (Seq<char>, Seq<Seq<char>>) {
    if p == Platform::Windows {
        ("robocopy"@, robocopy_args(origen, destino, excluir))
    } else {
        ("rsync"@, rsync_args(origen, destino, excluir))
    }
}

fn trimmed_string(s: &String) -> (res: String)
    ensures
        res@ == trimmed(s@),
{
    string_of(&trim_chars(&chars_of(s.as_str())))
}

/// The command that copies `origen` to `destino` on `platform`, leaving
/// out the entries of `excluir`.
pub fn copy_command(platform: Platform, origen: &str, destino: &str, excluir: &Vec<String>) -> (res:
    CopyCommand)
    ensures
        (res.program@, texts(res.args@)) == copy_command_of(
            platform,
            origen@,
            destino@,
            texts(excluir@),
        ),
{
    let ghost ex = texts(excluir@);
    let mut args: Vec<String> = Vec::new();
    if platform.is_windows() {
        args.push(String::from_str(origen));
        args.push(String::from_str(destino));
        args.push(String::from_str("/E"));
        if excluir.len() > 0 {
            args.push(String::from_str("/XD"));
        }
        let ghost head = texts(args@);
        let mut i: usize = 0;
        while i < excluir.len()
            invariant
                ex == texts(excluir@),
                i <= excluir@.len(),
                texts(args@) =~= head + trimmed_entries(ex.take(i as int)),
            decreases excluir@.len() - i,
        {
            assert(ex.take(i + 1) =~= ex.take(i as int).push(ex[i as int]));
            assert(ex[i as int] == excluir@[i as int]@);
            let t = trimmed_string(&excluir[i]);
            let ghost before = texts(args@);
            args.push(t);
            assert(texts(args@) =~= before.push(t@));
            assert(trimmed_entries(ex.take(i + 1)) =~= trimmed_entries(ex.take(i as int)).push(
                trimmed(ex[i as int]),
            ));
            i = i + 1;
        }
        assert(ex.take(excluir@.len() as int) =~= ex);
        assert(texts(args@) =~= robocopy_args(origen@, destino@, ex));
        CopyCommand { program: String::from_str("robocopy"), args }
    } else {
        args.push(String::from_str("-a"));
        args.push(String::from_str("--itemize-changes"));
        let ghost head = texts(args@);
        let mut i: usize = 0;
        while i < excluir.len()
            invariant
                ex == texts(excluir@),
                i <= excluir@.len(),
                texts(args@) =~= head + ex.take(i as int).map_values(
                    |e: Seq<char>| "--exclude="@ + trimmed(e),
                ),
            decreases excluir@.len() - i,
        {
            assert(ex.take(i + 1) =~= ex.take(i as int).push(ex[i as int]));
            assert(ex[i as int] == excluir@[i as int]@);
            let mut a = String::from_str("--exclude=");
            a.append(trimmed_string(&excluir[i]).as_str());
            let ghost before = texts(args@);
            args.push(a);
            assert(texts(args@) =~= before.push(a@));
            assert(ex.take(i + 1).map_values(|e: Seq<char>| "--exclude="@ + trimmed(e))
                =~= ex.take(i as int).map_values(|e: Seq<char>| "--exclude="@ + trimmed(e)).push(
                "--exclude="@ + trimmed(ex[i as int]),
            ));
            i = i + 1;
        }
        assert(ex.take(excluir@.len() as int) =~= ex);
        let ghost mid = texts(args@);
        let src = source_with_slash(origen);
        let dst = String::from_str(destino);
        args.push(src);
        args.push(dst);
        assert(texts(args@) =~= mid + seq![src@, dst@]);
        assert(texts(args@) =~= rsync_args(origen@, destino@, ex));
        CopyCommand { program: String::from_str("rsync"), args }
    }
}

fn source_with_slash(origen: &str) -> (res: String)
    ensures
        res@ == trim_trailing_slashes(origen@) + "/"@,
{
    let cs = chars_of(origen);
    let mut j: usize = cs.len();
    assert(cs@.take(j as int) =~= cs@);
    while j > 0 && cs[j - 1] == '/'
        invariant
            cs@ == origen@,
            j <= cs@.len(),
            trim_trailing_slashes(cs@.take(j as int)) == trim_trailing_slashes(cs@),
        decreases j,
    {
        assert(cs@.take(j as int).drop_last() =~= cs@.take(j - 1));
        j = j - 1;
    }
    let mut out: Vec<char> = Vec::new();
    let mut k: usize = 0;
    while k < j
        invariant
            cs@ == origen@,
            j <= cs@.len(),
            k <= j,
            out@ =~= cs@.take(k as int),
        decreases j - k,
    {
        out.push(cs[k]);
        k = k + 1;
    }
    let mut res = string_of(&out);
    res.append("/");
    res
}

/// Whether a copy that ended with exit code `code` succeeded on `p`:
/// robocopy reports success with codes below 8, rsync with 0; a copy
/// stopped without a code failed.
pub open spec fn copy_succeeded(p: Platform, code: Option<i32>) -> bool {
    match code {
        Some(c) => if p == Platform::Windows {
            c < 8
        } else {
            c == 0
        },
        None => false,
    }
}

/// Whether a copy that ended with exit code `code` succeeded on `platform`.
pub fn is_success_code(platform: Platform, code: Option<i32>) -> (res: bool)
    ensures
        res == copy_succeeded(platform, code),
{
    match code {
        Some(c) => if platform.is_windows() {
            c < 8
        } else {
            c == 0
        },
        None => false,
    }
}

/// Whether a line of the output of the copy reports a copied file: on
/// Windows a robocopy line tagged as a new, newer, changed or modified
/// file; elsewhere an rsync itemized line for a received file (`>`) or a
/// created item (`c`).
pub open spec fn reports_copy(p: Platform, line: Seq<char>) -> bool {
    if p == Platform::Windows {
        contains_text(line, "New File"@) || contains_text(line, "Newer"@) || contains_text(
            line,
            "Changed"@,
        ) || contains_text(line, "Modified"@)
    } else {
        line.len() > 0 && (line[0] == '>' || line[0] == 'c')
    }
}

/// The lines among `lines` that report a copied file, in order.
pub open spec fn copy_reports(p: Platform, lines: Seq<Seq<char>>) -> Seq<Seq<char>>
    decreases lines.len(),
{
    if lines.len() == 0 {
        lines
    } else if reports_copy(p, lines.last()) {
        copy_reports(p, lines.drop_last()).push(lines.last())
    } else {
        copy_reports(p, lines.drop_last())
    }
}

fn line_reports_copy(platform: Platform, line: &Vec<char>) -> (res: bool)
    ensures
        res == reports_copy(platform, line@),
{
    if platform.is_windows() {
        let s = string_of(line);
        let t = s.as_str();
        contains(t, "New File") || contains(t, "Newer") || contains(t, "Changed") || contains(
            t,
            "Modified",
        )
    } else {
        line.len() > 0 && (line[0] == '>' || line[0] == 'c')
    }
}

/// The lines of the output `stdout` of a copy on `platform` that report a
/// copied file, as they go to the summary log.
pub fn copied_files_report(platform: Platform, stdout: &str) -> (res: Vec<String>)
    ensures
        texts(res@) == copy_reports(platform, lines_of(stdout@)),
{
    let lines = split_lines(&chars_of(stdout));
    let ghost lv = lines@.map_values(|l: Vec<char>| l@);
    let mut out: Vec<String> = Vec::new();
    let mut i: usize = 0;
    while i < lines.len()
        invariant
            lv == lines@.map_values(|l: Vec<char>| l@),
            lv == lines_of(stdout@),
            i <= lines@.len(),
            texts(out@) == copy_reports(platform, lv.take(i as int)),
        decreases lines@.len() - i,
    {
        assert(lv.take(i + 1).drop_last() =~= lv.take(i as int));
        assert(lv[i as int] == lines@[i as int]@);
        let ghost before = texts(out@);
        if line_reports_copy(platform, &lines[i]) {
            let s = string_of(&lines[i]);
            out.push(s);
            assert(texts(out@) =~= before.push(s@));
        }
        i = i + 1;
    }
    assert(lv.take(lines@.len() as int) =~= lv);
    out
}

} // verus!
