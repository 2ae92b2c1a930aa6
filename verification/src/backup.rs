//! The rules of a backup run: the exclusion list, where each route is
//! copied to, what happens to the computer afterwards, and the log files.

use vstd::prelude::*;
use crate::config::{Config, destination_path};
use crate::platform::Platform;
use crate::text::{
    ascii_lowercase, chars_of, decimal, decimal_string, lines_of, signed_decimal,
    signed_decimal_string, split_lines, str_equals, string_of, to_ascii_lowercase, trim_chars,
    trimmed, is_white_space, ascii_lower,
};
use crate::tools::structs::{Fecha, FechaView, month_abbreviation};

verus! {

/// Whether a line of the exclusion file names something to exclude: it is
/// neither blank nor, once trimmed, a `#` comment.
pub open spec fn keeps_exclusion(line: Seq<char>) -> bool {
    trimmed(line).len() > 0 && trimmed(line)[0] != '#'
}

/// The lines among `lines` that name something to exclude, in order and
/// as they are written (not trimmed).
pub open spec fn exclusions_among(lines: Seq<Seq<char>>) -> Seq<Seq<char>>
    decreases lines.len(),
{
    if lines.len() == 0 {
        lines
    } else if keeps_exclusion(lines.last()) {
        exclusions_among(lines.drop_last()).push(lines.last())
    } else {
        exclusions_among(lines.drop_last())
    }
}

fn keeps_line(line: &Vec<char>) -> (res: bool)
    ensures
        res == keeps_exclusion(line@),
{
    let t = trim_chars(line);
    t.len() > 0 && t[0] != '#'
}

/// The entries of the exclusion file whose text is `contenido`: its lines
/// that are neither blank nor comments starting with `#`.
pub fn parse_exclusions(contenido: &str) -> (res: Vec<String>)
    ensures
        res@.map_values(|s: String| s@) == exclusions_among(lines_of(contenido@)),
{
    let cs = chars_of(contenido);
    let lines = split_lines(&cs);
    let ghost lv = lines@.map_values(|l: Vec<char>| l@);
    let mut out: Vec<String> = Vec::new();
    let mut i: usize = 0;
    while i < lines.len()
        invariant
            lv == lines@.map_values(|l: Vec<char>| l@),
            lv == lines_of(contenido@),
            i <= lines@.len(),
            out@.map_values(|s: String| s@) == exclusions_among(lv.take(i as int)),
        decreases lines@.len() - i,
    {
        assert(lv.take(i + 1).drop_last() =~= lv.take(i as int));
        assert(lv[i as int] == lines@[i as int]@);
        let ghost before = out@.map_values(|s: String| s@);
        if keeps_line(&lines[i]) {
            let s = string_of(&lines[i]);
            out.push(s);
            assert(out@.map_values(|s: String| s@) =~= before.push(s@));
        }
        i = i + 1;
    }
    assert(lv.take(lines@.len() as int) =~= lv);
    out
}

/// One copy to run: everything under `origen` goes to `destino`.
pub struct Transfer {
    pub origen: String,
    pub destino: String,
}

impl View for Transfer {
    type V = (Seq<char>, Seq<char>);

    open spec fn view(&self) -> (Seq<char>, Seq<char>) {
        (self.origen@, self.destino@)
    }
}

/// The text of a list of transfers.
pub open spec fn transfers_view(v: Seq<Transfer>) -> Seq<(Seq<char>, Seq<char>)> {
    v.map_values(|t: Transfer| t@)
}

/// The copies of a backup: each route's source goes to its destination on
/// the backup disk, in the order of the routes.
pub open spec fn backup_plan(
    routes: Seq<(Seq<char>, Seq<char>)>,
    destino_final: Seq<char>,
    p: Platform,
) -> Seq<(Seq<char>, Seq<char>)> {
    routes.map_values(
        |r: (Seq<char>, Seq<char>)| (r.0, destination_path(destino_final, r.1, p)),
    )
}

/// The copies that a backup with `config` runs on `platform`.
pub fn backup_transfers(config: &Config, platform: &Platform) -> (res: Vec<Transfer>)
    ensures
        transfers_view(res@) == backup_plan(config@.routes, config@.destino_final, *platform),
{
    let ghost plan = backup_plan(config@.routes, config@.destino_final, *platform);
    let mut out: Vec<Transfer> = Vec::new();
    let n = config.rutas_origen_destino.len();
    let mut i: usize = 0;
    while i < n
        invariant
            n == config@.routes.len(),
            plan == backup_plan(config@.routes, config@.destino_final, *platform),
            i <= n,
            out@.len() == i,
            forall|j: int| 0 <= j < i ==> (#[trigger] out@[j])@ == plan[j],
        decreases n - i,
    {
        let origen = config.rutas_origen_destino[i].0.clone();
        let destino = config.build_destination_path(
            config.rutas_origen_destino[i].1.as_str(),
            platform,
        );
        out.push(Transfer { origen, destino });
        i = i + 1;
    }
    assert(transfers_view(out@) =~= plan);
    out
}

/// What is done with the computer when a backup ends.
#[derive(Debug, Clone, Copy, PartialEq, Eq, Structural)]
pub enum PowerAction {
    /// Hibernate (Windows).
    Hibernate,
    /// Shut down (Windows).
    ShutDown,
    /// Wait for the user to press Enter.
    WaitForUser,
}

/// What is done with the computer after a backup on `p`, given the
/// `apagar_equipo` setting: on Windows `y` or `s` hibernates and `off` shuts
/// down, in any case of letters; anything else, and any other platform,
/// waits for the user. Only ASCII letters lowercase to these ASCII answers,
/// so comparing the ASCII-lowercased setting is the same as comparing the
/// fully lowercased one.
pub open spec fn power_action_of(p: Platform, apagar_equipo: Seq<char>) -> PowerAction {
    let a = ascii_lowercase(apagar_equipo);
    if p == Platform::Windows && (a == "y"@ || a == "s"@) {
        PowerAction::Hibernate
    } else if p == Platform::Windows && a == "off"@ {
        PowerAction::ShutDown
    } else {
        PowerAction::WaitForUser
    }
}

/// What is done with the computer after a backup on `platform`.
pub fn power_action(platform: Platform, apagar_equipo: &str) -> (res: PowerAction)
    ensures
        res == power_action_of(platform, apagar_equipo@),
{
    if !platform.is_windows() {
        return PowerAction::WaitForUser;
    }
    let lowered = string_of(&to_ascii_lowercase(&chars_of(apagar_equipo)));
    if str_equals(lowered.as_str(), "y") || str_equals(lowered.as_str(), "s") {
        PowerAction::Hibernate
    } else if str_equals(lowered.as_str(), "off") {
        PowerAction::ShutDown
    } else {
        PowerAction::WaitForUser
    }
}

/// The run a log file belongs to.
#[derive(Debug, Clone, Copy, PartialEq, Eq, Structural)]
pub enum Operation {
    Backup,
    Restore,
}

/// The two log files of a run: the summary and the detailed log.
#[derive(Debug, Clone, Copy, PartialEq, Eq, Structural)]
pub enum LogKind {
    Summary,
    Detail,
}

/// The word that names a run in log file names.
pub open spec fn operation_word(op: Operation) -> Seq<char> {
    match op {
        Operation::Backup => "backup"@,
        Operation::Restore => "restore"@,
    }
}

/// The word that names a log file in log file names.
pub open spec fn log_kind_word(kind: LogKind) -> Seq<char> {
    match kind {
        LogKind::Summary => "resumen"@,
        LogKind::Detail => "log"@,
    }
}

/// The date part of a log file name: year, month number, month
/// abbreviation, day and the hour stamp, as `2025-3MAR-7_09hor05min`.
pub open spec fn log_stamp(f: FechaView, hora: Seq<char>) -> Seq<char> {
    signed_decimal(f.anio as int) + "-"@ + decimal(f.mes_numero as nat) + month_abbreviation(f)
        + "-"@ + decimal(f.dia_numero as nat) + "_"@ + hora
}

/// The path of a log file. On Windows the summary goes to `C:/xcopy/` and
/// the detailed log to `C:/xcopy/logs/`; elsewhere both go to the logs
/// directory. The name is the same on every platform.
pub open spec fn log_file_of(
    p: Platform,
    op: Operation,
    kind: LogKind,
    logs_dir: Seq<char>,
    f: FechaView,
    hora: Seq<char>,
) -> Seq<char> {
    let name = log_stamp(f, hora) + "_"@ + log_kind_word(kind) + "_"@ + operation_word(op);
    if p == Platform::Windows {
        (if kind == LogKind::Summary {
            "C:/xcopy/"@
        } else {
            "C:/xcopy/logs/"@
        }) + name + ".txt"@
    } else {
        logs_dir + "/"@ + name + ".txt"@
    }
}

fn log_stamp_string(fecha: &Fecha, hora: &str) -> (res: String)
    ensures
        res@ == log_stamp(fecha@, hora@),
{
    let anio = signed_decimal_string(*fecha.get_anio());
    let mes = decimal_string(*fecha.get_mes_numero() as u64);
    let abbr = fecha.get_mes_nombre3letras();
    let dia = decimal_string(*fecha.get_dia_numero() as u64);
    let mut res = anio;
    res.append("-");
    res.append(mes.as_str());
    res.append(abbr.as_str());
    res.append("-");
    res.append(dia.as_str());
    res.append("_");
    res.append(hora);
    res
}

fn log_name_string(op: Operation, kind: LogKind, fecha: &Fecha, hora: &str) -> (res: String)
    ensures
        res@ == log_stamp(fecha@, hora@) + "_"@ + log_kind_word(kind) + "_"@ + operation_word(op),
{
    let mut res = log_stamp_string(fecha, hora);
    res.append("_");
    match kind {
        LogKind::Summary => res.append("resumen"),
        LogKind::Detail => res.append("log"),
    }
    res.append("_");
    match op {
        Operation::Backup => res.append("backup"),
        Operation::Restore => res.append("restore"),
    }
    res
}

/// The path of a log file of a run on `platform` stamped with `fecha` and
/// `hora`; `logs_dir` is where logs go outside Windows.
pub fn log_file_path(
    platform: Platform,
    op: Operation,
    kind: LogKind,
    logs_dir: &str,
    fecha: &Fecha,
    hora: &str,
) -> (res: String)
    ensures
        res@ == log_file_of(platform, op, kind, logs_dir@, fecha@, hora@),
{
    let name = log_name_string(op, kind, fecha, hora);
    let mut res = if platform.is_windows() {
        match kind {
            LogKind::Summary => String::from_str("C:/xcopy/"),
            LogKind::Detail => String::from_str("C:/xcopy/logs/"),
        }
    } else {
        let mut d = String::from_str(logs_dir);
        d.append("/");
        d
    };
    res.append(name.as_str());
    res.append(".txt");
    res
}

/// The directory of the logs outside Windows: `logs/backup` under the home
/// directory, or under `/tmp` when no home directory is known.
pub open spec fn logs_dir_of(home: Option<Seq<char>>) -> Seq<char> {
    match home {
        Some(h) => h + "/logs/backup"@,
        None => "/tmp"@ + "/logs/backup"@,
    }
}

/// The directory of the logs outside Windows, given the home directory.
pub fn logs_dir(home: Option<String>) -> (res: String)
    ensures
        res@ == logs_dir_of(
            match home {
                Some(h) => Some(h@),
                None => None,
            },
        ),
{
    let mut d = match home {
        Some(h) => h,
        None => String::from_str("/tmp"),
    };
    d.append("/logs/backup");
    d
}

} // verus!

verus! {

/// Every entry read from the exclusion file is a line of the file that is
/// neither blank nor a `#` comment, and there are no more entries than
/// lines.
pub proof fn lemma_exclusions_are_kept_lines(lines: Seq<Seq<char>>)
    ensures
        exclusions_among(lines).len() <= lines.len(),
        forall|i: int|
            0 <= i < exclusions_among(lines).len() ==> keeps_exclusion(
                #[trigger] exclusions_among(lines)[i],
            ) && lines.contains(exclusions_among(lines)[i]),
    decreases lines.len(),
{
    if lines.len() > 0 {
        let shorter = lines.drop_last();
        lemma_exclusions_are_kept_lines(shorter);
        let e = exclusions_among(shorter);
        let all = exclusions_among(lines);
        assert forall|i: int| 0 <= i < all.len() implies keeps_exclusion(#[trigger] all[i])
            && lines.contains(all[i]) by {
            if i < e.len() {
                assert(all[i] == e[i]);
                let j = choose|j: int| 0 <= j < shorter.len() && shorter[j] == e[i];
                assert(lines[j] == shorter[j]);
            } else {
                assert(all[i] == lines.last());
                assert(lines[lines.len() - 1] == lines.last());
            }
        }
    }
}

/// Outside Windows the computer is never hibernated or shut down after a
/// backup.
pub proof fn lemma_power_action_only_on_windows(p: Platform, apagar_equipo: Seq<char>)
    requires
        p != Platform::Windows,
    ensures
        power_action_of(p, apagar_equipo) == PowerAction::WaitForUser,
{
}

} // verus!

verus! {

/// Whether the first character of `l` that is not white space exists and
/// is not `#`.
pub open spec fn starts_with_visible_non_comment(l: Seq<char>) -> bool {
    exists|i: int|
        0 <= i < l.len() && !is_white_space(#[trigger] l[i]) && l[i] != '#' && forall|j: int|
            0 <= j < i ==> is_white_space(#[trigger] l[j])
}

/// A line of the exclusion file is kept exactly when its first character
/// that is not white space exists and is not `#`; what else the line holds
/// (spaces inside a name, `$`, `*`, ...) does not matter.
pub proof fn lemma_kept_lines_are_those_starting_visibly(l: Seq<char>)
    ensures
        keeps_exclusion(l) <==> starts_with_visible_non_comment(l),
{
    crate::text::lemma_trimmed_spans_visible_text(l);
    let k = crate::text::lemma_trim_start_cut(l);
    if keeps_exclusion(l) {
        assert(k < l.len()) by {
            if k >= l.len() {
                assert(trimmed(l).len() == 0) by {
                    let m = crate::text::lemma_trim_end_cut(l.skip(k));
                }
            }
        }
        assert(trimmed(l)[0] == l[k]);
        assert(starts_with_visible_non_comment(l));
    }
    if starts_with_visible_non_comment(l) {
        let i = choose|i: int|
            0 <= i < l.len() && !is_white_space(#[trigger] l[i]) && l[i] != '#' && forall|j: int|
                0 <= j < i ==> is_white_space(#[trigger] l[j]);
        assert(trimmed(l)[0] == l[i]);
    }
}

/// The entries read from the exclusion file are all the lines of the file
/// whose first character that is not white space exists and is not `#`,
/// each as written and in the order of the file; no such line is left out
/// and no other line is taken.
pub proof fn lemma_exclusions_are_all_visible_non_comment_lines(lines: Seq<Seq<char>>)
    ensures
        exclusions_among(lines) == lines.filter(|l: Seq<char>| starts_with_visible_non_comment(l)),
    decreases lines.len(),
{
    reveal(Seq::filter);
    if lines.len() > 0 {
        lemma_exclusions_are_all_visible_non_comment_lines(lines.drop_last());
        lemma_kept_lines_are_those_starting_visibly(lines.last());
    }
}

} // verus!

verus! {

/// On Windows the power action depends on the setting only through its
/// ASCII-lowercased text: settings that differ only in the case of their
/// letters lead to the same action.
pub proof fn lemma_power_action_ignores_letter_case(p: Platform, a: Seq<char>, b: Seq<char>)
    requires
        ascii_lowercase(a) == ascii_lowercase(b),
    ensures
        power_action_of(p, a) == power_action_of(p, b),
{
}

/// The settings of the start file on Windows: `y`, `Y`, `s` and `S`
/// hibernate, `off` in any case of letters shuts down, and `n`, an empty
/// setting or one of any length but one or three characters waits.
pub proof fn lemma_power_action_settings(a: Seq<char>)
    ensures
        (a == seq!['y'] || a == seq!['Y'] || a == seq!['s'] || a == seq!['S']) ==> power_action_of(
            Platform::Windows,
            a,
        ) == PowerAction::Hibernate,
        (a.len() == 3 && (a[0] == 'o' || a[0] == 'O') && (a[1] == 'f' || a[1] == 'F') && (a[2]
            == 'f' || a[2] == 'F')) ==> power_action_of(Platform::Windows, a)
            == PowerAction::ShutDown,
        (a.len() == 0 || a.len() == 2 || a.len() > 3) ==> power_action_of(Platform::Windows, a)
            == PowerAction::WaitForUser,
        a == seq!['n'] ==> power_action_of(Platform::Windows, a) == PowerAction::WaitForUser,
{
    reveal_strlit("y");
    reveal_strlit("s");
    reveal_strlit("off");
    let l = ascii_lowercase(a);
    assert(l.len() == a.len());
    assert("y"@.len() == 1 && "s"@.len() == 1 && "off"@.len() == 3);
    if a == seq!['y'] || a == seq!['Y'] || a == seq!['s'] || a == seq!['S'] {
        assert(ascii_lower('Y') == 'y');
        assert(ascii_lower('S') == 's');
        if a == seq!['y'] || a == seq!['Y'] {
            assert(l =~= "y"@);
        } else {
            assert(l =~= "s"@);
        }
    }
    if a.len() == 3 && (a[0] == 'o' || a[0] == 'O') && (a[1] == 'f' || a[1] == 'F') && (a[2] == 'f'
        || a[2] == 'F') {
        assert(ascii_lower('O') == 'o');
        assert(ascii_lower('F') == 'f');
        assert(l =~= "off"@);
    }
    if a == seq!['n'] {
        assert(l[0] == 'n');
    }
}

} // verus!
