//! Checks that the backup disk or directory is the right one and is ready.

use vstd::prelude::*;
use crate::platform::Platform;
use crate::text::{chars_of, first_chars, str_equals, string_of, take_chars};

verus! {

/// How the backup target is checked on a platform.
#[derive(Debug, Clone, Copy, PartialEq, Eq, Structural)]
pub enum DriveCheck {
    /// Windows: the drive letter of the backup directory must be a mounted
    /// disk that carries the expected name.
    DriveLetter,
    /// Linux and macOS: the backup directory must exist, be writable and
    /// have a disk mounted on it.
    MountedDirectory,
    /// No check is known for the platform; the run goes on.
    Unsupported,
}

/// The check that applies on `p`.
pub open spec fn drive_check_of(p: Platform) -> DriveCheck {
    match p {
        Platform::Windows => DriveCheck::DriveLetter,
        Platform::Linux | Platform::MacOS => DriveCheck::MountedDirectory,
        Platform::Unknown => DriveCheck::Unsupported,
    }
}

/// The check that applies on `platform`.
pub fn drive_check_for(platform: Platform) -> (res: DriveCheck)
    ensures
        res == drive_check_of(platform),
{
    match platform {
        Platform::Windows => DriveCheck::DriveLetter,
        Platform::Linux | Platform::MacOS => DriveCheck::MountedDirectory,
        Platform::Unknown => DriveCheck::Unsupported,
    }
}

/// The position of the first `c` in `s`, if there is one.
pub open spec fn first_index_of(s: Seq<char>, c: char) -> Option<int>
    decreases s.len(),
{
    if s.len() == 0 {
        None
    } else {
        match first_index_of(s.drop_last(), c) {
            Some(i) => Some(i),
            None => if s.last() == c {
                Some(s.len() - 1)
            } else {
                None
            },
        }
    }
}

/// The drive of a Windows path: the text before its first colon, then
/// `:\`. A path without a colon has no drive.
pub open spec fn drive_of(path: Seq<char>) -> Option<Seq<char>> {
    match first_index_of(path, ':') {
        Some(i) => Some(path.take(i) + seq![':', '\\']),
        None => None,
    }
}

proof fn lemma_first_index_of(s: Seq<char>, c: char)
    ensures
        match first_index_of(s, c) {
            Some(i) => 0 <= i < s.len() && s[i] == c && forall|j: int| 0 <= j < i ==> s[j] != c,
            None => forall|j: int| 0 <= j < s.len() ==> s[j] != c,
        },
    decreases s.len(),
{
    if s.len() > 0 {
        lemma_first_index_of(s.drop_last(), c);
        match first_index_of(s.drop_last(), c) {
            Some(i) => {
                assert forall|j: int| 0 <= j < i implies s[j] != c by {
                    assert(s[j] == s.drop_last()[j]);
                }
            },
            None => {
                assert forall|j: int| 0 <= j < s.len() - 1 implies s[j] != c by {
                    assert(s[j] == s.drop_last()[j]);
                }
            },
        }
    }
}

/// The drive of `destino_final`, as `"G:\"` for `"G:\backup"`; `None` when
/// the path holds no colon, as a Linux or macOS path does.
pub fn extraer_letra_drive(destino_final: &str) -> (res: Option<String>)
    ensures
        match res {
            Some(r) => drive_of(destino_final@) == Some(r@),
            None => drive_of(destino_final@) is None,
        },
{
    let cs = chars_of(destino_final);
    let mut prefix: Vec<char> = Vec::new();
    let mut i: usize = 0;
    while i < cs.len()
        invariant
            cs@ == destino_final@,
            i <= cs@.len(),
            prefix@ =~= cs@.take(i as int),
            forall|j: int| 0 <= j < i ==> cs@[j] != ':',
        decreases cs@.len() - i,
    {
        if cs[i] == ':' {
            proof {
                lemma_first_index_of(cs@, ':');
                let k = first_index_of(cs@, ':');
                assert(k == Some(i as int)) by {
                    match k {
                        Some(x) => {
                            if x < i {
                            } else if x > i {
                            }
                        },
                        None => {},
                    }
                }
            }
            prefix.push(':');
            prefix.push('\\');
            assert(prefix@ =~= cs@.take(i as int) + seq![':', '\\']);
            return Some(string_of(&prefix));
        }
        prefix.push(cs[i]);
        assert(cs@.take(i + 1) =~= cs@.take(i as int).push(cs@[i as int]));
        i = i + 1;
    }
    proof {
        lemma_first_index_of(cs@, ':');
    }
    None
}

/// The path of the file written to test that `backup_path` can be written:
/// the path without the `/` it ends with, then `/test_write_permission`.
pub open spec fn write_probe_of(backup_path: Seq<char>) -> Seq<char> {
    trim_trailing_slashes(backup_path) + "/test_write_permission"@
}

/// `s` without the forward slashes it ends with.
pub open spec fn trim_trailing_slashes(s: Seq<char>) -> Seq<char>
    decreases s.len(),
{
    if s.len() > 0 && s.last() == '/' {
        trim_trailing_slashes(s.drop_last())
    } else {
        s
    }
}

/// The path of the file written to test that `backup_path` can be written.
pub fn write_probe_path(backup_path: &str) -> (res: String)
    ensures
        res@ == write_probe_of(backup_path@),
{
    let cs = chars_of(backup_path);
    let mut j: usize = cs.len();
    assert(cs@.take(j as int) =~= cs@);
    while j > 0 && cs[j - 1] == '/'
        invariant
            cs@ == backup_path@,
            j <= cs@.len(),
            trim_trailing_slashes(cs@.take(j as int)) == trim_trailing_slashes(cs@),
        decreases j,
    {
        assert(cs@.take(j as int).drop_last() =~= cs@.take(j - 1));
        j = j - 1;
    }
    let mut out: Vec<char> = Vec::new();
    let mut k: usize = 0;
    while k < j
        invariant
            cs@ == backup_path@,
            j <= cs@.len(),
            k <= j,
            out@ =~= cs@.take(k as int),
        decreases j - k,
    {
        out.push(cs[k]);
        assert(cs@.take(k + 1) =~= cs@.take(k as int).push(cs@[k as int]));
        k = k + 1;
    }
    let mut res = string_of(&out);
    res.append("/test_write_permission");
    res
}

/// What the last test of a backup directory found. The tests run in a
/// fixed order: the directory exists, a disk is mounted on it, it can be
/// written.
pub enum DirectoryEvent {
    /// No test has run yet.
    Start,
    /// Whether the directory exists.
    Exists(bool),
    /// Whether a disk is mounted on the directory.
    Mounted(bool),
    /// Writing the probe file: `None` when it worked, else the error.
    Written(Option<String>),
}

/// What is wrong with a backup directory.
pub enum DirectoryProblem {
    /// It does not exist.
    Missing,
    /// It exists but no disk is mounted on it.
    NotMounted,
    /// It cannot be written; the error the system gave.
    NotWritable(String),
}

/// What to do next in the check of a backup directory.
pub enum DirectoryStep {
    /// Test whether the directory exists.
    TestExists,
    /// Test whether a disk is mounted on it.
    TestMounted,
    /// Test whether it can be written.
    TestWritable,
    /// Stop: the directory is not usable.
    Fail(DirectoryProblem),
    /// The directory is ready for the backup.
    Ready,
}

/// The next step of the check of a backup directory after `event`: first
/// it must exist, then have a disk mounted on it, then be writable; the
/// first test that fails ends the check.
pub fn directory_step(event: DirectoryEvent) -> (res: DirectoryStep)
    ensures
        match event {
            DirectoryEvent::Start => res is TestExists,
            DirectoryEvent::Exists(true) => res is TestMounted,
            DirectoryEvent::Exists(false) => res == DirectoryStep::Fail(DirectoryProblem::Missing),
            DirectoryEvent::Mounted(true) => res is TestWritable,
            DirectoryEvent::Mounted(false) => res == DirectoryStep::Fail(
                DirectoryProblem::NotMounted,
            ),
            DirectoryEvent::Written(None) => res is Ready,
            DirectoryEvent::Written(Some(e)) => res == DirectoryStep::Fail(
                DirectoryProblem::NotWritable(e),
            ),
        },
{
    match event {
        DirectoryEvent::Start => DirectoryStep::TestExists,
        DirectoryEvent::Exists(true) => DirectoryStep::TestMounted,
        DirectoryEvent::Exists(false) => DirectoryStep::Fail(DirectoryProblem::Missing),
        DirectoryEvent::Mounted(true) => DirectoryStep::TestWritable,
        DirectoryEvent::Mounted(false) => DirectoryStep::Fail(DirectoryProblem::NotMounted),
        DirectoryEvent::Written(None) => DirectoryStep::Ready,
        DirectoryEvent::Written(Some(e)) => DirectoryStep::Fail(DirectoryProblem::NotWritable(e)),
    }
}

/// The message for a problem with the backup directory `backup_path`.
pub open spec fn problem_message_of(backup_path: Seq<char>, problem: DirectoryProblem) -> Seq<
    char,
> {
    match problem {
        DirectoryProblem::Missing => "El directorio de BACKUP '"@ + backup_path + "' no existe"@,
        DirectoryProblem::NotMounted => "El directorio '"@ + backup_path
            + "' existe pero no hay ningún disco montado en él"@,
        DirectoryProblem::NotWritable(e) => "Sin permisos de escritura en '"@ + backup_path
            + "': "@ + e@,
    }
}

/// The message for a problem with the backup directory `backup_path`.
pub fn problem_message(backup_path: &str, problem: &DirectoryProblem) -> (res: String)
    ensures
        res@ == problem_message_of(backup_path@, *problem),
{
    match problem {
        DirectoryProblem::Missing => {
            let mut m = String::from_str("El directorio de BACKUP '");
            m.append(backup_path);
            m.append("' no existe");
            m
        },
        DirectoryProblem::NotMounted => {
            let mut m = String::from_str("El directorio '");
            m.append(backup_path);
            m.append("' existe pero no hay ningún disco montado en él");
            m
        },
        DirectoryProblem::NotWritable(e) => {
            let mut m = String::from_str("Sin permisos de escritura en '");
            m.append(backup_path);
            m.append("': ");
            m.append(e.as_str());
            m
        },
    }
}

/// Whether a disk is mounted on a directory, told by the device of the
/// directory and the device of its parent: both must be known and differ.
pub fn mounted_from_devices(dev: Option<u64>, parent_dev: Option<u64>) -> (res: bool)
    ensures
        res == (dev is Some && parent_dev is Some && dev->0 != parent_dev->0),
{
    match (dev, parent_dev) {
        (Some(a), Some(b)) => a != b,
        _ => false,
    }
}

/// What the list of mounted disks says of the backup drive.
#[derive(Debug, PartialEq, Eq)]
pub enum DiskVerdict {
    /// No listed disk is mounted on the drive.
    NotListed,
    /// The first disk mounted on the drive carries the expected name.
    Matches,
    /// The first disk mounted on the drive carries another name; its mount
    /// point is given.
    WrongDisk(String),
}

/// The position of the first disk, in a list of (name, mount point) pairs,
/// mounted on `drive`.
pub open spec fn first_disk_on(disks: Seq<(Seq<char>, Seq<char>)>, drive: Seq<char>) -> Option<int>
    decreases disks.len(),
{
    if disks.len() == 0 {
        None
    } else {
        match first_disk_on(disks.drop_last(), drive) {
            Some(i) => Some(i),
            None => if disks.last().1 == drive {
                Some(disks.len() - 1)
            } else {
                None
            },
        }
    }
}

/// The text of a list of (name, mount point) pairs.
pub open spec fn disks_view(disks: Seq<(String, String)>) -> Seq<(Seq<char>, Seq<char>)> {
    disks.map_values(|d: (String, String)| (d.0@, d.1@))
}

proof fn lemma_first_disk_on(disks: Seq<(Seq<char>, Seq<char>)>, drive: Seq<char>, n: int)
    requires
        0 <= n < disks.len(),
        first_disk_on(disks.take(n), drive) is None,
        disks[n].1 == drive,
    ensures
        first_disk_on(disks, drive) == Some(n),
    decreases disks.len(),
{
    if n < disks.len() - 1 {
        assert(disks.drop_last().take(n) =~= disks.take(n));
        lemma_first_disk_on(disks.drop_last(), drive, n);
    } else {
        assert(disks.drop_last() =~= disks.take(n));
    }
}

proof fn lemma_no_disk_on(disks: Seq<(Seq<char>, Seq<char>)>, drive: Seq<char>, n: int)
    requires
        0 <= n < disks.len(),
        first_disk_on(disks.take(n), drive) is None,
        disks[n].1 != drive,
    ensures
        first_disk_on(disks.take(n + 1), drive) is None,
{
    assert(disks.take(n + 1).drop_last() =~= disks.take(n));
}

/// The verdict on the backup drive given the mounted disks as
/// (name, mount point) pairs: the first disk mounted on `drive` decides; if
/// its name is not `name_disk` it is the wrong disk.
pub fn disk_verdict(disks: &Vec<(String, String)>, drive: &str, name_disk: &str) -> (res:
    DiskVerdict)
    ensures
        match first_disk_on(disks_view(disks@), drive@) {
            None => res == DiskVerdict::NotListed,
            Some(i) => if disks_view(disks@)[i].0 == name_disk@ {
                res == DiskVerdict::Matches
            } else {
                (res matches DiskVerdict::WrongDisk(m) && m@ == disks_view(disks@)[i].1)
            },
        },
{
    let ghost dv = disks_view(disks@);
    let mut i: usize = 0;
    assert(dv.take(0) =~= Seq::<(Seq<char>, Seq<char>)>::empty());
    while i < disks.len()
        invariant
            dv == disks_view(disks@),
            i <= disks@.len(),
            first_disk_on(dv.take(i as int), drive@) is None,
        decreases disks@.len() - i,
    {
        let (name, mount) = &disks[i];
        if str_equals(mount.as_str(), drive) {
            proof {
                lemma_first_disk_on(dv, drive@, i as int);
            }
            if str_equals(name.as_str(), name_disk) {
                return DiskVerdict::Matches;
            } else {
                return DiskVerdict::WrongDisk(mount.clone());
            }
        }
        proof {
            lemma_no_disk_on(dv, drive@, i as int);
        }
        i = i + 1;
    }
    assert(dv.take(disks@.len() as int) =~= dv);
    DiskVerdict::NotListed
}

/// What the last test of a Windows backup drive found.
pub enum DriveEvent {
    /// No test has run yet.
    Start,
    /// Whether the drive of the backup directory is available.
    DriveProbed(bool),
    /// The disks of the system, as (name, mount point) pairs.
    DisksListed(Vec<(String, String)>),
}

/// What to do next in the check of a Windows backup drive.
pub enum DriveStep {
    /// Stop: the backup directory names no drive.
    NoDriveLetter,
    /// Test whether the drive is available.
    ProbeDrive(String),
    /// List the disks of the system.
    ListDisks(String),
    /// Stop, after listing the disks: the drive is not available.
    DriveUnavailable(String),
    /// Stop, after listing the disks: the disk mounted on the drive is not
    /// the backup disk; its mount point is given.
    WrongDisk(String),
    /// The drive holds the backup disk.
    Ready,
}

impl DriveStep {
    /// Whether the disks of the system are shown to the user at this step:
    /// whenever the check stops for want of the right disk.
    pub fn lists_drives(&self) -> (res: bool)
        ensures
            res == (*self is DriveUnavailable || *self is WrongDisk),
    {
        match self {
            DriveStep::DriveUnavailable(_) | DriveStep::WrongDisk(_) => true,
            _ => false,
        }
    }
}

/// The next step of the check of the Windows backup drive for the backup
/// directory `destino_final` and the disk name `name_disk`, after `event`:
/// find the drive of the directory, check that it is available, then that
/// the first disk mounted on it carries the expected name.
pub fn drive_step(destino_final: &str, name_disk: &str, event: DriveEvent) -> (res: DriveStep)
    ensures
        match drive_of(destino_final@) {
            None => res is NoDriveLetter,
            Some(d) => match event {
                DriveEvent::Start => (res matches DriveStep::ProbeDrive(x) && x@ == d),
                DriveEvent::DriveProbed(true) => (res matches DriveStep::ListDisks(x) && x@ == d),
                DriveEvent::DriveProbed(false) => (res matches DriveStep::DriveUnavailable(x) && x@
                    == d),
                DriveEvent::DisksListed(disks) => match first_disk_on(disks_view(disks@), d) {
                    Some(i) => if disks_view(disks@)[i].0 == name_disk@ {
                        res is Ready
                    } else {
                        (res matches DriveStep::WrongDisk(m) && m@ == disks_view(disks@)[i].1)
                    },
                    None => res is Ready,
                },
            },
        },
{
    let drive = match extraer_letra_drive(destino_final) {
        Some(d) => d,
        None => {
            return DriveStep::NoDriveLetter;
        },
    };
    match event {
        DriveEvent::Start => DriveStep::ProbeDrive(drive),
        DriveEvent::DriveProbed(available) => {
            if available {
                DriveStep::ListDisks(drive)
            } else {
                DriveStep::DriveUnavailable(drive)
            }
        },
        DriveEvent::DisksListed(disks) => match disk_verdict(&disks, drive.as_str(), name_disk) {
            DiskVerdict::WrongDisk(m) => DriveStep::WrongDisk(m),
            _ => DriveStep::Ready,
        },
    }
}

/// The first two characters of a mount point, as `"G:"` for `"G:\"`.
pub fn drive_label(mount_point: &str) -> (res: String)
    ensures
        res@ == first_chars(mount_point@, 2),
{
    string_of(&take_chars(&chars_of(mount_point), 2))
}

} // verus!

verus! {

/// A path has a drive exactly when it holds a colon; the drive is the text
/// before the first colon followed by `:\`, so it holds exactly one colon.
pub proof fn lemma_drive_of(path: Seq<char>)
    ensures
        drive_of(path) is Some <==> path.contains(':'),
        drive_of(path) is Some ==> {
            let d = drive_of(path)->0;
            &&& d.len() >= 2
            &&& d[d.len() - 2] == ':'
            &&& d[d.len() - 1] == '\\'
            &&& d.len() - 2 < path.len() && path[d.len() - 2] == ':'
            &&& forall|j: int| 0 <= j < d.len() - 2 ==> #[trigger] d[j] != ':' && d[j] == path[j]
        },
{
    lemma_first_index_of(path, ':');
    match first_index_of(path, ':') {
        Some(i) => {
            assert(path[i] == ':');
        },
        None => {},
    }
}

} // verus!

verus! {

/// The disk that decides the verdict on a drive is the first listed disk
/// mounted on it: it is mounted on the drive and no disk before it is;
/// when there is none, no listed disk is mounted on the drive.
pub proof fn lemma_first_disk_on_is_first_match(disks: Seq<(Seq<char>, Seq<char>)>, drive: Seq<char>)
    ensures
        match first_disk_on(disks, drive) {
            Some(i) => 0 <= i < disks.len() && disks[i].1 == drive && forall|j: int|
                0 <= j < i ==> (#[trigger] disks[j]).1 != drive,
            None => forall|j: int| 0 <= j < disks.len() ==> (#[trigger] disks[j]).1 != drive,
        },
    decreases disks.len(),
{
    if disks.len() > 0 {
        lemma_first_disk_on_is_first_match(disks.drop_last(), drive);
        match first_disk_on(disks.drop_last(), drive) {
            Some(i) => {
                assert(disks[i] == disks.drop_last()[i]);
                assert forall|j: int| 0 <= j < i implies (#[trigger] disks[j]).1 != drive by {
                    assert(disks[j] == disks.drop_last()[j]);
                }
            },
            None => {
                assert forall|j: int| 0 <= j < disks.len() - 1 implies (#[trigger] disks[j]).1
                    != drive by {
                    assert(disks[j] == disks.drop_last()[j]);
                }
            },
        }
    }
}

} // verus!
