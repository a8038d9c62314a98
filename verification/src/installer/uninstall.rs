//! Uninstall: removes the driver package, the core's logon task and the
//! tray's autostart entry, in that order, then checks that no orphaned
//! device interface (a lingering virtual display) remains. Each removal sits
//! behind a trait; finding the driver's published package name in the
//! package installer's listing is here.

use vstd::prelude::*;
use crate::text::{chars_of, concat, spec_trim, string_from_chars, trim};
use super::autostart::AUTOSTART_VALUE_NAME;
use super::driver_install::DeviceInterfaceCheck;
use super::scheduled_task::TASK_NAME;

verus! {

/// A specific uninstall failure.
#[derive(Debug, PartialEq, Eq)]
pub enum UninstallError {
    DriverRemovalFailed { detail: String },
    ScheduledTaskRemovalFailed { detail: String },
    AutostartRemovalFailed { detail: String },
    /// The driver's device interface is still present afterwards: an
    /// orphaned virtual display.
    OrphanedDeviceInterfaceRemains,
}

impl UninstallError {
    /// A description of the failure for the user.
    pub fn describe(&self) -> (text: String)
        ensures
            text@ == match *self {
                UninstallError::DriverRemovalFailed { detail } => "failed to remove the driver package: "@ + detail@,
                UninstallError::ScheduledTaskRemovalFailed { detail } => "failed to remove the windows-core Scheduled Task: "@
                    + detail@,
                UninstallError::AutostartRemovalFailed { detail } => "failed to remove the windows-tray autostart entry: "@
                    + detail@,
                UninstallError::OrphanedDeviceInterfaceRemains =>
                    "the driver's device interface is still present after uninstall (orphaned virtual display)"@,
            },
    {
        match self {
            UninstallError::DriverRemovalFailed { detail } => concat("failed to remove the driver package: ", detail.as_str()),
            UninstallError::ScheduledTaskRemovalFailed { detail } => concat(
                "failed to remove the windows-core Scheduled Task: ",
                detail.as_str(),
            ),
            UninstallError::AutostartRemovalFailed { detail } => concat(
                "failed to remove the windows-tray autostart entry: ",
                detail.as_str(),
            ),
            UninstallError::OrphanedDeviceInterfaceRemains => String::from_str(
                "the driver's device interface is still present after uninstall (orphaned virtual display)",
            ),
        }
    }
}

/// "Remove the driver package"; an absent package is not a failure.
pub trait DriverRemover {
    /// Whether removing the package may give `r`. A remover that says no
    /// more allows every result.
    closed spec fn may_remove(&self, r: Result<(), String>) -> bool {
        true
    }

    /// Whether this remover keeps the record [`DriverRemover::removals`].
    /// One that does not keeps none.
    closed spec fn keeps_record(&self) -> bool {
        false
    }

    /// The result of every removal so far, in order, where the remover
    /// keeps the record.
    closed spec fn removals(&self) -> Seq<Result<(), String>> {
        Seq::empty()
    }

    fn remove(&mut self) -> (r: Result<(), String>)
        ensures
            old(self).may_remove(r),
            final(self).keeps_record() == old(self).keeps_record(),
            old(self).keeps_record() ==> final(self).removals() == old(self).removals().push(r),
    ;
}

/// "Delete the task named `task_name`"; an absent task is not a failure.
pub trait ScheduledTaskRemover {
    /// Whether deleting the task `task_name` may give `r`. A remover that
    /// says no more allows every result.
    closed spec fn may_remove(&self, task_name: Seq<char>, r: Result<(), String>) -> bool {
        true
    }

    /// Whether this remover keeps the record [`ScheduledTaskRemover::removals`].
    /// One that does not keeps none.
    closed spec fn keeps_record(&self) -> bool {
        false
    }

    /// Every removal so far, with the name it was given and its result, in
    /// order, where the remover keeps the record.
    closed spec fn removals(&self) -> Seq<(Seq<char>, Result<(), String>)> {
        Seq::empty()
    }

    fn remove(&mut self, task_name: &str) -> (r: Result<(), String>)
        ensures
            old(self).may_remove(task_name@, r),
            final(self).keeps_record() == old(self).keeps_record(),
            old(self).keeps_record() ==> final(self).removals() == old(self).removals().push((task_name@, r)),
    ;
}

/// "Delete the `Run` value `value_name`"; an absent value is not a failure.
pub trait AutostartRemover {
    /// Whether deleting the value `value_name` may give `r`. A remover that
    /// says no more allows every result.
    closed spec fn may_remove(&self, value_name: Seq<char>, r: Result<(), String>) -> bool {
        true
    }

    /// Whether this remover keeps the record [`AutostartRemover::removals`].
    /// One that does not keeps none.
    closed spec fn keeps_record(&self) -> bool {
        false
    }

    /// Every removal so far, with the name it was given and its result, in
    /// order, where the remover keeps the record.
    closed spec fn removals(&self) -> Seq<(Seq<char>, Result<(), String>)> {
        Seq::empty()
    }

    fn remove(&mut self, value_name: &str) -> (r: Result<(), String>)
        ensures
            old(self).may_remove(value_name@, r),
            final(self).keeps_record() == old(self).keeps_record(),
            old(self).keeps_record() ==> final(self).removals() == old(self).removals().push((value_name@, r)),
    ;
}

/// The part of setup a removal undoes.
#[derive(Debug, Clone, Copy, PartialEq, Eq, Structural)]
pub enum Removal {
    DriverPackage,
    ScheduledTask,
    Autostart,
}

/// What one removal's result amounts to: nothing on success, else that
/// removal's failure with the remover's detail.
pub open spec fn spec_removal_step(removal: Removal, result: Result<(), String>) -> Result<(), UninstallError> {
    match result {
        Ok(()) => Ok(()),
        Err(detail) => Err(
            match removal {
                Removal::DriverPackage => UninstallError::DriverRemovalFailed { detail },
                Removal::ScheduledTask => UninstallError::ScheduledTaskRemovalFailed { detail },
                Removal::Autostart => UninstallError::AutostartRemovalFailed { detail },
            },
        ),
    }
}

/// Classifies one removal's result.
pub fn removal_step(removal: Removal, result: Result<(), String>) -> (r: Result<(), UninstallError>)
    ensures
        r == spec_removal_step(removal, result),
{
    match result {
        Ok(()) => Ok(()),
        Err(detail) => Err(
            match removal {
                Removal::DriverPackage => UninstallError::DriverRemovalFailed { detail },
                Removal::ScheduledTask => UninstallError::ScheduledTaskRemovalFailed { detail },
                Removal::Autostart => UninstallError::AutostartRemovalFailed { detail },
            },
        ),
    }
}

/// What an uninstall amounts to, from the three removals' results and the
/// interface check's answer: the first failed removal, in order, else the
/// orphaned interface when it is still available, else success.
pub open spec fn spec_uninstall_outcome(
    driver: Result<(), String>,
    task: Result<(), String>,
    autostart: Result<(), String>,
    interface_available: bool,
) -> Result<(), UninstallError> {
    match spec_removal_step(Removal::DriverPackage, driver) {
        Err(e) => Err(e),
        Ok(()) => match spec_removal_step(Removal::ScheduledTask, task) {
            Err(e) => Err(e),
            Ok(()) => match spec_removal_step(Removal::Autostart, autostart) {
                Err(e) => Err(e),
                Ok(()) => if interface_available {
                    Err(UninstallError::OrphanedDeviceInterfaceRemains)
                } else {
                    Ok(())
                },
            },
        },
    }
}

/// The uninstall outcome for the removals' results and the check's answer.
pub fn uninstall_outcome(
    driver: Result<(), String>,
    task: Result<(), String>,
    autostart: Result<(), String>,
    interface_available: bool,
) -> (r: Result<(), UninstallError>)
    ensures
        r == spec_uninstall_outcome(driver, task, autostart, interface_available),
{
    removal_step(Removal::DriverPackage, driver)?;
    removal_step(Removal::ScheduledTask, task)?;
    removal_step(Removal::Autostart, autostart)?;
    if interface_available {
        Err(UninstallError::OrphanedDeviceInterfaceRemains)
    } else {
        Ok(())
    }
}

/// Removes everything setup installed: the driver package, then the core's
/// task (named [`TASK_NAME`]), then the tray's autostart entry (named
/// [`AUTOSTART_VALUE_NAME`]), stopping at the first failure; then fails if
/// the driver's device interface is still present. Each step runs once, only
/// when the ones before it succeeded; a step that does not run leaves its
/// object untouched.
pub fn uninstall<D: DriverRemover, T: ScheduledTaskRemover, A: AutostartRemover, C: DeviceInterfaceCheck>(
    driver: &mut D,
    scheduled_task: &mut T,
    autostart: &mut A,
    interface_check: &mut C,
) -> (r: Result<(), UninstallError>)
    ensures
        exists|d: Result<(), String>, t: Result<(), String>, a: Result<(), String>, available: bool|
            {
                &&& old(driver).may_remove(d)
                &&& final(driver).keeps_record() == old(driver).keeps_record()
                &&& old(driver).keeps_record() ==> final(driver).removals() == old(driver).removals().push(d)
                &&& d is Ok ==> {
                    &&& old(scheduled_task).may_remove(TASK_NAME@, t)
                    &&& final(scheduled_task).keeps_record() == old(scheduled_task).keeps_record()
                    &&& old(scheduled_task).keeps_record() ==> final(scheduled_task).removals() == old(
                        scheduled_task,
                    ).removals().push((TASK_NAME@, t))
                }
                &&& d is Err ==> *final(scheduled_task) == *old(scheduled_task)
                &&& d is Ok && t is Ok ==> {
                    &&& old(autostart).may_remove(AUTOSTART_VALUE_NAME@, a)
                    &&& final(autostart).keeps_record() == old(autostart).keeps_record()
                    &&& old(autostart).keeps_record() ==> final(autostart).removals() == old(
                        autostart,
                    ).removals().push((AUTOSTART_VALUE_NAME@, a))
                }
                &&& !(d is Ok && t is Ok) ==> *final(autostart) == *old(autostart)
                &&& d is Ok && t is Ok && a is Ok ==> {
                    &&& old(interface_check).may_answer(available)
                    &&& final(interface_check).keeps_record() == old(interface_check).keeps_record()
                    &&& old(interface_check).keeps_record() ==> final(interface_check).answers() == old(
                        interface_check,
                    ).answers().push(available)
                }
                &&& !(d is Ok && t is Ok && a is Ok) ==> *final(interface_check) == *old(interface_check)
                &&& r == spec_uninstall_outcome(d, t, a, available)
            },
{
    let d = driver.remove();
    let ghost gd = d;
    if let Err(detail) = d {
        let r = removal_step(Removal::DriverPackage, Err(detail));
        assert(r == spec_uninstall_outcome(gd, Ok(()), Ok(()), false));
        return r;
    }
    let t = scheduled_task.remove(TASK_NAME);
    let ghost gt = t;
    if let Err(detail) = t {
        let r = removal_step(Removal::ScheduledTask, Err(detail));
        assert(r == spec_uninstall_outcome(gd, gt, Ok(()), false));
        return r;
    }
    let a = autostart.remove(AUTOSTART_VALUE_NAME);
    let ghost ga = a;
    if let Err(detail) = a {
        let r = removal_step(Removal::Autostart, Err(detail));
        assert(r == spec_uninstall_outcome(gd, gt, ga, false));
        return r;
    }
    let available = interface_check.is_available();
    let r = uninstall_outcome(Ok(()), Ok(()), Ok(()), available);
    assert(r == spec_uninstall_outcome(gd, gt, ga, available));
    r
}

/// The lines of `s`, split at each `\n` (a final empty piece after a
/// trailing `\n` included).
pub open spec fn split_lines(s: Seq<char>) -> Seq<Seq<char>>
    decreases s.len(),
{
    if s.len() == 0 {
        seq![seq![]]
    } else {
        let rest = split_lines(s.drop_last());
        if s.last() == '\n' {
            rest.push(seq![])
        } else {
            rest.update(rest.len() - 1, rest.last().push(s.last()))
        }
    }
}

/// What follows the prefix `p` in `s`, when `s` starts with it.
pub open spec fn spec_strip_prefix(s: Seq<char>, p: Seq<char>) -> Option<Seq<char>> {
    if p.len() <= s.len() && s.take(p.len() as int) == p {
        Some(s.skip(p.len() as int))
    } else {
        None
    }
}

/// `c` with an ASCII capital letter made small.
pub open spec fn ascii_lower(c: char) -> char {
    if 'A' <= c <= 'Z' {
        ((c as u32) + 32) as char
    } else {
        c
    }
}

/// Whether `a` and `b` are equal but for the case of ASCII letters.
pub open spec fn spec_eq_ignore_ascii_case(a: Seq<char>, b: Seq<char>) -> bool {
    a.len() == b.len() && forall|i: int| 0 <= i < a.len() ==> ascii_lower(#[trigger] a[i]) == ascii_lower(b[i])
}

/// Scans a driver listing's lines: each `Published Name:` line sets the
/// name of the package being described; the first `Original Name:` line
/// naming `original` (case aside) gives the name set before it, if any.
/// Lines are read with surrounding white space trimmed.
pub open spec fn published_scan(lines: Seq<Seq<char>>, original: Seq<char>, current: Option<Seq<char>>) -> Option<Seq<char>>
    decreases lines.len(),
{
    if lines.len() == 0 {
        None
    } else {
        let line = spec_trim(lines[0]);
        match spec_strip_prefix(line, "Published Name:"@) {
            Some(v) => published_scan(lines.drop_first(), original, Some(spec_trim(v))),
            None => match spec_strip_prefix(line, "Original Name:"@) {
                Some(v) => if spec_eq_ignore_ascii_case(spec_trim(v), original) {
                    current
                } else {
                    published_scan(lines.drop_first(), original, current)
                },
                None => published_scan(lines.drop_first(), original, current),
            },
        }
    }
}

/// The views of a list of lines.
pub open spec fn lines_view(lines: Seq<Vec<char>>) -> Seq<Seq<char>> {
    lines.map_values(|l: Vec<char>| l@)
}

proof fn lemma_split_lines_nonempty(s: Seq<char>)
    ensures
        split_lines(s).len() >= 1,
    decreases s.len(),
{
    if s.len() > 0 {
        lemma_split_lines_nonempty(s.drop_last());
    }
}

fn split_lines_of(cs: &Vec<char>) -> (lines: Vec<Vec<char>>)
    ensures
        lines_view(lines@) == split_lines(cs@),
{
    let mut lines: Vec<Vec<char>> = Vec::new();
    lines.push(Vec::new());
    assert(lines_view(lines@) =~= split_lines(cs@.take(0)));
    let mut i: usize = 0;
    while i < cs.len()
        invariant
            i <= cs@.len(),
            lines_view(lines@) == split_lines(cs@.take(i as int)),
            lines@.len() >= 1,
        decreases cs@.len() - i,
    {
        let c = cs[i];
        let ghost before = lines@;
        assert(cs@.take(i + 1).drop_last() == cs@.take(i as int));
        assert(cs@.take(i + 1).last() == c);
        if c == '\n' {
            lines.push(Vec::new());
            assert(lines_view(lines@) =~= lines_view(before).push(seq![]));
        } else {
            let mut last = lines.pop().unwrap();
            last.push(c);
            lines.push(last);
            assert(lines_view(lines@) =~= lines_view(before).update(
                lines_view(before).len() - 1,
                lines_view(before).last().push(c),
            ));
        }
        i = i + 1;
    }
    assert(cs@.take(cs@.len() as int) == cs@);
    lines
}

fn strip_prefix_of(s: &Vec<char>, p: &str) -> (r: Option<Vec<char>>)
    ensures
        match r {
            Some(v) => spec_strip_prefix(s@, p@) == Some(v@),
            None => spec_strip_prefix(s@, p@) is None,
        },
{
    let pc = chars_of(p);
    if pc.len() > s.len() {
        return None;
    }
    let mut i: usize = 0;
    while i < pc.len()
        invariant
            i <= pc@.len() <= s@.len(),
            pc@ == p@,
            forall|k: int| 0 <= k < i ==> s@[k] == pc@[k],
        decreases pc@.len() - i,
    {
        if s[i] != pc[i] {
            assert(s@.take(pc@.len() as int)[i as int] != p@[i as int]);
            return None;
        }
        i = i + 1;
    }
    assert(s@.take(pc@.len() as int) =~= p@);
    let mut rest: Vec<char> = Vec::new();
    let mut j: usize = pc.len();
    while j < s.len()
        invariant
            pc@.len() <= j <= s@.len(),
            rest@ == s@.subrange(pc@.len() as int, j as int),
        decreases s@.len() - j,
    {
        rest.push(s[j]);
        assert(s@.subrange(pc@.len() as int, j + 1) == s@.subrange(pc@.len() as int, j as int).push(s@[j as int]));
        j = j + 1;
    }
    assert(rest@ =~= s@.skip(pc@.len() as int));
    Some(rest)
}

fn to_ascii_lower(c: char) -> (r: char)
    ensures
        r == ascii_lower(c),
{
    if 'A' <= c && c <= 'Z' {
        ((c as u8) + 32) as char
    } else {
        c
    }
}

fn eq_ignore_ascii_case(a: &Vec<char>, b: &Vec<char>) -> (r: bool)
    ensures
        r == spec_eq_ignore_ascii_case(a@, b@),
{
    if a.len() != b.len() {
        return false;
    }
    let mut i: usize = 0;
    while i < a.len()
        invariant
            i <= a@.len() == b@.len(),
            forall|k: int| 0 <= k < i ==> ascii_lower(#[trigger] a@[k]) == ascii_lower(b@[k]),
        decreases a@.len() - i,
    {
        if to_ascii_lower(a[i]) != to_ascii_lower(b[i]) {
            return false;
        }
        i = i + 1;
    }
    true
}

fn trim_chars(cs: &Vec<char>) -> (r: Vec<char>)
    ensures
        r@ == spec_trim(cs@),
{
    chars_of(trim(string_from_chars(cs.as_slice()).as_str()).as_str())
}

/// Finds, in the package installer's driver listing, the published name
/// (`oemNN.inf`) of the package whose original name is `original_inf_name`
/// (case aside): the `Published Name:` most recently listed before the first
/// matching `Original Name:` line, or `None` when no line matches or none
/// precedes it.
pub fn find_published_name_for(listing: &str, original_inf_name: &str) -> (r: Option<String>)
    ensures
        match r {
            Some(name) => published_scan(split_lines(listing@), original_inf_name@, None) == Some(name@),
            None => published_scan(split_lines(listing@), original_inf_name@, None) is None,
        },
{
    let cs = chars_of(listing);
    let lines = split_lines_of(&cs);
    let original = chars_of(original_inf_name);
    let mut current: Option<Vec<char>> = None;
    let mut i: usize = 0;
    assert(lines_view(lines@).skip(0) == lines_view(lines@));
    while i < lines.len()
        invariant
            i <= lines@.len(),
            original@ == original_inf_name@,
            published_scan(split_lines(listing@), original_inf_name@, None) == published_scan(
                lines_view(lines@).skip(i as int),
                original_inf_name@,
                match current {
                    Some(c) => Some(c@),
                    None => None,
                },
            ),
            lines_view(lines@) == split_lines(cs@),
            cs@ == listing@,
        decreases lines@.len() - i,
    {
        let ghost rest = lines_view(lines@).skip(i as int);
        assert(rest[0] == lines@[i as int]@);
        assert(rest.drop_first() == lines_view(lines@).skip(i + 1));
        let line = trim_chars(&lines[i]);
        match strip_prefix_of(&line, "Published Name:") {
            Some(v) => {
                current = Some(trim_chars(&v));
            },
            None => {
                match strip_prefix_of(&line, "Original Name:") {
                    Some(v) => {
                        let name = trim_chars(&v);
                        if eq_ignore_ascii_case(&name, &original) {
                            return match current {
                                Some(c) => Some(string_from_chars(c.as_slice())),
                                None => None,
                            };
                        }
                    },
                    None => {},
                }
            },
        }
        i = i + 1;
    }
    None
}

} // verus!
