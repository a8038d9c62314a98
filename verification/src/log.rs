//! The rotation policy of the local log: one live file plus exactly one
//! previous generation, replaced (not accumulated) on rotation, so at most
//! twice the size cap survives on disk and the newest bytes always do.
//!
//! The file operations themselves belong to the caller; this module names
//! the two files and decides when to rotate and which files to list.

use vstd::prelude::*;
use crate::text::concat;

verus! {

/// A local, size-capped, rotating log: `<base>.log` and
/// `<base>-previous.log` in `directory`.
pub struct RotatingLogFile {
    pub directory: String,
    pub file_name: String,
    pub rotated_name: String,
    pub max_bytes: u64,
}

/// The live file's name for the base name `base`.
pub open spec fn live_name(base: Seq<char>) -> Seq<char> {
    base + ".log"@
}

/// The previous generation's name for the base name `base`.
pub open spec fn previous_name(base: Seq<char>) -> Seq<char> {
    base + "-previous.log"@
}

/// Whether appending `data_len` bytes to a live file of `current_size`
/// bytes would push it past `max_bytes`, so that it must rotate first.
pub open spec fn spec_should_rotate(current_size: u64, data_len: u64, max_bytes: u64) -> bool {
    current_size + data_len > max_bytes
}

impl RotatingLogFile {
    /// The log named `base_name` in `directory`, rotating past `max_bytes`.
    pub fn new(directory: String, base_name: &str, max_bytes: u64) -> (log: Self)
        ensures
            log.directory == directory,
            log.file_name@ == live_name(base_name@),
            log.rotated_name@ == previous_name(base_name@),
            log.max_bytes == max_bytes,
    {
        RotatingLogFile {
            directory,
            file_name: concat(base_name, ".log"),
            rotated_name: concat(base_name, "-previous.log"),
            max_bytes,
        }
    }

    /// Whether an append of `data_len` bytes to a live file of
    /// `current_size` bytes must rotate first.
    pub fn should_rotate(&self, current_size: u64, data_len: u64) -> (r: bool)
        requires
            current_size + data_len <= u64::MAX,
        ensures
            r == spec_should_rotate(current_size, data_len, self.max_bytes),
    {
        current_size + data_len > self.max_bytes
    }

    /// The names of the log files that exist, live first, given whether each
    /// exists on disk.
    pub fn existing_files(&self, live_exists: bool, previous_exists: bool) -> (names: Vec<String>)
        ensures
            names@.len() == (if live_exists { 1int } else { 0int }) + (if previous_exists { 1int } else { 0int }),
            live_exists ==> names@[0]@ == self.file_name@,
            previous_exists ==> names@[names@.len() - 1]@ == self.rotated_name@,
    {
        let mut names: Vec<String> = Vec::new();
        if live_exists {
            names.push(self.file_name.clone());
        }
        if previous_exists {
            names.push(self.rotated_name.clone());
        }
        names
    }
}

/// The live file's size after appending `data_len` bytes to one of
/// `current_size` bytes: just the new bytes when the append rotated first,
/// else the two together.
pub open spec fn live_size_after(current_size: u64, data_len: u64, max_bytes: u64) -> int {
    if spec_should_rotate(current_size, data_len, max_bytes) {
        data_len as int
    } else {
        current_size + data_len
    }
}

/// Rotation keeps the live file within the cap, unless one append alone
/// exceeds it, in which case the live file holds exactly that append.
pub proof fn lemma_rotation_bounds_the_live_file(current_size: u64, data_len: u64, max_bytes: u64)
    ensures
        live_size_after(current_size, data_len, max_bytes) <= max_bytes
            || live_size_after(current_size, data_len, max_bytes) == data_len,
        data_len <= max_bytes ==> live_size_after(current_size, data_len, max_bytes) <= max_bytes,
{
}

/// The sizes of the live and the previous file after appending `data_len`
/// bytes: a rotation makes the live file the previous one and starts a new
/// live file with the append; otherwise the append grows the live file.
pub open spec fn sizes_after(sizes: (int, int), data_len: int, max_bytes: int) -> (int, int) {
    if sizes.0 + data_len > max_bytes {
        (data_len, sizes.0)
    } else {
        (sizes.0 + data_len, sizes.1)
    }
}

/// The sizes of the two files after a run of appends, in order.
pub open spec fn sizes_after_appends(sizes: (int, int), appends: Seq<int>, max_bytes: int) -> (int, int)
    decreases appends.len(),
{
    if appends.len() == 0 {
        sizes
    } else {
        sizes_after_appends(sizes_after(sizes, appends[0], max_bytes), appends.drop_first(), max_bytes)
    }
}

/// One append moves the live file's size as [`RotatingLogFile::should_rotate`]
/// decides.
pub proof fn lemma_sizes_follow_the_rotation_rule(current_size: u64, previous_size: int, data_len: u64, max_bytes: u64)
    ensures
        sizes_after((current_size as int, previous_size), data_len as int, max_bytes as int).0 == live_size_after(
            current_size,
            data_len,
            max_bytes,
        ),
{
}

/// However many appends follow, each no larger than the cap, the live and
/// the previous file each stay within the cap, so the two together never
/// hold more than twice it. (An append larger than the cap is kept whole in
/// the live file, so the bound does not hold for such appends.)
pub proof fn lemma_log_stays_within_twice_the_cap(sizes: (int, int), appends: Seq<int>, max_bytes: int)
    requires
        0 <= sizes.0 <= max_bytes,
        0 <= sizes.1 <= max_bytes,
        forall|i: int| 0 <= i < appends.len() ==> 0 <= #[trigger] appends[i] <= max_bytes,
    ensures
        0 <= sizes_after_appends(sizes, appends, max_bytes).0 <= max_bytes,
        0 <= sizes_after_appends(sizes, appends, max_bytes).1 <= max_bytes,
        sizes_after_appends(sizes, appends, max_bytes).0 + sizes_after_appends(sizes, appends, max_bytes).1 <= 2
            * max_bytes,
    decreases appends.len(),
{
    if appends.len() > 0 {
        let next = sizes_after(sizes, appends[0], max_bytes);
        assert forall|i: int| 0 <= i < appends.drop_first().len() implies 0 <= #[trigger] appends.drop_first()[i]
            <= max_bytes by {
            assert(appends.drop_first()[i] == appends[i + 1]);
        }
        lemma_log_stays_within_twice_the_cap(next, appends.drop_first(), max_bytes);
    }
}

} // verus!
