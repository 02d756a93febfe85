//! The single-instance guard: a `LOCK` file holding the owner's PID in
//! decimal, newline-terminated. Acquisition, reading and release are
//! verified over the state-directory model.
use vstd::prelude::*;
use crate::errors::SupError;
use crate::fsstate::StateDir;

verus! {

/// Decimal digit bytes of `n`, most significant first.
pub open spec fn spec_digits(n: nat) -> Seq<u8>
    decreases n,
{
    if n < 10 {
        seq![(48 + n) as u8]
    } else {
        spec_digits(n / 10).push((48 + n % 10) as u8)
    }
}

/// What the lock file must hold for owner `pid`: the decimal digits and
/// a terminating newline.
pub open spec fn spec_lock_content(pid: u32) -> Seq<u8> {
    spec_digits(pid as nat).push(10u8)
}

pub open spec fn is_digit(b: u8) -> bool {
    48 <= b <= 57
}

pub open spec fn all_digits(s: Seq<u8>) -> bool {
    forall|j: int| 0 <= j < s.len() ==> is_digit(#[trigger] s[j])
}

/// Numeric value of a digit string, most significant first.
pub open spec fn digits_val(s: Seq<u8>) -> int
    decreases s.len(),
{
    if s.len() == 0 {
        0
    } else {
        digits_val(s.drop_last()) * 10 + (s.last() - 48)
    }
}

/// Length of the first line: bytes before the first newline.
pub open spec fn spec_line_len(s: Seq<u8>) -> int
    decreases s.len(),
{
    if s.len() == 0 {
        0
    } else if s[0] == 10 {
        0
    } else {
        1 + spec_line_len(s.skip(1))
    }
}

/// How the first line of the lock file parses: the PID when the line is
/// nonempty, all digits, and fits in a `u32`; nothing otherwise.
pub open spec fn spec_parse_pid(content: Seq<u8>) -> Option<u32> {
    let line = content.take(spec_line_len(content));
    if line.len() > 0 && all_digits(line) && digits_val(line) <= u32::MAX {
        Some(digits_val(line) as u32)
    } else {
        None
    }
}

/// What reading the lock file returns for a given directory state.
pub open spec fn spec_read_lock(d: StateDir) -> Result<u32, SupError> {
    match d.lock {
        None => Err(SupError::ProcessLockIO),
        Some(b) => match spec_parse_pid(b@) {
            Some(v) => Ok(v),
            None => Err(SupError::ProcessLockCorrupt),
        },
    }
}

proof fn lemma_digits_val_nonneg(s: Seq<u8>)
    requires
        all_digits(s),
    ensures
        digits_val(s) >= 0,
    decreases s.len(),
{
    if s.len() > 0 {
        assert(all_digits(s.drop_last())) by {
            assert(forall|j: int| 0 <= j < s.len() - 1 ==> s.drop_last()[j] == s[j]);
        }
        lemma_digits_val_nonneg(s.drop_last());
    }
}

/// Reading a digit string prefix never overshoots the whole string's value.
proof fn lemma_digits_val_prefix(s: Seq<u8>, k: int)
    requires
        all_digits(s),
        0 <= k <= s.len(),
    ensures
        digits_val(s.take(k)) <= digits_val(s),
    decreases s.len() - k,
{
    if k < s.len() {
        let t = s.take(k + 1);
        assert(t.drop_last() =~= s.take(k));
        assert(all_digits(s.take(k))) by {
            assert(forall|j: int| 0 <= j < k ==> s.take(k)[j] == s[j]);
        }
        lemma_digits_val_nonneg(s.take(k));
        assert(digits_val(t) == digits_val(s.take(k)) * 10 + (s[k] - 48));
        assert(digits_val(s.take(k)) <= digits_val(s.take(k)) * 10 + (s[k] - 48)) by (nonlinear_arith)
            requires
                digits_val(s.take(k)) >= 0,
                48 <= s[k] <= 57,
        ;
        lemma_digits_val_prefix(s, k + 1);
    } else {
        assert(s.take(k) =~= s);
    }
}

/// The digits of `n` are digit bytes, contain no newline, and read back
/// as `n`.
proof fn lemma_digits_roundtrip(n: nat)
    ensures
        all_digits(spec_digits(n)),
        digits_val(spec_digits(n)) == n,
        spec_digits(n).len() >= 1,
    decreases n,
{
    if n < 10 {
        let s = spec_digits(n);
        assert(s == seq![(48 + n) as u8]);
        assert(s.len() == 1);
        assert(s.last() == (48 + n) as u8);
        assert(s.drop_last() =~= Seq::<u8>::empty());
        assert(digits_val(s.drop_last()) == 0);
        assert(digits_val(s) == 0 * 10 + ((48 + n) as u8 - 48));
    } else {
        lemma_digits_roundtrip(n / 10);
        let p = spec_digits(n / 10);
        let s = spec_digits(n);
        assert(s == p.push((48 + n % 10) as u8));
        assert(s.drop_last() =~= p);
        assert(digits_val(s) == digits_val(p) * 10 + ((48 + n % 10) - 48));
        assert(digits_val(p) * 10 + n % 10 == n) by (nonlinear_arith)
            requires
                digits_val(p) == n / 10,
                n >= 10,
        ;
        assert(forall|j: int| 0 <= j < s.len() ==> is_digit(#[trigger] s[j])) by {
            assert(forall|j: int| 0 <= j < p.len() ==> s[j] == p[j]);
        }
    }
}

/// A position with no newline before it and a newline (or the end) at it
/// is the first line's length.
proof fn lemma_line_len_at(s: Seq<u8>, i: int)
    requires
        0 <= i <= s.len(),
        forall|j: int| 0 <= j < i ==> s[j] != 10,
        i == s.len() || s[i] == 10,
    ensures
        spec_line_len(s) == i,
    decreases i,
{
    if i == 0 {
    } else {
        lemma_line_len_at(s.skip(1), i - 1);
    }
}

/// Appends the decimal digits of `n` to `out`.
pub fn push_decimal(out: &mut Vec<u8>, n: u64)
    ensures
        final(out)@ == old(out)@ + spec_digits(n as nat),
    decreases n,
{
    if n < 10 {
        out.push((48 + n) as u8);
        assert(out@ =~= old(out)@ + spec_digits(n as nat));
    } else {
        push_decimal(out, n / 10);
        out.push((48 + n % 10) as u8);
        assert(out@ =~= old(out)@ + spec_digits(n as nat));
    }
}

/// Renders the lock file content for `pid`.
pub fn render_lock_content(pid: u32) -> (r: Vec<u8>)
    ensures
        r@ == spec_lock_content(pid),
{
    let mut out: Vec<u8> = Vec::new();
    push_decimal(&mut out, pid as u64);
    out.push(10);
    assert(out@ =~= spec_lock_content(pid));
    out
}

/// First index of a newline at or after `i`, or the length.
fn find_line_end(bytes: &Vec<u8>, i: usize) -> (r: usize)
    requires
        i <= bytes@.len(),
        forall|j: int| 0 <= j < i ==> bytes@[j] != 10,
    ensures
        i <= r <= bytes@.len(),
        forall|j: int| 0 <= j < r ==> bytes@[j] != 10,
        r == bytes@.len() || bytes@[r as int] == 10,
    decreases bytes@.len() - i,
{
    if i == bytes.len() {
        i
    } else if bytes[i] == 10 {
        i
    } else {
        find_line_end(bytes, i + 1)
    }
}

/// Parses the first line of `bytes` as a decimal PID.
pub fn parse_pid(bytes: &Vec<u8>) -> (r: Result<u32, SupError>)
    ensures
        match spec_parse_pid(bytes@) {
            Some(v) => r == Ok::<u32, SupError>(v),
            None => r == Err::<u32, SupError>(SupError::ProcessLockCorrupt),
        },
{
    let line_end: usize = find_line_end(bytes, 0);
    proof {
        lemma_line_len_at(bytes@, line_end as int);
    }
    let ghost line = bytes@.take(line_end as int);
    let mut acc: u32 = 0;
    let mut j: usize = 0;
    while j < line_end
        invariant
            j <= line_end <= bytes@.len(),
            line == bytes@.take(line_end as int),
            all_digits(line.take(j as int)),
            acc == digits_val(line.take(j as int)),
            spec_line_len(bytes@) == line_end,
        decreases line_end - j,
    {
        let b = bytes[j];
        assert(line[j as int] == b);
        if b < 48 || b > 57 {
            assert(!all_digits(line));
            return Err(SupError::ProcessLockCorrupt);
        }
        let d: u32 = (b - 48) as u32;
        proof {
            assert(line.take(j + 1).drop_last() =~= line.take(j as int));
            assert(line.take(j + 1).last() == b);
            assert(all_digits(line.take(j + 1))) by {
                assert(forall|k: int| 0 <= k < j + 1 ==> line.take(j + 1)[k] == line[k]);
            }
        }
        if acc > (u32::MAX - d) / 10 {
            proof {
                assert(digits_val(line.take(j + 1)) == acc * 10 + d);
                assert(acc * 10 + d > u32::MAX) by (nonlinear_arith)
                    requires
                        acc > (u32::MAX - d) / 10,
                        0 <= d <= 9,
                ;
                if all_digits(line) {
                    lemma_digits_val_prefix(line, j + 1);
                }
            }
            return Err(SupError::ProcessLockCorrupt);
        }
        proof {
            assert(acc * 10 + d <= u32::MAX) by (nonlinear_arith)
                requires
                    acc <= (u32::MAX - d) / 10,
                    0 <= d <= 9,
            ;
        }
        acc = acc * 10 + d;
        j = j + 1;
    }
    proof {
        assert(line.take(line_end as int) =~= line);
    }
    if line_end == 0 {
        return Err(SupError::ProcessLockCorrupt);
    }
    Ok(acc)
}

/// Creates the lock file for `pid`; fails without touching anything when
/// the file already exists.
pub fn write_process_lock(dir: &mut StateDir, pid: u32) -> (r: Result<(), SupError>)
    ensures
        match old(dir).lock {
            Some(_) => r == Err::<(), SupError>(SupError::ProcessLockIO) && *final(dir) == *old(dir),
            None => {
                &&& r == Ok::<(), SupError>(())
                &&& final(dir).lock matches Some(b) && b@ == spec_lock_content(pid)
                &&& final(dir).member_id == old(dir).member_id
                &&& final(dir).data_dir == old(dir).data_dir
                &&& final(dir).specs_dir == old(dir).specs_dir
                &&& final(dir).butterfly_dat == old(dir).butterfly_dat
                &&& final(dir).butterfly_tmp == old(dir).butterfly_tmp
                &&& final(dir).census_dat == old(dir).census_dat
                &&& final(dir).census_tmp == old(dir).census_tmp
                &&& final(dir).services_dat == old(dir).services_dat
                &&& final(dir).services_tmp == old(dir).services_tmp
                &&& final(dir).health_files == old(dir).health_files
            },
        },
{
    match &dir.lock {
        Some(_) => Err(SupError::ProcessLockIO),
        None => {
            dir.lock = Some(render_lock_content(pid));
            Ok(())
        },
    }
}

/// Reads the owner PID out of the lock file.
pub fn read_process_lock(dir: &StateDir) -> (r: Result<u32, SupError>)
    ensures
        r == spec_read_lock(*dir),
{
    match &dir.lock {
        None => Err(SupError::ProcessLockIO),
        Some(b) => parse_pid(b),
    }
}

/// Removes the lock file; removing an absent file is a no-op.
pub fn release_process_lock(dir: &mut StateDir)
    ensures
        final(dir).lock is None,
        final(dir).member_id == old(dir).member_id,
        final(dir).data_dir == old(dir).data_dir,
        final(dir).specs_dir == old(dir).specs_dir,
        final(dir).butterfly_dat == old(dir).butterfly_dat,
        final(dir).butterfly_tmp == old(dir).butterfly_tmp,
        final(dir).census_dat == old(dir).census_dat,
        final(dir).census_tmp == old(dir).census_tmp,
        final(dir).services_dat == old(dir).services_dat,
        final(dir).services_tmp == old(dir).services_tmp,
        final(dir).health_files == old(dir).health_files,
{
    dir.lock = None;
}

/// Whether `pid` is among the PIDs alive at the time of the check.
fn pid_alive(live_pids: &Vec<u32>, pid: u32) -> (r: bool)
    ensures
        r == live_pids@.contains(pid),
{
    let mut i: usize = 0;
    while i < live_pids.len()
        invariant
            i <= live_pids@.len(),
            forall|j: int| 0 <= j < i ==> live_pids@[j] != pid,
        decreases live_pids@.len() - i,
    {
        if live_pids[i] == pid {
            return true;
        }
        i = i + 1;
    }
    false
}

/// Acquires the single-instance lock for `my_pid`. An existing lock held
/// by a live process is contention; a stale or corrupt lock is replaced.
/// `live_pids` is the set of PIDs alive at the time of the check.
pub fn obtain_process_lock(dir: &mut StateDir, my_pid: u32, live_pids: &Vec<u32>) -> (r: Result<
    (),
    SupError,
>)
    ensures
        match old(dir).lock {
            None => r == Ok::<(), SupError>(()),
            Some(b) => match spec_parse_pid(b@) {
                Some(pid) => if live_pids@.contains(pid) {
                    r == Err::<(), SupError>(SupError::ProcessLocked(pid)) && *final(dir) == *old(dir)
                } else {
                    r == Ok::<(), SupError>(())
                },
                None => r == Ok::<(), SupError>(()),
            },
        },
        r is Ok ==> (final(dir).lock matches Some(b) && b@ == spec_lock_content(my_pid)),
        final(dir).member_id == old(dir).member_id,
        final(dir).data_dir == old(dir).data_dir,
        final(dir).specs_dir == old(dir).specs_dir,
        final(dir).butterfly_dat == old(dir).butterfly_dat,
        final(dir).butterfly_tmp == old(dir).butterfly_tmp,
        final(dir).census_dat == old(dir).census_dat,
        final(dir).census_tmp == old(dir).census_tmp,
        final(dir).services_dat == old(dir).services_dat,
        final(dir).services_tmp == old(dir).services_tmp,
        final(dir).health_files == old(dir).health_files,
{
    match write_process_lock(dir, my_pid) {
        Ok(()) => Ok(()),
        Err(_) => {
            match read_process_lock(dir) {
                Ok(pid) => {
                    if pid_alive(live_pids, pid) {
                        return Err(SupError::ProcessLocked(pid));
                    }
                    release_process_lock(dir);
                    write_process_lock(dir, my_pid)
                },
                Err(_) => {
                    release_process_lock(dir);
                    write_process_lock(dir, my_pid)
                },
            }
        },
    }
}

/// Holding the process lock means a read returns the holder's PID;
/// releasing the lock means a read fails with the I/O error of an
/// absent file.
pub proof fn lemma_lock_visibility(held: StateDir, released: StateDir, pid: u32)
    requires
        held.lock matches Some(b) && b@ == spec_lock_content(pid),
        released.lock is None,
    ensures
        spec_read_lock(held) == Ok::<u32, SupError>(pid),
        spec_read_lock(released) == Err::<u32, SupError>(SupError::ProcessLockIO),
{
    let content = spec_lock_content(pid);
    lemma_digits_roundtrip(pid as nat);
    let digits = spec_digits(pid as nat);
    assert(forall|j: int| 0 <= j < digits.len() ==> content[j] != 10) by {
        assert(forall|j: int| 0 <= j < digits.len() ==> content[j] == digits[j]);
    }
    lemma_line_len_at(content, digits.len() as int);
    assert(content.take(digits.len() as int) =~= digits);
}

} // verus!
