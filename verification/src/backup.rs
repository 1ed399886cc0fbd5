//! Backups: the copy of a file that is made before the file is changed.
//!
//! A backup lies beside its file, under the file's name with the moment of
//! the backup behind it: `<name>.backup_<YYYYMMDD_HHMMSS>`. Making the copy
//! is the caller's part; naming it is done here, and so is refusing a name
//! that is taken: a backup is never copied over.

use crate::error::AuthError;
use crate::text::{concat, digit, hex_digit};
use chrono::{Datelike, Timelike};
use vstd::prelude::*;
use vstd::string::*;

verus! {

/// What the clock shows, as it was read.
#[derive(Debug, Clone, Copy, PartialEq, Eq)]
pub struct ClockReading {
    pub year: i32,
    pub month: u32,
    pub day: u32,
    pub hour: u32,
    pub minute: u32,
    pub second: u32,
}

/// The local date and time of `chrono::Local::now`, field by field. Nothing
/// is claimed of the fields: what they hold is checked where a reading is
/// made into a `Timestamp`. (The call does not return where the system's
/// clock stands before 1970.)
#[verifier::external_body]
fn read_clock() -> ClockReading {
    let now = chrono::Local::now();
    ClockReading {
        year: now.year(),
        month: now.month(),
        day: now.day(),
        hour: now.hour(),
        minute: now.minute(),
        second: now.second(),
    }
}

/// Whether a reading is a moment of a year with four digits.
pub open spec fn is_moment(reading: ClockReading) -> bool {
    &&& 0 <= reading.year <= 9999
    &&& 1 <= reading.month <= 12
    &&& 1 <= reading.day <= 31
    &&& reading.hour <= 23
    &&& reading.minute <= 59
    &&& reading.second <= 59
}

/// A moment, to the second.
#[derive(Debug, Clone, Copy, PartialEq, Eq)]
pub struct Timestamp {
    reading: ClockReading,
}

/// The two decimal digits of a number below a hundred.
pub open spec fn two_digits(n: int) -> Seq<char> {
    seq![hex_digit(n / 10, false), hex_digit(n % 10, false)]
}

/// The text of a moment: year, month and day, an underscore, then hour,
/// minute and second; four digits for the year and two for each other.
pub open spec fn stamp_text(reading: ClockReading) -> Seq<char> {
    two_digits(reading.year as int / 100) + two_digits(reading.year as int % 100) + two_digits(reading.month as int)
        + two_digits(reading.day as int) + seq!['_'] + two_digits(reading.hour as int) + two_digits(
        reading.minute as int,
    ) + two_digits(reading.second as int)
}

fn push_two_digits(out: &mut String, n: u32)
    requires
        n < 100,
    ensures
        final(out)@ == old(out)@ + two_digits(n as int),
{
    out.append(digit((n / 10) as u8, false));
    out.append(digit((n % 10) as u8, false));
    assert(out@ =~= old(out)@ + two_digits(n as int));
}

impl Timestamp {
    #[verifier::type_invariant]
    spec fn valid(self) -> bool {
        is_moment(self.reading)
    }

    /// The reading that this moment was made from.
    pub closed spec fn reading(self) -> ClockReading {
        self.reading
    }

    /// The moment that a reading shows; `None` where the reading is none: a
    /// month, day, hour, minute or second out of range, or a year that four
    /// digits cannot tell.
    pub fn new(reading: ClockReading) -> (r: Option<Self>)
        ensures
            match r {
                Some(stamp) => is_moment(reading) && stamp.reading() == reading,
                None => !is_moment(reading),
            },
    {
        if 0 <= reading.year && reading.year <= 9999 && 1 <= reading.month && reading.month <= 12 && 1
            <= reading.day && reading.day <= 31 && reading.hour <= 23 && reading.minute <= 59 && reading.second
            <= 59 {
            Some(Timestamp { reading })
        } else {
            None
        }
    }

    /// The present moment by the local clock; `None` where the clock shows
    /// what `new` refuses.
    pub fn now() -> (r: Option<Self>)
        ensures
            r matches Some(stamp) ==> is_moment(stamp.reading()),
    {
        Timestamp::new(read_clock())
    }

    /// The text of the moment, as it stands in the name of a backup.
    pub fn text(&self) -> (r: String)
        ensures
            is_moment(self.reading()),
            r@ == stamp_text(self.reading()),
            r@.len() == 15,
    {
        proof {
            use_type_invariant(self);
            reveal_strlit("_");
        }
        assert("_"@ =~= seq!['_']);
        let year = self.reading.year as u32;
        let mut out = String::new();
        push_two_digits(&mut out, year / 100);
        push_two_digits(&mut out, year % 100);
        push_two_digits(&mut out, self.reading.month);
        push_two_digits(&mut out, self.reading.day);
        out.append("_");
        push_two_digits(&mut out, self.reading.hour);
        push_two_digits(&mut out, self.reading.minute);
        push_two_digits(&mut out, self.reading.second);
        assert(out@ =~= stamp_text(self.reading));
        out
    }
}

/// What stands behind the name of a file in the name of its backup.
pub open spec fn backup_suffix(reading: ClockReading) -> Seq<char> {
    ".backup_"@ + stamp_text(reading)
}

/// The name of the backup of `path` made at a moment.
pub open spec fn backup_name(path: Seq<char>, reading: ClockReading) -> Seq<char> {
    path + backup_suffix(reading)
}

/// Names the backup of `path` made at the moment `stamp`.
///
/// A file that does not exist needs no backup, and the answer is `None`.
/// For a file that exists the answer is the name to copy it to: the name of
/// the file with the moment behind it, and so another name than the file's.
pub fn backup_file_at(path: &str, exists: bool, stamp: &Timestamp) -> (r: Option<String>)
    ensures
        match r {
            Some(name) => exists && name@ == backup_name(path@, stamp.reading()) && name@ != path@,
            None => !exists,
        },
{
    if !exists {
        return None;
    }
    let moment = stamp.text();
    let mut name = path.to_owned();
    name.append(".backup_");
    name.append(moment.as_str());
    proof {
        reveal_strlit(".backup_");
        assert(name@ =~= backup_name(path@, stamp.reading()));
        assert(name@.len() == path@.len() + 23);
    }
    Some(name)
}

/// What the error says where the clock shows no moment.
pub open spec fn clock_failure() -> Seq<char> {
    "无法读取系统时间"@
}

/// Names the backup that is due now, before `path` is changed.
///
/// A file that does not exist needs no backup: the answer is `None`, and the
/// clock is not read. For a file that exists the answer is the name to copy
/// it to, made with the present moment. Where the clock shows no moment the
/// answer is an `Io` error: without a backup the file must not be changed.
pub fn backup_file(path: &str, exists: bool) -> (r: Result<Option<String>, AuthError>)
    ensures
        match r {
            Ok(Some(name)) => exists && name@ != path@ && exists|reading: ClockReading|
                is_moment(reading) && name@ == #[trigger] backup_name(path@, reading),
            Ok(None) => !exists,
            Err(e) => exists && (e matches AuthError::Io(text) && text@ == clock_failure()),
        },
{
    if !exists {
        return Ok(None);
    }
    match Timestamp::now() {
        Some(stamp) => Ok(backup_file_at(path, exists, &stamp)),
        None => Err(AuthError::Io("无法读取系统时间".to_owned())),
    }
}

/// What the error says where the name of a backup is taken already.
pub open spec fn taken_text(name: Seq<char>) -> Seq<char> {
    "备份文件已存在: "@ + name
}

/// Guards the backups that are there: a backup is never copied over.
///
/// `taken` tells whether a file of the name `name` is there already. Where
/// none is, the copy may be made. Where one is, the answer is an `Io` error
/// that names it, and neither the copy nor the change it was to come before
/// may go on.
pub fn guard_backup(name: &str, taken: bool) -> (r: Result<(), AuthError>)
    ensures
        match r {
            Ok(_) => !taken,
            Err(e) => taken && (e matches AuthError::Io(text) && text@ == taken_text(name@)),
        },
{
    if taken {
        Err(AuthError::Io(concat("备份文件已存在: ", name)))
    } else {
        Ok(())
    }
}

/// A number below a hundred is told by its two digits.
proof fn lemma_two_digits_tell(a: int, b: int)
    requires
        0 <= a < 100,
        0 <= b < 100,
        two_digits(a)[0] == two_digits(b)[0],
        two_digits(a)[1] == two_digits(b)[1],
    ensures
        a == b,
{
    assert(a / 10 == b / 10);
    assert(a % 10 == b % 10);
}

/// The text of a moment, digit by digit.
proof fn lemma_stamp_digits(reading: ClockReading)
    ensures
        ({
            let text = stamp_text(reading);
            &&& text.len() == 15
            &&& text[0] == two_digits(reading.year as int / 100)[0]
            &&& text[1] == two_digits(reading.year as int / 100)[1]
            &&& text[2] == two_digits(reading.year as int % 100)[0]
            &&& text[3] == two_digits(reading.year as int % 100)[1]
            &&& text[4] == two_digits(reading.month as int)[0]
            &&& text[5] == two_digits(reading.month as int)[1]
            &&& text[6] == two_digits(reading.day as int)[0]
            &&& text[7] == two_digits(reading.day as int)[1]
            &&& text[8] == '_'
            &&& text[9] == two_digits(reading.hour as int)[0]
            &&& text[10] == two_digits(reading.hour as int)[1]
            &&& text[11] == two_digits(reading.minute as int)[0]
            &&& text[12] == two_digits(reading.minute as int)[1]
            &&& text[13] == two_digits(reading.second as int)[0]
            &&& text[14] == two_digits(reading.second as int)[1]
        }),
{
}

/// No character of a moment's text parts a path.
proof fn lemma_stamp_parts_no_path(reading: ClockReading)
    requires
        is_moment(reading),
    ensures
        stamp_text(reading).len() == 15,
        forall|k: int| 0 <= k < 15 ==> (#[trigger] stamp_text(reading)[k]) != '/' && stamp_text(reading)[k] != '\\',
{
    lemma_stamp_digits(reading);
}

/// The name of a backup is the name of its file with twenty-three characters
/// behind it, none of which parts a path: the backup lies in the directory
/// of its file.
pub proof fn lemma_backup_is_sibling(path: Seq<char>, reading: ClockReading)
    requires
        is_moment(reading),
    ensures
        backup_name(path, reading).len() == path.len() + 23,
        backup_name(path, reading).subrange(0, path.len() as int) == path,
        forall|i: int|
            path.len() <= i < path.len() + 23 ==> (#[trigger] backup_name(path, reading)[i]) != '/'
                && backup_name(path, reading)[i] != '\\',
{
    reveal_strlit(".backup_");
    lemma_stamp_parts_no_path(reading);
    let name = backup_name(path, reading);
    let lead = ".backup_"@;
    let stamp = stamp_text(reading);
    assert(name =~= path + lead + stamp);
    assert(name.subrange(0, path.len() as int) =~= path);
    assert forall|i: int| path.len() <= i < path.len() + 23 implies (#[trigger] name[i]) != '/' && name[i]
        != '\\' by {
        let k = i - path.len();
        if k >= 8 {
            assert(name[i] == stamp[k - 8]);
        } else {
            assert(name[i] == lead[k]);
        }
    }
}

/// A moment is told by its text.
proof fn lemma_stamp_tells(first: ClockReading, second: ClockReading)
    requires
        is_moment(first),
        is_moment(second),
        stamp_text(first) == stamp_text(second),
    ensures
        first == second,
{
    lemma_stamp_digits(first);
    lemma_stamp_digits(second);
    lemma_two_digits_tell(first.year as int / 100, second.year as int / 100);
    lemma_two_digits_tell(first.year as int % 100, second.year as int % 100);
    lemma_two_digits_tell(first.month as int, second.month as int);
    lemma_two_digits_tell(first.day as int, second.day as int);
    lemma_two_digits_tell(first.hour as int, second.hour as int);
    lemma_two_digits_tell(first.minute as int, second.minute as int);
    lemma_two_digits_tell(first.second as int, second.second as int);
}

/// Backups of one file made at different moments have different names.
pub proof fn lemma_backups_differ(path: Seq<char>, first: ClockReading, second: ClockReading)
    requires
        is_moment(first),
        is_moment(second),
        first != second,
    ensures
        backup_name(path, first) != backup_name(path, second),
{
    let a = backup_name(path, first);
    let b = backup_name(path, second);
    if a == b {
        let lead = path + ".backup_"@;
        assert(a =~= lead + stamp_text(first));
        assert(b =~= lead + stamp_text(second));
        lemma_stamp_digits(first);
        lemma_stamp_digits(second);
        assert(a.subrange(lead.len() as int, a.len() as int) =~= stamp_text(first));
        assert(b.subrange(lead.len() as int, b.len() as int) =~= stamp_text(second));
        lemma_stamp_tells(first, second);
    }
}

} // verus!
