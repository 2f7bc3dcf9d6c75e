//! The clip store's logic: naming clips after the time they were saved,
//! reading that time back from a name, and choosing which clips to delete to
//! stay under a storage limit.

use crate::error::StorageErrorKind;
use crate::frame::CapturedFrame;
use vstd::multiset::Multiset;
use vstd::prelude::*;
use vstd::string::{StrSliceExecFns, StringExecFns};

verus! {

/// `name` joined under the directory `dir`, with one separator between them.
pub open spec fn join_path(dir: Seq<char>, name: Seq<char>) -> Seq<char> {
    if dir.len() == 0 {
        name
    } else if dir.last() == '/' {
        dir + name
    } else {
        dir + seq!['/'] + name
    }
}

/// The file name of a clip saved at local time `stamp`.
pub open spec fn clip_file_name(stamp: Seq<char>) -> Seq<char> {
    seq!['c', 'l', 'i', 'p', '_'] + stamp + seq!['.', 'm', 'p', '4']
}

/// Joins `name` under the directory `dir`.
pub fn join_path_exec(dir: &str, name: &str) -> (r: String)
    ensures
        r@ == join_path(dir@, name@),
{
    let n = dir.unicode_len();
    if n == 0 {
        return String::from_str(name);
    }
    let mut out = String::from_str(dir);
    if dir.get_char(n - 1) != '/' {
        let ghost before = out@;
        out.append("/");
        proof {
            reveal_strlit("/");
            assert(out@ =~= before + seq!['/']);
        }
    }
    out.append(name);
    out
}

/// A clip's save time as read from its name.
#[derive(Clone, Copy, Debug, PartialEq, Eq, Structural)]
pub struct ClipTimestamp {
    pub year: u32,
    pub month: u32,
    pub day: u32,
    pub hour: u32,
    pub minute: u32,
    pub second: u32,
}

/// Whether `c` is an ASCII decimal digit.
pub open spec fn is_digit(c: char) -> bool {
    '0' <= c && c <= '9'
}

/// The value of a run of decimal digits.
pub open spec fn digits_value(s: Seq<char>) -> int
    decreases s.len(),
{
    if s.len() == 0 {
        0
    } else {
        digits_value(s.drop_last()) * 10 + (s.last() as int - '0' as int)
    }
}

/// Whether `s[from..to]` are all decimal digits.
pub open spec fn all_digits(s: Seq<char>, from: int, to: int) -> bool {
    forall|i: int| from <= i < to ==> is_digit(#[trigger] s[i])
}

/// The save time in a name of the form `clip_YYYYMMDD_HHMMSS...`, when the
/// name has that form.
pub open spec fn spec_parse_clip_timestamp(s: Seq<char>) -> Option<ClipTimestamp> {
    if s.len() >= 20 && s[0] == 'c' && s[1] == 'l' && s[2] == 'i' && s[3] == 'p' && s[4] == '_'
        && all_digits(s, 5, 13) && all_digits(s, 14, 20) {
        Some(
            ClipTimestamp {
                year: digits_value(s.subrange(5, 9)) as u32,
                month: digits_value(s.subrange(9, 11)) as u32,
                day: digits_value(s.subrange(11, 13)) as u32,
                hour: digits_value(s.subrange(14, 16)) as u32,
                minute: digits_value(s.subrange(16, 18)) as u32,
                second: digits_value(s.subrange(18, 20)) as u32,
            },
        )
    } else {
        None
    }
}

/// `10^n`.
pub open spec fn pow10(n: nat) -> int
    decreases n,
{
    if n == 0 {
        1
    } else {
        pow10((n - 1) as nat) * 10
    }
}

/// The value of the digits `s[from..to]`, which are all decimal digits.
fn digits_at(s: &str, from: usize, to: usize) -> (r: u32)
    requires
        from <= to <= s@.len(),
        to - from <= 4,
        all_digits(s@, from as int, to as int),
    ensures
        r == digits_value(s@.subrange(from as int, to as int)),
{
    let mut v: u32 = 0;
    let mut i: usize = from;
    while i < to
        invariant
            from <= i <= to <= s@.len(),
            to - from <= 4,
            all_digits(s@, from as int, to as int),
            v == digits_value(s@.subrange(from as int, i as int)),
            v < pow10((i - from) as nat),
        decreases to - i,
    {
        let c = s.get_char(i);
        proof {
            assert(is_digit(s@[i as int]));
            assert(s@.subrange(from as int, i + 1).drop_last() =~= s@.subrange(from as int, i as int));
            assert(pow10((i + 1 - from) as nat) == pow10((i - from) as nat) * 10);
            assert(pow10(0) == 1 && pow10(1) == 10 && pow10(2) == 100 && pow10(3) == 1000);
        }
        v = v * 10 + (c as u32 - '0' as u32);
        i = i + 1;
    }
    v
}

/// Whether `s[from..to]` are all decimal digits.
fn digits_only(s: &str, from: usize, to: usize) -> (r: bool)
    requires
        from <= to <= s@.len(),
    ensures
        r == all_digits(s@, from as int, to as int),
{
    let mut i: usize = from;
    while i < to
        invariant
            from <= i <= to <= s@.len(),
            all_digits(s@, from as int, i as int),
        decreases to - i,
    {
        let c = s.get_char(i);
        if !('0' <= c && c <= '9') {
            return false;
        }
        i = i + 1;
    }
    true
}

/// Reads the save time from a clip name of the form
/// `clip_YYYYMMDD_HHMMSS...`; `None` when the name has another form.
pub fn parse_clip_timestamp(filename: &str) -> (r: Option<ClipTimestamp>)
    ensures
        r == spec_parse_clip_timestamp(filename@),
{
    let n = filename.unicode_len();
    if n < 20 {
        return None;
    }
    if !(filename.get_char(0) == 'c' && filename.get_char(1) == 'l' && filename.get_char(2) == 'i'
        && filename.get_char(3) == 'p' && filename.get_char(4) == '_') {
        return None;
    }
    if !digits_only(filename, 5, 13) || !digits_only(filename, 14, 20) {
        return None;
    }
    Some(
        ClipTimestamp {
            year: digits_at(filename, 5, 9),
            month: digits_at(filename, 9, 11),
            day: digits_at(filename, 11, 13),
            hour: digits_at(filename, 14, 16),
            minute: digits_at(filename, 16, 18),
            second: digits_at(filename, 18, 20),
        },
    )
}

/// A saved clip as the store sees it.
#[derive(Clone, Debug)]
pub struct ClipInfo {
    /// Full path of the clip file.
    pub path: String,
    /// File name alone.
    pub filename: String,
    /// File size in bytes.
    pub size_bytes: u64,
    /// Last modification, in seconds since the Unix epoch, if known.
    pub modified_secs: Option<u64>,
}

/// Sum of the sizes of `clips`.
pub open spec fn sizes_sum(clips: Seq<ClipInfo>) -> int
    decreases clips.len(),
{
    if clips.len() == 0 {
        0
    } else {
        sizes_sum(clips.drop_last()) + clips.last().size_bytes
    }
}

/// Free space reported for the output directory, in bytes (10 GiB).
pub const AVAILABLE_STORAGE_BYTES: u64 = 10737418240;

/// Manages where clips are saved and how much space they may use.
pub struct StorageManager {
    output_directory: String,
    max_storage_bytes: u64,
    auto_cleanup: bool,
}

impl StorageManager {
    /// The output directory.
    pub closed spec fn spec_directory(&self) -> Seq<char> {
        self.output_directory@
    }

    /// The storage limit in bytes (0 = unlimited).
    pub closed spec fn spec_max_storage(&self) -> u64 {
        self.max_storage_bytes
    }

    /// Whether old clips are deleted automatically when space runs out.
    pub closed spec fn spec_auto_cleanup(&self) -> bool {
        self.auto_cleanup
    }

    /// A store saving under `output_directory`, unlimited, with automatic
    /// cleanup on. The directory itself is created by the caller.
    pub fn new(output_directory: &str) -> (r: Self)
        ensures
            r.spec_directory() == output_directory@,
            r.spec_max_storage() == 0,
            r.spec_auto_cleanup(),
    {
        StorageManager {
            output_directory: String::from_str(output_directory),
            max_storage_bytes: 0,
            auto_cleanup: true,
        }
    }

    /// The path under `output_directory` of a clip saved at local time
    /// `stamp` (written `YYYYMMDD_HHMMSS` by the caller, who reads the
    /// clock): `clip_<stamp>.mp4`, joined with one separator.
    pub fn generate_filename(output_directory: &str, stamp: &str) -> (r: String)
        ensures
            r@ == join_path(output_directory@, clip_file_name(stamp@)),
    {
        let mut name = String::from_str("clip_");
        name.append(stamp);
        name.append(".mp4");
        proof {
            reveal_strlit("clip_");
            reveal_strlit(".mp4");
            assert(name@ =~= clip_file_name(stamp@));
        }
        join_path_exec(output_directory, name.as_str())
    }

    /// The path in this store's directory of a clip saved at local time
    /// `stamp`.
    pub fn get_new_clip_path(&self, stamp: &str) -> (r: String)
        ensures
            r@ == join_path(self.spec_directory(), clip_file_name(stamp@)),
    {
        StorageManager::generate_filename(self.output_directory.as_str(), stamp)
    }

    /// Total size of `clips` in bytes, saturating at `u64::MAX`.
    pub fn total_storage_used(&self, clips: &[ClipInfo]) -> (r: u64)
        ensures
            r == if sizes_sum(clips@) <= u64::MAX {
                sizes_sum(clips@)
            } else {
                u64::MAX as int
            },
    {
        let n = clips.len();
        let mut total: u64 = 0;
        let mut i: usize = 0;
        while i < n
            invariant
                n == clips@.len(),
                i <= n,
                total == if sizes_sum(clips@.subrange(0, i as int)) <= u64::MAX {
                    sizes_sum(clips@.subrange(0, i as int))
                } else {
                    u64::MAX as int
                },
            decreases n - i,
        {
            proof {
                let next = clips@.subrange(0, i + 1);
                assert(next.drop_last() =~= clips@.subrange(0, i as int));
                assert(next.last() == clips@[i as int]);
                lemma_sizes_sum_nonneg(clips@.subrange(0, i as int));
            }
            let size = clips[i].size_bytes;
            total = if total > u64::MAX - size {
                u64::MAX
            } else {
                total + size
            };
            i = i + 1;
        }
        proof {
            assert(clips@.subrange(0, n as int) =~= clips@);
        }
        total
    }

    /// Number of clips in `clips`.
    pub fn clip_count(&self, clips: &[ClipInfo]) -> (r: usize)
        ensures
            r == clips@.len(),
    {
        clips.len()
    }

    /// How many of the oldest clips must go so that the rest use at most
    /// `target_bytes`. `clips` is ordered newest first, so the clips to delete
    /// are the last `r`; `r` is the least such count (all of them when even
    /// that is not enough).
    pub fn cleanup_to_limit(&self, clips: &[ClipInfo], target_bytes: u64) -> (r: usize)
        ensures
            r <= clips@.len(),
            r < clips@.len() ==> sizes_sum(clips@.subrange(0, clips@.len() - r)) <= target_bytes,
            forall|k: int|
                0 <= k < r ==> sizes_sum(#[trigger] clips@.subrange(0, clips@.len() - k))
                    > target_bytes,
    {
        let n = clips.len();
        let mut kept: usize = 0;
        let mut used: u64 = 0;
        while kept < n && clips[kept].size_bytes <= target_bytes - used
            invariant
                n == clips@.len(),
                kept <= n,
                used <= target_bytes,
                used == sizes_sum(clips@.subrange(0, kept as int)),
            decreases n - kept,
        {
            proof {
                let next = clips@.subrange(0, kept + 1);
                assert(next.drop_last() =~= clips@.subrange(0, kept as int));
                assert(next.last() == clips@[kept as int]);
            }
            used = used + clips[kept].size_bytes;
            kept = kept + 1;
        }
        proof {
            if kept < n {
                let next = clips@.subrange(0, kept + 1);
                assert(next.drop_last() =~= clips@.subrange(0, kept as int));
                assert(next.last() == clips@[kept as int]);
                assert forall|k: int| 0 <= k < n - kept implies sizes_sum(
                    #[trigger] clips@.subrange(0, n - k),
                ) > target_bytes by {
                    lemma_prefix_sums_grow(clips@, kept + 1, n - k);
                }
            }
        }
        n - kept
    }

    /// Whether a clip of about `estimated_size` bytes fits, with a tenth more
    /// kept free as margin.
    pub fn has_space_for(&self, estimated_size: u64) -> (r: Result<bool, StorageErrorKind>)
        ensures
            r matches Ok(b) && b == (AVAILABLE_STORAGE_BYTES as int >= estimated_size as int
                + estimated_size as int / 10),
    {
        let available = match self.available_storage() {
            Ok(a) => a,
            Err(e) => return Err(e),
        };
        let margin = estimated_size / 10;
        if estimated_size > u64::MAX - margin {
            return Ok(false);
        }
        Ok(available >= estimated_size + margin)
    }

    /// Free space for clips, in bytes.
    pub fn available_storage(&self) -> (r: Result<u64, StorageErrorKind>)
        ensures
            r matches Ok(a) && a == AVAILABLE_STORAGE_BYTES,
    {
        Ok(AVAILABLE_STORAGE_BYTES)
    }

    /// Sets the storage limit in bytes (0 = unlimited).
    pub fn set_max_storage(&mut self, max_bytes: u64)
        ensures
            final(self).spec_max_storage() == max_bytes,
            final(self).spec_directory() == old(self).spec_directory(),
            final(self).spec_auto_cleanup() == old(self).spec_auto_cleanup(),
    {
        self.max_storage_bytes = max_bytes;
    }

    /// Turns automatic cleanup on or off.
    pub fn set_auto_cleanup(&mut self, enabled: bool)
        ensures
            final(self).spec_auto_cleanup() == enabled,
            final(self).spec_directory() == old(self).spec_directory(),
            final(self).spec_max_storage() == old(self).spec_max_storage(),
    {
        self.auto_cleanup = enabled;
    }

    /// The output directory.
    pub fn output_directory(&self) -> (r: &str)
        ensures
            r@ == self.spec_directory(),
    {
        self.output_directory.as_str()
    }
}

proof fn lemma_prefix_sums_grow(clips: Seq<ClipInfo>, a: int, b: int)
    requires
        0 <= a <= b <= clips.len(),
    ensures
        sizes_sum(clips.subrange(0, a)) <= sizes_sum(clips.subrange(0, b)),
    decreases b - a,
{
    if a < b {
        lemma_prefix_sums_grow(clips, a, b - 1);
        let sb = clips.subrange(0, b);
        assert(sb.drop_last() =~= clips.subrange(0, b - 1));
    }
}

proof fn lemma_sizes_sum_nonneg(clips: Seq<ClipInfo>)
    ensures
        sizes_sum(clips) >= 0,
    decreases clips.len(),
{
    if clips.len() > 0 {
        lemma_sizes_sum_nonneg(clips.drop_last());
    }
}

/// Whether this process may write clips; permission is granted here.
pub fn check_storage_permission() -> (r: bool)
    ensures
        r,
{
    true
}

/// Asks for permission to write clips; it is granted here.
pub fn request_storage_permission() -> (r: Result<bool, StorageErrorKind>)
    ensures
        r matches Ok(b) && b,
{
    Ok(true)
}

/// The base64 text (standard alphabet, padded) that the base64 crate
/// produces for `bytes`.
pub uninterp spec fn base64_of(bytes: Seq<u8>) -> Seq<char>;

/// Relies on base64::Engine::encode with base64::engine::general_purpose::STANDARD:
/// the padded standard base64 text of the bytes, a function of the bytes alone.
#[verifier::external_body]
fn encode_base64(bytes: &[u8]) -> (r: String)
    ensures
        r@ == base64_of(bytes@),
{
    base64::Engine::encode(&base64::engine::general_purpose::STANDARD, bytes)
}

/// The prefix of a data URL holding a JPEG image in base64.
pub open spec fn jpeg_data_url_prefix() -> Seq<char> {
    seq!['d', 'a', 't', 'a', ':', 'i', 'm', 'a', 'g', 'e', '/', 'j', 'p', 'e', 'g', ';', 'b', 'a', 's', 'e', '6', '4', ',']
}

/// A thumbnail for a clip: its first frame's JPEG payload as a data URL, or
/// `None` for a clip without frames.
pub fn clip_thumbnail(frames: &[CapturedFrame]) -> (r: Option<String>)
    ensures
        frames@.len() == 0 ==> r is None,
        frames@.len() > 0 ==> (r matches Some(s) && s@ == jpeg_data_url_prefix() + base64_of(
            frames@[0].data@,
        )),
{
    if frames.len() == 0 {
        return None;
    }
    let mut url = String::from_str("data:image/jpeg;base64,");
    let encoded = encode_base64(frames[0].data.as_slice());
    url.append(encoded.as_str());
    proof {
        reveal_strlit("data:image/jpeg;base64,");
        assert(url@ =~= jpeg_data_url_prefix() + base64_of(frames@[0].data@));
    }
    Some(url)
}

/// The character of decimal digit `d`.
pub open spec fn digit_char(d: int) -> char {
    if d == 0 {
        '0'
    } else if d == 1 {
        '1'
    } else if d == 2 {
        '2'
    } else if d == 3 {
        '3'
    } else if d == 4 {
        '4'
    } else if d == 5 {
        '5'
    } else if d == 6 {
        '6'
    } else if d == 7 {
        '7'
    } else if d == 8 {
        '8'
    } else {
        '9'
    }
}

/// The decimal digits of `n`, most significant first, without leading zeros.
pub open spec fn decimal(n: nat) -> Seq<char>
    decreases n,
{
    if n < 10 {
        seq![digit_char(n as int)]
    } else {
        decimal(n / 10).push(digit_char((n % 10) as int))
    }
}

fn push_digit(out: &mut String, d: u64)
    requires
        d < 10,
    ensures
        final(out)@ == old(out)@.push(digit_char(d as int)),
{
    let text = if d == 0 {
        "0"
    } else if d == 1 {
        "1"
    } else if d == 2 {
        "2"
    } else if d == 3 {
        "3"
    } else if d == 4 {
        "4"
    } else if d == 5 {
        "5"
    } else if d == 6 {
        "6"
    } else if d == 7 {
        "7"
    } else if d == 8 {
        "8"
    } else {
        "9"
    };
    proof {
        reveal_strlit("0");
        reveal_strlit("1");
        reveal_strlit("2");
        reveal_strlit("3");
        reveal_strlit("4");
        reveal_strlit("5");
        reveal_strlit("6");
        reveal_strlit("7");
        reveal_strlit("8");
        reveal_strlit("9");
        assert(text@ =~= seq![digit_char(d as int)]);
    }
    out.append(text);
}

/// Appends the decimal digits of `n`.
pub(crate) fn push_decimal(out: &mut String, n: u64)
    ensures
        final(out)@ == old(out)@ + decimal(n as nat),
    decreases n,
{
    let ghost start = out@;
    if n >= 10 {
        push_decimal(out, n / 10);
    }
    push_digit(out, n % 10);
    proof {
        if n >= 10 {
            assert(out@ =~= start + decimal(n as nat));
        } else {
            assert(out@ =~= start + decimal(n as nat));
        }
    }
}

/// Seconds in a minute.
pub const MINUTE_SECS: u64 = 60;

/// Seconds in an hour.
pub const HOUR_SECS: u64 = 3600;

/// Seconds in a day.
pub const DAY_SECS: u64 = 86400;

/// `n` followed by `unit`, made plural unless `n` is 1, and " ago".
pub open spec fn ago_text(n: nat, unit: Seq<char>) -> Seq<char> {
    decimal(n) + seq![' '] + unit + (if n == 1 {
        Seq::<char>::empty()
    } else {
        seq!['s']
    }) + seq![' ', 'a', 'g', 'o']
}

/// How long ago a clip modified at `modified` (seconds since the epoch) was
/// saved, seen at `now`: "just now" under a minute (or when the time lies in
/// the future), then whole minutes, whole hours, "yesterday", or whole days.
pub open spec fn age_text(modified: Option<u64>, now: u64) -> Seq<char> {
    match modified {
        None => seq!['u', 'n', 'k', 'n', 'o', 'w', 'n'],
        Some(t) => {
            let age = now as int - t as int;
            if age < MINUTE_SECS {
                seq!['j', 'u', 's', 't', ' ', 'n', 'o', 'w']
            } else if age < HOUR_SECS {
                ago_text((age / MINUTE_SECS as int) as nat, seq!['m', 'i', 'n', 'u', 't', 'e'])
            } else if age < DAY_SECS {
                ago_text((age / HOUR_SECS as int) as nat, seq!['h', 'o', 'u', 'r'])
            } else if age < 2 * DAY_SECS {
                seq!['y', 'e', 's', 't', 'e', 'r', 'd', 'a', 'y']
            } else {
                ago_text((age / DAY_SECS as int) as nat, seq!['d', 'a', 'y'])
            }
        },
    }
}

/// Appends `n`, `unit` (plural unless `n` is 1) and " ago".
fn push_ago(out: &mut String, n: u64, unit: &str)
    ensures
        final(out)@ == old(out)@ + ago_text(n as nat, unit@),
{
    let ghost start = out@;
    push_decimal(out, n);
    out.append(" ");
    out.append(unit);
    if n != 1 {
        out.append("s");
    }
    out.append(" ago");
    proof {
        reveal_strlit(" ");
        reveal_strlit("s");
        reveal_strlit(" ago");
        assert(out@ =~= start + ago_text(n as nat, unit@));
    }
}

impl ClipInfo {
    /// Seconds from the clip's modification to `now_secs` (negative when it
    /// lies in the future), or `None` when the modification time is unknown.
    pub fn age(&self, now_secs: u64) -> (r: Option<i128>)
        ensures
            r == match self.modified_secs {
                None => None::<i128>,
                Some(t) => Some((now_secs as int - t as int) as i128),
            },
    {
        match self.modified_secs {
            None => None,
            Some(t) => Some(now_secs as i128 - t as i128),
        }
    }

    /// How long ago the clip was saved, as text ("just now", "5 minutes
    /// ago", "2 hours ago", "yesterday", "3 days ago", or "unknown").
    pub fn age_human(&self, now_secs: u64) -> (r: String)
        ensures
            r@ == age_text(self.modified_secs, now_secs),
    {
        let mut out = String::new();
        match self.modified_secs {
            None => {
                out.append("unknown");
                proof {
                    reveal_strlit("unknown");
                    assert(out@ =~= age_text(self.modified_secs, now_secs));
                }
            },
            Some(t) => {
                if t > now_secs || now_secs - t < MINUTE_SECS {
                    out.append("just now");
                    proof {
                        reveal_strlit("just now");
                        assert(out@ =~= age_text(self.modified_secs, now_secs));
                    }
                } else {
                    let age = now_secs - t;
                    if age < HOUR_SECS {
                        push_ago(&mut out, age / MINUTE_SECS, "minute");
                        proof {
                            reveal_strlit("minute");
                            assert(out@ =~= age_text(self.modified_secs, now_secs));
                        }
                    } else if age < DAY_SECS {
                        push_ago(&mut out, age / HOUR_SECS, "hour");
                        proof {
                            reveal_strlit("hour");
                            assert(out@ =~= age_text(self.modified_secs, now_secs));
                        }
                    } else if age < 2 * DAY_SECS {
                        out.append("yesterday");
                        proof {
                            reveal_strlit("yesterday");
                            assert(out@ =~= age_text(self.modified_secs, now_secs));
                        }
                    } else {
                        push_ago(&mut out, age / DAY_SECS, "day");
                        proof {
                            reveal_strlit("day");
                            assert(out@ =~= age_text(self.modified_secs, now_secs));
                        }
                    }
                }
            },
        }
        out
    }
}

/// Whether a clip modified at `a` is at least as new as one modified at `b`;
/// a clip without a known time counts as the oldest.
pub open spec fn newer_or_same(a: Option<u64>, b: Option<u64>) -> bool {
    match (a, b) {
        (_, None) => true,
        (None, Some(_)) => false,
        (Some(x), Some(y)) => x >= y,
    }
}

/// Whether `clips` runs from the newest to the oldest.
pub open spec fn newest_first(clips: Seq<ClipInfo>) -> bool {
    forall|i: int, j: int|
        0 <= i < j < clips.len() ==> newer_or_same(
            #[trigger] clips[i].modified_secs,
            #[trigger] clips[j].modified_secs,
        )
}

fn is_newer_or_same(a: Option<u64>, b: Option<u64>) -> (r: bool)
    ensures
        r == newer_or_same(a, b),
{
    match (a, b) {
        (_, None) => true,
        (None, Some(_)) => false,
        (Some(x), Some(y)) => x >= y,
    }
}

/// The same clips, ordered from the newest to the oldest (clips without a
/// known time last).
pub fn sort_newest_first(clips: Vec<ClipInfo>) -> (r: Vec<ClipInfo>)
    ensures
        r@.to_multiset() == clips@.to_multiset(),
        newest_first(r@),
{
    broadcast use vstd::seq_lib::group_to_multiset_ensures;

    let mut rest = clips;
    let mut out: Vec<ClipInfo> = Vec::new();
    proof {
        assert(out@.to_multiset() =~= Multiset::<ClipInfo>::empty());
        assert(out@.to_multiset().add(rest@.to_multiset()) =~= clips@.to_multiset());
    }
    while rest.len() > 0
        invariant
            newest_first(out@),
            out@.to_multiset().add(rest@.to_multiset()) == clips@.to_multiset(),
        decreases rest@.len(),
    {
        let ghost before_rest = rest@;
        let ghost before_out = out@;
        let x = rest.remove(0);
        let n = out.len();
        let mut p: usize = 0;
        while p < n && is_newer_or_same(out[p].modified_secs, x.modified_secs)
            invariant
                n == out@.len(),
                p <= n,
                forall|k: int| 0 <= k < p ==> newer_or_same(#[trigger] out@[k].modified_secs, x.modified_secs),
            decreases n - p,
        {
            p = p + 1;
        }
        proof {
            assert(p < n ==> !newer_or_same(out@[p as int].modified_secs, x.modified_secs));
            assert forall|k: int| p <= k < n implies newer_or_same(x.modified_secs, #[trigger] out@[k].modified_secs) by {
                if k > p {
                    assert(newer_or_same(out@[p as int].modified_secs, out@[k].modified_secs));
                }
            }
        }
        out.insert(p, x);
        proof {
            vstd::seq_lib::to_multiset_remove(before_rest, 0);
            vstd::seq_lib::to_multiset_insert(before_out, p as int, x);
            assert(before_rest[0] == x);
            assert(before_rest.contains(x));
            vstd::seq_lib::to_multiset_contains(before_rest, x);
            assert(out@.to_multiset().add(rest@.to_multiset()) =~= clips@.to_multiset());
            assert forall|i: int, j: int| 0 <= i < j < out@.len() implies newer_or_same(
                #[trigger] out@[i].modified_secs,
                #[trigger] out@[j].modified_secs,
            ) by {
                if j < p {
                    assert(out@[i] == before_out[i] && out@[j] == before_out[j]);
                } else if j == p {
                    assert(out@[i] == before_out[i]);
                } else if i == p {
                    assert(out@[j] == before_out[j - 1]);
                } else if i < p {
                    assert(out@[i] == before_out[i] && out@[j] == before_out[j - 1]);
                } else {
                    assert(out@[i] == before_out[i - 1] && out@[j] == before_out[j - 1]);
                }
            }
        }
    }
    proof {
        assert(rest@.to_multiset() =~= Multiset::<ClipInfo>::empty());
        assert(out@.to_multiset() =~= clips@.to_multiset());
    }
    out
}

} // verus!
